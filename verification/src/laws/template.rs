//! How two pieces of generated code relate, and what stands where in one.

use vstd::prelude::*;

use crate::tokens::TokenView;

verus! {

/// `a` is `before`, then `hole`, then `after`.
pub open spec fn framed(
    a: Seq<TokenView>,
    before: Seq<TokenView>,
    hole: Seq<TokenView>,
    after: Seq<TokenView>,
) -> bool {
    a == before + hole + after
}

/// `a` and `b` are the same code but for the holes, which stand in the same
/// order at the same places, filled with `holes_a` in the one and `holes_b` in
/// the other.
#[verifier::opaque]
pub open spec fn same_template(
    a: Seq<TokenView>,
    holes_a: Seq<Seq<TokenView>>,
    b: Seq<TokenView>,
    holes_b: Seq<Seq<TokenView>>,
) -> bool
    decreases holes_a.len(),
{
    if holes_a.len() == 0 || holes_b.len() == 0 {
        holes_a.len() == holes_b.len() && a == b
    } else {
        exists|before_a: Seq<TokenView>, before_b: Seq<TokenView>, after: Seq<TokenView>|
            {
                &&& #[trigger] framed(a, before_a, holes_a.last(), after)
                &&& #[trigger] framed(b, before_b, holes_b.last(), after)
                &&& same_template(before_a, holes_a.drop_last(), before_b, holes_b.drop_last())
            }
    }
}

/// Somewhere in the code stands the text `label`, and right behind it `value`.
pub open spec fn labelled(
    tokens: Seq<TokenView>,
    label: Seq<char>,
    value: Seq<TokenView>,
) -> bool {
    exists|before: Seq<TokenView>, after: Seq<TokenView>| #[trigger]
        framed(tokens, before, seq![TokenView::Code(label)] + value, after)
}

/// Two pieces of code while they are written side by side.
pub struct Draft {
    pub a: Seq<TokenView>,
    pub holes_a: Seq<Seq<TokenView>>,
    pub b: Seq<TokenView>,
    pub holes_b: Seq<Seq<TokenView>>,
}

impl Draft {
    /// So far the two are the same but for the holes.
    pub open spec fn holds(self) -> bool {
        same_template(self.a, self.holes_a, self.b, self.holes_b)
    }
}

/// Both begin with the same text.
pub proof fn begin(text: Seq<TokenView>) -> (r: Draft)
    ensures
        r.holds(),
        r == (Draft { a: text, holes_a: Seq::empty(), b: text, holes_b: Seq::empty() }),
{
    reveal(same_template);
    Draft { a: text, holes_a: Seq::empty(), b: text, holes_b: Seq::empty() }
}

/// Both begin with a hole.
pub proof fn begin_hole(a: Seq<TokenView>, b: Seq<TokenView>) -> (r: Draft)
    ensures
        r.holds(),
        r == (Draft {
            a,
            holes_a: Seq::<Seq<TokenView>>::empty().push(a),
            b,
            holes_b: Seq::<Seq<TokenView>>::empty().push(b),
        }),
{
    let empty = begin(Seq::empty());
    let r = hole(empty, a, b);
    assert(Seq::<TokenView>::empty() + a =~= a);
    assert(Seq::<TokenView>::empty() + b =~= b);
    r
}

/// Both go on with a hole.
pub proof fn hole(draft: Draft, a: Seq<TokenView>, b: Seq<TokenView>) -> (r: Draft)
    requires
        draft.holds(),
    ensures
        r.holds(),
        r == (Draft {
            a: draft.a + a,
            holes_a: draft.holes_a.push(a),
            b: draft.b + b,
            holes_b: draft.holes_b.push(b),
        }),
{
    reveal(same_template);
    let r = Draft {
        a: draft.a + a,
        holes_a: draft.holes_a.push(a),
        b: draft.b + b,
        holes_b: draft.holes_b.push(b),
    };
    assert(r.holes_a.drop_last() =~= draft.holes_a);
    assert(r.holes_b.drop_last() =~= draft.holes_b);
    assert(r.a =~= draft.a + a + Seq::empty());
    assert(r.b =~= draft.b + b + Seq::empty());
    assert(framed(r.a, draft.a, r.holes_a.last(), Seq::empty()));
    assert(framed(r.b, draft.b, r.holes_b.last(), Seq::empty()));
    r
}

/// Both go on with the same text.
pub proof fn text(draft: Draft, more: Seq<TokenView>) -> (r: Draft)
    requires
        draft.holds(),
    ensures
        r.holds(),
        r == (Draft { a: draft.a + more, b: draft.b + more, ..draft }),
{
    reveal(same_template);
    let r = Draft { a: draft.a + more, b: draft.b + more, ..draft };
    if draft.holes_a.len() > 0 && draft.holes_b.len() > 0 {
        let (before_a, before_b, after) = choose|
            before_a: Seq<TokenView>,
            before_b: Seq<TokenView>,
            after: Seq<TokenView>,
        |
            {
                &&& #[trigger] framed(draft.a, before_a, draft.holes_a.last(), after)
                &&& #[trigger] framed(draft.b, before_b, draft.holes_b.last(), after)
                &&& same_template(
                    before_a,
                    draft.holes_a.drop_last(),
                    before_b,
                    draft.holes_b.drop_last(),
                )
            };
        assert(r.a =~= before_a + draft.holes_a.last() + (after + more));
        assert(r.b =~= before_b + draft.holes_b.last() + (after + more));
        assert(framed(r.a, before_a, r.holes_a.last(), after + more));
        assert(framed(r.b, before_b, r.holes_b.last(), after + more));
    }
    r
}

/// A piece of code while it is written, and the labels that stand in it so far.
pub struct Page {
    pub code: Seq<TokenView>,
    pub labels: Seq<(Seq<char>, Seq<TokenView>)>,
}

impl Page {
    /// Each label stands in the code with its value behind it.
    pub open spec fn holds(self) -> bool {
        forall|i: int|
            0 <= i < self.labels.len() ==> labelled(
                self.code,
                (#[trigger] self.labels[i]).0,
                self.labels[i].1,
            )
    }
}

/// A page that begins with code that has no label.
pub proof fn begin_page(code: Seq<TokenView>) -> (r: Page)
    ensures
        r.holds(),
        r == (Page { code, labels: Seq::empty() }),
{
    Page { code, labels: Seq::empty() }
}

/// A page that begins with a label and its value.
pub proof fn begin_entry(label: Seq<char>, value: Seq<TokenView>) -> (r: Page)
    ensures
        r.holds(),
        r == (Page {
            code: seq![TokenView::Code(label)] + value,
            labels: Seq::<(Seq<char>, Seq<TokenView>)>::empty().push((label, value)),
        }),
{
    let empty = begin_page(Seq::empty());
    let r = entry(empty, label, value);
    assert(Seq::<TokenView>::empty() + seq![TokenView::Code(label)] =~= seq![
        TokenView::Code(label),
    ]);
    r
}

/// The labels stay where they are when code is written behind them.
pub proof fn go_on(page: Page, more: Seq<TokenView>) -> (r: Page)
    requires
        page.holds(),
    ensures
        r.holds(),
        r == (Page { code: page.code + more, ..page }),
{
    let r = Page { code: page.code + more, ..page };
    assert forall|i: int| 0 <= i < r.labels.len() implies labelled(
        r.code,
        (#[trigger] r.labels[i]).0,
        r.labels[i].1,
    ) by {
        let marked = seq![TokenView::Code(page.labels[i].0)] + page.labels[i].1;
        assert(labelled(page.code, page.labels[i].0, page.labels[i].1));
        let (before, after) = choose|before: Seq<TokenView>, after: Seq<TokenView>| #[trigger]
            framed(page.code, before, marked, after);
        assert(r.code =~= before + marked + (after + more));
        assert(framed(r.code, before, marked, after + more));
    }
    r
}

/// A label with its value is written behind the others.
pub proof fn entry(page: Page, label: Seq<char>, value: Seq<TokenView>) -> (r: Page)
    requires
        page.holds(),
    ensures
        r.holds(),
        r == (Page {
            code: page.code + seq![TokenView::Code(label)] + value,
            labels: page.labels.push((label, value)),
        }),
{
    let marked = go_on(page, seq![TokenView::Code(label)]);
    let kept = go_on(marked, value);
    let r = Page { labels: page.labels.push((label, value)), ..kept };
    assert forall|i: int| 0 <= i < r.labels.len() implies labelled(
        r.code,
        (#[trigger] r.labels[i]).0,
        r.labels[i].1,
    ) by {
        if i < page.labels.len() {
            assert(r.labels[i] == kept.labels[i]);
        } else {
            let all = seq![TokenView::Code(label)] + value;
            assert(r.code =~= page.code + all + Seq::empty());
            assert(framed(r.code, page.code, all, Seq::empty()));
        }
    }
    r
}

/// The pieces, one behind the other, with `between` between any two.
pub open spec fn listing(pieces: Seq<Seq<TokenView>>, between: Seq<TokenView>) -> Seq<TokenView>
    decreases pieces.len(),
{
    if pieces.len() == 0 {
        Seq::empty()
    } else if pieces.len() == 1 {
        pieces[0]
    } else {
        listing(pieces.drop_last(), between) + between + pieces.last()
    }
}

/// What is written behind a list of pieces stands behind them all.
pub proof fn lemma_flatten_push(pieces: Seq<Seq<TokenView>>, piece: Seq<TokenView>)
    ensures
        pieces.push(piece).flatten() == pieces.flatten() + piece,
{
    let all = pieces.push(piece);
    all.lemma_flatten_and_flatten_alt_are_equivalent();
    pieces.lemma_flatten_and_flatten_alt_are_equivalent();
    assert(all.drop_last() =~= pieces);
}

} // verus!
