//! The lists in the generated code: each element is printed once, in its own
//! place, and nothing is left out.

use vstd::prelude::*;

use crate::entity::{
    key_getter, key_getters, key_pattern, key_patterns, ranked, search_order, FinderView,
};
use crate::field::{get_param, get_params, idents, schema_arg, schema_args};
use crate::object::lookups;
use crate::params::ParamView;
use crate::syntax::{printed_attrs, printed_inputs, printed_items, Attribute, FnArg, ImplItem};
use crate::tokens::TokenView;

use super::law_every_lookup_is_tried;
use super::template::{framed, lemma_flatten_push, listing};

verus! {

/// The codes of lookups.
pub open spec fn codes(finders: Seq<FinderView>) -> Seq<Seq<TokenView>> {
    finders.map_values(|f: FinderView| f.code)
}

/// The printed lookups are the codes of them all, one behind the other.
pub proof fn law_every_lookup_is_printed(finders: Seq<FinderView>, n: nat)
    requires
        n <= finders.len(),
    ensures
        lookups(finders, n) == codes(finders.take(n as int)).flatten(),
        n == finders.len() ==> lookups(finders, n) == codes(finders).flatten(),
    decreases n,
{
    if n > 0 {
        law_every_lookup_is_printed(finders, (n - 1) as nat);
        lemma_flatten_push(codes(finders.take(n - 1)), finders[n - 1].code);
        assert(codes(finders.take(n as int)) =~= codes(finders.take(n - 1)).push(
            finders[n - 1].code,
        ));
    } else {
        assert(codes(finders.take(0)) =~= Seq::empty());
    }
    assert(finders.take(finders.len() as int) =~= finders);
}

/// Each lookup adds its own code behind what is printed before it, whatever
/// that is, so that as many tokens are printed as the codes hold.
pub proof fn law_each_lookup_adds_its_code(finders: Seq<FinderView>, n: nat)
    requires
        n < finders.len(),
    ensures
        lookups(finders, 0).len() == 0,
        lookups(finders, n + 1) == lookups(finders, n) + finders[n as int].code,
        lookups(finders, n + 1).len() == lookups(finders, n).len() + finders[n as int].code.len(),
{
}

/// A lookup that is tried stands in the printed lookups.
proof fn lemma_lookup_stands(finders: Seq<FinderView>, n: nat, i: int)
    requires
        0 <= i < n <= finders.len(),
    ensures
        exists|before: Seq<TokenView>, after: Seq<TokenView>| #[trigger]
            framed(lookups(finders, n), before, finders[i].code, after),
    decreases n,
{
    if i == n - 1 {
        let before = lookups(finders, (n - 1) as nat);
        assert(lookups(finders, n) =~= before + finders[i].code + Seq::empty());
        assert(framed(lookups(finders, n), before, finders[i].code, Seq::empty()));
    } else {
        lemma_lookup_stands(finders, (n - 1) as nat, i);
        let less = lookups(finders, (n - 1) as nat);
        let (before, after) = choose|before: Seq<TokenView>, after: Seq<TokenView>| #[trigger]
            framed(less, before, finders[i].code, after);
        let more = finders[n - 1].code;
        assert(lookups(finders, n) =~= before + finders[i].code + (after + more));
        assert(framed(lookups(finders, n), before, finders[i].code, after + more));
    }
}

/// The code of every lookup of a block stands in the lookups that are printed
/// in search order.
pub proof fn law_no_lookup_is_dropped(finders: Seq<FinderView>, i: int)
    requires
        0 <= i < finders.len(),
    ensures
        exists|before: Seq<TokenView>, after: Seq<TokenView>| #[trigger]
            framed(
                lookups(search_order(finders), finders.len()),
                before,
                finders[i].code,
                after,
            ),
{
    law_every_lookup_is_tried(finders);
    let order = search_order(finders);
    assert(finders.to_multiset().contains(finders[i])) by {
        finders.to_multiset_ensures();
        assert(finders.contains(finders[i]));
    }
    order.to_multiset_ensures();
    assert(order.to_multiset().count(finders[i]) > 0);
    assert(order.contains(finders[i]));
    finders.to_multiset_ensures();
    assert(order.len() == finders.len());
    let k = order.index_of(finders[i]);
    assert(order[k] == finders[i]);
    lemma_lookup_stands(order, order.len(), k);
}

proof fn lemma_ranked_length(finders: Seq<FinderView>, f: FinderView)
    ensures
        codes(ranked(finders, f)).flatten().len() == codes(finders).flatten().len() + f.code.len(),
    decreases finders.len(),
{
    if finders.len() == 0 || finders.last().keys >= f.keys {
        lemma_flatten_push(codes(finders), f.code);
        assert(codes(finders.push(f)) =~= codes(finders).push(f.code));
    } else {
        let rest = finders.drop_last();
        lemma_ranked_length(rest, f);
        lemma_flatten_push(codes(rest), finders.last().code);
        assert(codes(finders) =~= codes(rest).push(finders.last().code));
        lemma_flatten_push(codes(ranked(rest, f)), finders.last().code);
        assert(codes(ranked(rest, f).push(finders.last())) =~= codes(ranked(rest, f)).push(
            finders.last().code,
        ));
    }
}

/// The order in which lookups are tried adds no code and takes none away.
pub proof fn law_search_order_keeps_the_code(finders: Seq<FinderView>)
    ensures
        search_order(finders).len() == finders.len(),
        lookups(search_order(finders), finders.len()).len() == codes(finders).flatten().len(),
    decreases finders.len(),
{
    law_every_lookup_is_tried(finders);
    finders.to_multiset_ensures();
    search_order(finders).to_multiset_ensures();
    law_every_lookup_is_printed(search_order(finders), search_order(finders).len());
    if finders.len() > 0 {
        let rest = finders.drop_last();
        law_search_order_keeps_the_code(rest);
        law_every_lookup_is_printed(search_order(rest), search_order(rest).len());
        lemma_ranked_length(search_order(rest), finders.last());
        lemma_flatten_push(codes(rest), finders.last().code);
        assert(codes(finders) =~= codes(rest).push(finders.last().code));
    }
}

/// The schema shows every argument, in the order in which they are written.
pub proof fn law_every_argument_is_shown(krate: Seq<char>, ps: Seq<ParamView>, n: nat)
    requires
        n <= ps.len(),
    ensures
        schema_args(krate, ps, n) == ps.take(n as int).map_values(
            |p: ParamView| schema_arg(krate, p),
        ).flatten(),
    decreases n,
{
    let entry = |p: ParamView| schema_arg(krate, p);
    if n > 0 {
        law_every_argument_is_shown(krate, ps, (n - 1) as nat);
        lemma_flatten_push(ps.take(n - 1).map_values(entry), entry(ps[n - 1]));
        assert(ps.take(n as int).map_values(entry) =~= ps.take(n - 1).map_values(entry).push(
            entry(ps[n - 1]),
        ));
    } else {
        assert(ps.take(0).map_values(entry) =~= Seq::empty());
    }
}

/// A resolver takes every argument, in the order in which they are written.
pub proof fn law_every_argument_is_taken(krate: Seq<char>, ps: Seq<ParamView>, n: nat)
    requires
        n <= ps.len(),
    ensures
        get_params(krate, ps, n) == ps.take(n as int).map_values(
            |p: ParamView| get_param(krate, p),
        ).flatten(),
    decreases n,
{
    let entry = |p: ParamView| get_param(krate, p);
    if n > 0 {
        law_every_argument_is_taken(krate, ps, (n - 1) as nat);
        lemma_flatten_push(ps.take(n - 1).map_values(entry), entry(ps[n - 1]));
        assert(ps.take(n as int).map_values(entry) =~= ps.take(n - 1).map_values(entry).push(
            entry(ps[n - 1]),
        ));
    } else {
        assert(ps.take(0).map_values(entry) =~= Seq::empty());
    }
}

/// The comma between two elements of a list.
pub open spec fn comma() -> Seq<TokenView> {
    seq![TokenView::Code(","@)]
}

proof fn lemma_listing_push(pieces: Seq<Seq<TokenView>>, piece: Seq<TokenView>)
    ensures
        pieces.len() == 0 ==> listing(pieces.push(piece), comma()) == piece,
        pieces.len() > 0 ==> listing(pieces.push(piece), comma()) == listing(pieces, comma())
            + comma() + piece,
{
    assert(pieces.push(piece).drop_last() =~= pieces);
}

/// The method is handed every argument, in order, with commas between them.
pub proof fn law_every_argument_is_handed_on(ps: Seq<ParamView>, n: nat)
    requires
        n <= ps.len(),
    ensures
        idents(ps, n) == listing(
            ps.take(n as int).map_values(|p: ParamView| p.ident),
            comma(),
        ),
    decreases n,
{
    let entry = |p: ParamView| p.ident;
    if n > 0 {
        law_every_argument_is_handed_on(ps, (n - 1) as nat);
        lemma_listing_push(ps.take(n - 1).map_values(entry), entry(ps[n - 1]));
        assert(ps.take(n as int).map_values(entry) =~= ps.take(n - 1).map_values(entry).push(
            entry(ps[n - 1]),
        ));
    } else {
        assert(ps.take(0).map_values(entry) =~= Seq::empty());
    }
}

/// A lookup matches every key, in order, with commas between them.
pub proof fn law_every_key_is_matched(ps: Seq<ParamView>, n: nat)
    requires
        n <= ps.len(),
    ensures
        key_patterns(ps, n) == listing(
            ps.take(n as int).map_values(|p: ParamView| key_pattern(p)),
            comma(),
        ),
    decreases n,
{
    let entry = |p: ParamView| key_pattern(p);
    if n > 0 {
        law_every_key_is_matched(ps, (n - 1) as nat);
        lemma_listing_push(ps.take(n - 1).map_values(entry), entry(ps[n - 1]));
        assert(ps.take(n as int).map_values(entry) =~= ps.take(n - 1).map_values(entry).push(
            entry(ps[n - 1]),
        ));
    } else {
        assert(ps.take(0).map_values(entry) =~= Seq::empty());
    }
}

/// A lookup reads every key, in order, with commas between them.
pub proof fn law_every_key_is_read(krate: Seq<char>, ps: Seq<ParamView>, n: nat)
    requires
        n <= ps.len(),
    ensures
        key_getters(krate, ps, n) == listing(
            ps.take(n as int).map_values(|p: ParamView| key_getter(krate, p)),
            comma(),
        ),
    decreases n,
{
    let entry = |p: ParamView| key_getter(krate, p);
    if n > 0 {
        law_every_key_is_read(krate, ps, (n - 1) as nat);
        lemma_listing_push(ps.take(n - 1).map_values(entry), entry(ps[n - 1]));
        assert(ps.take(n as int).map_values(entry) =~= ps.take(n - 1).map_values(entry).push(
            entry(ps[n - 1]),
        ));
    } else {
        assert(ps.take(0).map_values(entry) =~= Seq::empty());
    }
}

/// A parameter list is printed whole, in order, with commas between the
/// parameters.
pub proof fn law_every_parameter_is_printed(inputs: Seq<FnArg>, n: nat)
    requires
        n <= inputs.len(),
    ensures
        printed_inputs(inputs, n) == listing(
            inputs.take(n as int).map_values(|arg: FnArg| arg.listed()),
            comma(),
        ),
    decreases n,
{
    let entry = |arg: FnArg| arg.listed();
    if n > 0 {
        law_every_parameter_is_printed(inputs, (n - 1) as nat);
        lemma_listing_push(inputs.take(n - 1).map_values(entry), entry(inputs[n - 1]));
        assert(inputs.take(n as int).map_values(entry) =~= inputs.take(n - 1).map_values(
            entry,
        ).push(entry(inputs[n - 1])));
    } else {
        assert(inputs.take(0).map_values(entry) =~= Seq::empty());
    }
}

/// The items of a block are printed whole and in order.
pub proof fn law_every_item_is_printed(items: Seq<ImplItem>, n: nat)
    requires
        n <= items.len(),
    ensures
        printed_items(items, n) == items.take(n as int).map_values(
            |item: ImplItem| item.printed(),
        ).flatten(),
    decreases n,
{
    let entry = |item: ImplItem| item.printed();
    if n > 0 {
        law_every_item_is_printed(items, (n - 1) as nat);
        lemma_flatten_push(items.take(n - 1).map_values(entry), entry(items[n - 1]));
        assert(items.take(n as int).map_values(entry) =~= items.take(n - 1).map_values(
            entry,
        ).push(entry(items[n - 1])));
    } else {
        assert(items.take(0).map_values(entry) =~= Seq::empty());
    }
}

/// The attributes of one style are printed whole and in order, and those of the
/// other style are not.
pub proof fn law_every_attribute_of_a_style_is_printed(
    attrs: Seq<Attribute>,
    inner: bool,
    n: nat,
)
    requires
        n <= attrs.len(),
    ensures
        printed_attrs(attrs, inner, n) == attrs.take(n as int).filter(
            |attr: Attribute| attr.inner == inner,
        ).map_values(|attr: Attribute| attr.tokens@).flatten(),
    decreases n,
{
    let kept = |attr: Attribute| attr.inner == inner;
    let entry = |attr: Attribute| attr.tokens@;
    if n > 0 {
        law_every_attribute_of_a_style_is_printed(attrs, inner, (n - 1) as nat);
        let less = attrs.take(n - 1).filter(kept);
        assert(attrs.take(n as int) =~= attrs.take(n - 1).push(attrs[n - 1]));
        attrs.take(n - 1).lemma_filter_push(attrs[n - 1], kept);
        if kept(attrs[n - 1]) {
            lemma_flatten_push(less.map_values(entry), entry(attrs[n - 1]));
            assert(less.push(attrs[n - 1]).map_values(entry) =~= less.map_values(entry).push(
                entry(attrs[n - 1]),
            ));
        }
    } else {
        assert(attrs.take(0).filter(kept).map_values(entry) =~= Seq::empty());
    }
}

} // verus!
