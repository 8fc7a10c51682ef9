//! The code behind an entity: its keys and the lookup by them.

use vstd::prelude::*;

use crate::field::idents;
use crate::field::print_idents;
use crate::params::{views, Param, ParamView};
use crate::tokens::{code, nothing, string, TokenStream, TokenView};

verus! {

/// The lookup of an entity.
pub struct Finder {
    /// How many keys it needs.
    pub keys: usize,
    pub code: TokenStream,
}

/// The mathematical value of a [`Finder`].
pub struct FinderView {
    pub keys: nat,
    pub code: Seq<TokenView>,
}

impl View for Finder {
    type V = FinderView;

    open spec fn view(&self) -> FinderView {
        FinderView { keys: self.keys as nat, code: self.code@ }
    }
}

/// The values of a list of lookups.
pub open spec fn finder_views(finders: Seq<Finder>) -> Seq<FinderView> {
    finders.map_values(|f: Finder| f@)
}

/// The names of the first `n` keys with a space in front of each but where
/// nothing precedes it.
pub open spec fn joined(ps: Seq<ParamView>, n: nat) -> Seq<char>
    decreases n,
{
    if n == 0 {
        Seq::empty()
    } else if joined(ps, (n - 1) as nat).len() == 0 {
        ps[n - 1].name
    } else {
        joined(ps, (n - 1) as nat) + " "@ + ps[n - 1].name
    }
}

/// The names of the keys with spaces between them.
pub fn join_names(ps: &Vec<Param>) -> (r: String)
    ensures
        r@ == joined(views(ps@), ps@.len()),
{
    let mut r = String::new();
    let mut i: usize = 0;
    while i < ps.len()
        invariant
            i <= ps.len(),
            r@ == joined(views(ps@), i as nat),
        decreases ps.len() - i,
    {
        if !r.as_str().is_empty() {
            r.append(" ");
        } else {
            assert(r@ + ps[i as int].name@ =~= ps[i as int].name@);
        }
        r.append(ps[i].name.as_str());
        i += 1;
    }
    r
}

/// The statement that registers the keys of an entity.
pub open spec fn add_keys_code(
    krate: Seq<char>,
    ty: Seq<TokenView>,
    keys: Seq<char>,
) -> Seq<TokenView> {
    code("registry.add_keys(&<"@) + ty + code("as"@) + code(krate) + code("::Type>::type_name(),"@)
        + string(keys) + code(");"@)
}

/// The statement that registers the keys of an entity.
pub fn add_keys(krate: &str, ty: &TokenStream, keys: &str) -> (r: TokenStream)
    ensures
        r@ == add_keys_code(krate@, ty@, keys@),
{
    TokenStream::of("registry.add_keys(&<").stream(ty).code("as").code(krate).code(
        "::Type>::type_name(),",
    ).string(keys).code(");")
}

/// The statement that registers the type of an entity.
pub open spec fn create_type_code(krate: Seq<char>, ty: Seq<TokenView>) -> Seq<TokenView> {
    code("<"@) + ty + code("as"@) + code(krate) + code("::Type>::create_type_info(registry);"@)
}

/// The statement that registers the type of an entity.
pub fn create_type(krate: &str, ty: &TokenStream) -> (r: TokenStream)
    ensures
        r@ == create_type_code(krate@, ty@),
{
    TokenStream::of("<").stream(ty).code("as").code(krate).code(
        "::Type>::create_type_info(registry);",
    )
}

/// The pattern that a key has to match.
pub open spec fn key_pattern(p: ParamView) -> Seq<TokenView> {
    code("Some("@) + p.ident + code(")"@)
}

/// The patterns of the first `n` keys with commas between them.
pub open spec fn key_patterns(ps: Seq<ParamView>, n: nat) -> Seq<TokenView>
    decreases n,
{
    if n == 0 {
        nothing()
    } else if n == 1 {
        key_pattern(ps[0])
    } else {
        key_patterns(ps, (n - 1) as nat) + code(","@) + key_pattern(ps[n - 1])
    }
}

fn print_key_patterns(ps: &Vec<Param>) -> (r: TokenStream)
    ensures
        r@ == key_patterns(views(ps@), ps@.len()),
{
    if ps.len() == 0 {
        return TokenStream::new();
    }
    let mut r = TokenStream::of("Some(").stream(&ps[0].ident).code(")");
    let mut i: usize = 1;
    while i < ps.len()
        invariant
            1 <= i <= ps.len(),
            r@ == key_patterns(views(ps@), i as nat),
        decreases ps.len() - i,
    {
        r = r.code(",").stream(&TokenStream::of("Some(").stream(&ps[i].ident).code(")"));
        i += 1;
    }
    r
}

/// An expression for the value that is given for a key.
pub open spec fn key_getter(krate: Seq<char>, p: ParamView) -> Seq<TokenView> {
    code("params.get("@) + string(p.name) + code(").and_then(|value| { let value: Option<"@) + p.ty
        + code("> ="@) + code(krate) + code("::InputValueType::parse(value); value })"@)
}

/// The values for the first `n` keys with commas between them.
pub open spec fn key_getters(krate: Seq<char>, ps: Seq<ParamView>, n: nat) -> Seq<TokenView>
    decreases n,
{
    if n == 0 {
        nothing()
    } else if n == 1 {
        key_getter(krate, ps[0])
    } else {
        key_getters(krate, ps, (n - 1) as nat) + code(","@) + key_getter(krate, ps[n - 1])
    }
}

fn print_key_getter(krate: &str, p: &Param) -> (r: TokenStream)
    ensures
        r@ == key_getter(krate@, p@),
{
    TokenStream::of("params.get(").string(p.name.as_str()).code(
        ").and_then(|value| { let value: Option<",
    ).stream(&p.ty).code("> =").code(krate).code("::InputValueType::parse(value); value })")
}

fn print_key_getters(krate: &str, ps: &Vec<Param>) -> (r: TokenStream)
    ensures
        r@ == key_getters(krate@, views(ps@), ps@.len()),
{
    if ps.len() == 0 {
        return TokenStream::new();
    }
    let mut r = print_key_getter(krate, &ps[0]);
    let mut i: usize = 1;
    while i < ps.len()
        invariant
            1 <= i <= ps.len(),
            r@ == key_getters(krate@, views(ps@), i as nat),
        decreases ps.len() - i,
    {
        r = r.code(",").stream(&print_key_getter(krate, &ps[i]));
        i += 1;
    }
    r
}

/// The statement that checks the guard of an entity, where it has one.
pub open spec fn entity_guard(guard: Option<TokenStream>) -> Seq<TokenView> {
    match guard {
        Some(guard) => guard@ + code(
            ".check(ctx).await.map_err(|err| err.into_error(pos))?;"@,
        ),
        None => nothing(),
    }
}

/// The statement that looks an entity up, if it is of the type that is asked
/// for and all its keys are given.
pub open spec fn find_code(
    krate: Seq<char>,
    ty: Seq<TokenView>,
    guard: Option<TokenStream>,
    ps: Seq<ParamView>,
    ident: Seq<TokenView>,
) -> Seq<TokenView> {
    code("if typename == &<"@) + ty + code("as"@) + code(krate) + code(
        "::Type>::type_name() { if let ("@,
    ) + key_patterns(ps, ps.len()) + code(") = ("@) + key_getters(krate, ps, ps.len()) + code(
        ") {"@,
    ) + entity_guard(guard) + code(
        "let ctx_obj = ctx.with_selection_set(&ctx.selection_set); return"@,
    ) + code(krate) + code("::OutputValueType::resolve(&self."@) + ident + code("(ctx,"@) + idents(
        ps,
        ps.len(),
    ) + code(").await.map_err(|err| err.into_error(pos))?, &ctx_obj, pos).await; } }"@)
}

/// The statement that looks an entity up, if it is of the type that is asked
/// for and all its keys are given.
pub fn find(
    krate: &str,
    ty: &TokenStream,
    guard: &Option<TokenStream>,
    ps: &Vec<Param>,
    ident: &TokenStream,
) -> (r: TokenStream)
    ensures
        r@ == find_code(krate@, ty@, *guard, views(ps@), ident@),
{
    let check = match guard {
        Some(guard) => guard.copy().code(".check(ctx).await.map_err(|err| err.into_error(pos))?;"),
        None => TokenStream::new(),
    };
    TokenStream::of("if typename == &<").stream(ty).code("as").code(krate).code(
        "::Type>::type_name() { if let (",
    ).stream(&print_key_patterns(ps)).code(") = (").stream(&print_key_getters(krate, ps)).code(
        ") {",
    ).stream(&check).code(
        "let ctx_obj = ctx.with_selection_set(&ctx.selection_set); return",
    ).code(krate).code("::OutputValueType::resolve(&self.").stream(ident).code("(ctx,").stream(
        &print_idents(ps),
    ).code(").await.map_err(|err| err.into_error(pos))?, &ctx_obj, pos).await; } }")
}

/// The list with a lookup put behind those that need at least as many keys.
pub open spec fn ranked(finders: Seq<FinderView>, f: FinderView) -> Seq<FinderView>
    decreases finders.len(),
{
    if finders.len() == 0 || finders.last().keys >= f.keys {
        finders.push(f)
    } else {
        ranked(finders.drop_last(), f).push(finders.last())
    }
}

/// The order in which lookups are tried: those with more keys come first, and
/// among those with as many the one that was written first.
pub open spec fn search_order(finders: Seq<FinderView>) -> Seq<FinderView>
    decreases finders.len(),
{
    if finders.len() == 0 {
        finders
    } else {
        ranked(search_order(finders.drop_last()), finders.last())
    }
}

/// Puts a lookup behind those that need at least as many keys.
fn rank(finders: &mut Vec<Finder>, f: Finder)
    ensures
        finder_views(final(finders)@) == ranked(finder_views(old(finders)@), f@),
{
    let ghost all = finder_views(finders@);
    let mut i: usize = finders.len();
    assert(all.take(i as int) =~= all);
    assert(all.skip(i as int) =~= Seq::empty());
    assert(ranked(all, f@) =~= ranked(all, f@) + Seq::<FinderView>::empty());
    while i > 0 && finders[i - 1].keys < f.keys
        invariant
            i <= finders.len(),
            all == finder_views(finders@),
            ranked(all, f@) == ranked(all.take(i as int), f@) + all.skip(i as int),
        decreases i,
    {
        i -= 1;
        let ghost head = all.take(i + 1);
        assert(head.drop_last() =~= all.take(i as int));
        assert(head.last() == all[i as int]);
        assert(ranked(head, f@) + all.skip(i + 1) =~= ranked(all.take(i as int), f@) + all.skip(
            i as int,
        ));
    }
    proof {
        let head = all.take(i as int);
        if i > 0 {
            assert(head.last() == finders@[i - 1]@);
        }
        assert(all.insert(i as int, f@) =~= head.push(f@) + all.skip(i as int));
    }
    finders.insert(i, f);
    assert(finder_views(finders@) =~= all.insert(i as int, f@));
}

/// Puts lookups into the order in which they are tried.
pub fn sort_finders(finders: Vec<Finder>) -> (r: Vec<Finder>)
    ensures
        finder_views(r@) == search_order(finder_views(finders@)),
{
    let mut rest = finders;
    let mut r: Vec<Finder> = Vec::new();
    let ghost all = finder_views(finders@);
    let mut n: usize = 0;
    let len: usize = rest.len();
    assert(finder_views(r@) =~= all.take(0));
    assert(all.skip(0) =~= all);
    while n < len
        invariant
            n <= len,
            len == all.len(),
            finder_views(rest@) == all.skip(n as int),
            finder_views(r@) == search_order(all.take(n as int)),
        decreases len - n,
    {
        assert(finder_views(rest@).len() == rest@.len());
        let ghost current = rest@;
        let f = rest.remove(0);
        assert(f@ == finder_views(current)[0]);
        assert forall|i: int| 0 <= i < rest@.len() implies finder_views(rest@)[i] == all.skip(
            n + 1,
        )[i] by {
            assert(finder_views(rest@)[i] == finder_views(current)[i + 1]);
        }
        assert(finder_views(rest@) =~= all.skip(n + 1));
        assert(all.take(n + 1).drop_last() =~= all.take(n as int));
        rank(&mut r, f);
        n += 1;
    }
    assert(all.take(n as int) =~= all);
    r
}

} // verus!
