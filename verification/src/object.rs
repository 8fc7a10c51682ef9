//! The expansion of an `impl` block.

use vstd::prelude::*;

use crate::args::Object;
use crate::entity::{finder_views, search_order, FinderView};
use crate::entity::{sort_finders, Finder};
use crate::error::{Error, ErrorView};
use crate::field::cache_code;
use crate::field::cache_control;
use crate::method::{expand_method, is_refused, is_sound, Parts};
use crate::method::{
    is_broken, method_error, method_wf, no_parts, refused, rewritten, with_method, PartsView,
};
use crate::params::check_inputs;
use crate::syntax::{ImplItem, ItemImpl, Type};
use crate::tokens::{code, flag, nothing, optional_string, string, TokenStream, TokenView};

verus! {

/// A well-formed block: its type and its methods are well-formed.
pub open spec fn block_wf(block: ItemImpl) -> bool {
    &&& block.self_ty matches Type::Path(ty) ==> ty.path.wf()
    &&& forall|i: int| 0 <= i < block.items@.len() ==> item_wf(#[trigger] block.items@[i])
}

/// A well-formed item.
pub open spec fn item_wf(item: ImplItem) -> bool {
    item matches ImplItem::Method(m) ==> method_wf(m)
}

/// The error with which an item is refused, if it is.
pub open spec fn item_error(item: ImplItem) -> Option<ErrorView> {
    match item {
        ImplItem::Method(m) => method_error(m),
        ImplItem::Other(_) => None,
    }
}

/// The first `n` items are accepted.
pub open spec fn all_accepted(items: Seq<ImplItem>, n: int) -> bool {
    forall|i: int| 0 <= i < n ==> item_error(#[trigger] items[i]) is None
}

/// The item is a resolver that is not refused and still cannot be expanded.
pub open spec fn item_broken(item: ImplItem) -> bool {
    item matches ImplItem::Method(m) && is_broken(m)
}

/// No item that the expansion reaches is broken.
pub open spec fn is_expandable(items: Seq<ImplItem>) -> bool {
    forall|i: int|
        0 <= i < items.len() && all_accepted(items, i) ==> !item_broken(#[trigger] items[i])
}

/// The name of the object in the schema: the one that is given, or else the last
/// identifier of the type. A type that is no path has none.
pub open spec fn object_name(object_args: Object, block: ItemImpl) -> Option<Seq<char>> {
    match block.self_ty {
        Type::Path(ty) => Some(
            match object_args.name {
                Some(name) => name@,
                None => ty.path.last_ident(),
            },
        ),
        _ => None,
    }
}

/// The error for a block whose type is no path.
pub open spec fn invalid_type(block: ItemImpl) -> ErrorView {
    ErrorView { tokens: block.self_ty.printed(), message: "Invalid type"@ }
}

/// The error of the first one of the first `n` items that is refused, if one is.
pub open spec fn items_error(items: Seq<ImplItem>, n: nat) -> Option<ErrorView>
    decreases n,
{
    if n == 0 {
        None
    } else if items_error(items, (n - 1) as nat) is Some {
        items_error(items, (n - 1) as nat)
    } else {
        item_error(items[n - 1])
    }
}

/// The error with which a block is refused, if it is.
pub open spec fn block_error(
    object_args: Object,
    block: ItemImpl,
    reserved: Option<Error>,
) -> Option<ErrorView> {
    if object_name(object_args, block) is None {
        Some(invalid_type(block))
    } else {
        match reserved {
            Some(verdict) => Some(verdict@),
            None => items_error(block.items@, block.items@.len()),
        }
    }
}

/// The first item that is refused decides, and where none is, there is no error.
pub proof fn lemma_first_item_error(items: Seq<ImplItem>, k: nat, n: nat)
    requires
        k <= n,
        all_accepted(items, k as int),
        k < n ==> item_error(items[k as int]) is Some,
    ensures
        k == n ==> items_error(items, n) is None,
        k < n ==> items_error(items, n) == item_error(items[k as int]),
    decreases n,
{
    if k < n {
        if k < n - 1 {
            lemma_first_item_error(items, k, (n - 1) as nat);
        } else {
            lemma_first_item_error(items, k, k);
        }
    } else if n > 0 {
        assert(item_error(items[n - 1]) is None);
        lemma_first_item_error(items, (n - 1) as nat, (n - 1) as nat);
    }
}

/// `b` is the item that stands in place of `a` once it is expanded.
pub open spec fn item_rewritten(krate: Seq<char>, a: ImplItem, b: ImplItem) -> bool {
    match a {
        ImplItem::Method(m) => b matches ImplItem::Method(n) && rewritten(krate, m, n),
        ImplItem::Other(_) => b == a,
    }
}

/// `b` is what is left of `a` once it is refused.
pub open spec fn item_refused(a: ImplItem, b: ImplItem) -> bool {
    a matches ImplItem::Method(m) && b matches ImplItem::Method(n) && refused(m, n)
}

/// The first `n` items of `b` are those of `a`, expanded; the others are those
/// of `a`.
pub open spec fn items_rewritten(
    krate: Seq<char>,
    a: Seq<ImplItem>,
    b: Seq<ImplItem>,
    n: int,
) -> bool {
    &&& b.len() == a.len()
    &&& forall|i: int|
        #![trigger a[i]]
        #![trigger b[i]]
        0 <= i < n ==> item_rewritten(krate, a[i], b[i])
    &&& forall|i: int| #![trigger a[i]] #![trigger b[i]] n <= i < a.len() ==> b[i] == a[i]
}

/// The item at position `k` is the first one that is refused. The items before
/// it are expanded, the ones behind it untouched.
pub open spec fn stopped_at(
    krate: Seq<char>,
    a: Seq<ImplItem>,
    b: Seq<ImplItem>,
    k: int,
    error: ErrorView,
) -> bool {
    &&& 0 <= k < a.len()
    &&& all_accepted(a, k)
    &&& item_error(a[k]) == Some(error)
    &&& item_refused(a[k], b[k])
    &&& items_rewritten(krate, a, b.update(k, a[k]), k)
    &&& b.len() == a.len()
}

/// Some item of `a` is refused with the given error, and `b` is what is left.
pub open spec fn stopped(
    krate: Seq<char>,
    a: Seq<ImplItem>,
    b: Seq<ImplItem>,
    error: ErrorView,
) -> bool {
    exists|k: int| stopped_at(krate, a, b, k, error)
}

/// `a` and `b` agree on all but the items.
pub open spec fn same_block(a: ItemImpl, b: ItemImpl) -> bool {
    &&& b.attrs == a.attrs
    &&& b.defaultness == a.defaultness
    &&& b.unsafety == a.unsafety
    &&& b.generics == a.generics
    &&& b.trait_ == a.trait_
    &&& b.self_ty == a.self_ty
    &&& b.where_clause == a.where_clause
}

/// The parts with those of an item that is not refused behind them.
pub open spec fn with_item(krate: Seq<char>, item: ImplItem, parts: PartsView) -> PartsView {
    match item {
        ImplItem::Method(m) => with_method(krate, m, parts),
        ImplItem::Other(_) => parts,
    }
}

/// The code that the first `n` items contribute.
pub open spec fn parts(krate: Seq<char>, items: Seq<ImplItem>, n: nat) -> PartsView
    decreases n,
{
    if n == 0 {
        no_parts()
    } else {
        with_item(krate, items[n - 1], parts(krate, items, (n - 1) as nat))
    }
}

/// The impl through which the object is registered.
pub open spec fn type_impl_code(
    krate: Seq<char>,
    name: Seq<char>,
    object_args: Object,
    block: ItemImpl,
    parts: PartsView,
) -> Seq<TokenView> {
    code("impl"@) + block.generics@ + code(krate) + code("::Type for"@) + block.self_ty.printed()
        + block.where_clause@ + code(
        "{ fn type_name() -> std::borrow::Cow<'static, str> { std::borrow::Cow::Borrowed("@,
    ) + string(name) + code(") } fn create_type_info(registry: &mut"@) + code(krate) + code(
        "::registry::Registry) -> String { let ty = registry.create_type::<Self, _>(|registry|"@,
    ) + code(krate) + code("::registry::Type::Object { name:"@) + string(name) + code(
        ".to_string()"@,
    ) + code(", description:"@) + optional_string(object_args.desc) + code(
        ", fields: { let mut fields = std::collections::HashMap::new();"@,
    ) + parts.schema_fields + code("fields }"@) + code(", cache_control:"@) + cache_code(
        krate,
        object_args.cache_control,
    ) + code(", extends:"@) + flag(object_args.extends) + code(", keys: None, });"@)
        + parts.create_types + parts.add_keys + code("ty } }"@)
}

/// The impl through which the object is registered.
pub fn type_impl(
    krate: &str,
    name: &str,
    object_args: &Object,
    block: &ItemImpl,
    parts: &Parts,
) -> (r: TokenStream)
    ensures
        r@ == type_impl_code(krate@, name@, *object_args, *block, parts@),
{
    TokenStream::of("impl").stream(&block.generics).code(krate).code("::Type for").stream(
        block.self_ty.print(),
    ).stream(&block.where_clause).code(
        "{ fn type_name() -> std::borrow::Cow<'static, str> { std::borrow::Cow::Borrowed(",
    ).string(name).code(") } fn create_type_info(registry: &mut").code(krate).code(
        "::registry::Registry) -> String { let ty = registry.create_type::<Self, _>(|registry|",
    ).code(krate).code("::registry::Type::Object { name:").string(name).code(
        ".to_string()",
    ).code(", description:").optional_string(&object_args.desc).code(
        ", fields: { let mut fields = std::collections::HashMap::new();",
    ).stream(&parts.schema_fields).code("fields }").code(", cache_control:").stream(
        &cache_control(krate, &object_args.cache_control),
    ).code(", extends:").flag(object_args.extends).code(", keys: None, });").stream(
        &parts.create_types,
    ).stream(&parts.add_keys).code("ty } }")
}

/// The first `n` lookups, one behind the other.
pub open spec fn lookups(finders: Seq<FinderView>, n: nat) -> Seq<TokenView>
    decreases n,
{
    if n == 0 {
        nothing()
    } else {
        lookups(finders, (n - 1) as nat) + finders[n - 1].code
    }
}

fn print_lookups(finders: &Vec<Finder>) -> (r: TokenStream)
    ensures
        r@ == lookups(finder_views(finders@), finders@.len()),
{
    let mut r = TokenStream::new();
    let mut i: usize = 0;
    while i < finders.len()
        invariant
            i <= finders.len(),
            r@ == lookups(finder_views(finders@), i as nat),
        decreases finders.len() - i,
    {
        r = r.stream(&finders[i].code);
        i += 1;
    }
    r
}

/// The impl through which fields are resolved and entities found. The lookups
/// are tried in [`search_order`].
pub open spec fn object_impl_code(
    krate: Seq<char>,
    name: Seq<char>,
    block: ItemImpl,
    resolvers: Seq<TokenView>,
    finders: Seq<FinderView>,
) -> Seq<TokenView> {
    code("#["@) + code(krate) + code("::async_trait::async_trait] impl"@) + block.generics@ + code(
        krate,
    ) + code("::ObjectType for"@) + block.self_ty.printed() + block.where_clause@ + code(
        "{ async fn resolve_field(&self, ctx: &"@,
    ) + code(krate) + code("::Context<'_>) ->"@) + code(krate) + code("::Result<"@) + code(krate)
        + code("::serde_json::Value> {"@) + resolvers + code("Err("@) + code(krate) + code(
        "::QueryError::FieldNotFound { field_name: ctx.name.clone(), object:"@,
    ) + string(name) + code(
        ".to_string(), }.into_error(ctx.position)) } async fn find_entity(&self, ctx: &"@,
    ) + code(krate) + code("::Context<'_>, pos:"@) + code(krate) + code("::Pos, params: &"@) + code(
        krate,
    ) + code("::Value) ->"@) + code(krate) + code("::Result<"@) + code(krate) + code(
        "::serde_json::Value> { let params = match params {"@,
    ) + code(krate) + code("::Value::Object(params) => params, _ => return Err("@) + code(krate)
        + code("::QueryError::EntityNotFound.into_error(pos)), }; let typename = if let Some("@)
        + code(krate) + code("::Value::String(typename)) = params.get("@) + string("__typename"@)
        + code(") { typename } else { return Err("@) + code(krate) + code(
        "::QueryError::TypeNameNotExists.into_error(pos)); };"@,
    ) + lookups(search_order(finders), search_order(finders).len()) + code("Err("@) + code(krate)
        + code("::QueryError::EntityNotFound.into_error(pos)) } }"@)
}

/// The impl through which fields are resolved and entities found.
pub fn object_impl(
    krate: &str,
    name: &str,
    block: &ItemImpl,
    resolvers: &TokenStream,
    finders: Vec<Finder>,
) -> (r: TokenStream)
    ensures
        r@ == object_impl_code(krate@, name@, *block, resolvers@, finder_views(finders@)),
{
    let sorted = sort_finders(finders);
    TokenStream::of("#[").code(krate).code("::async_trait::async_trait] impl").stream(
        &block.generics,
    ).code(krate).code("::ObjectType for").stream(block.self_ty.print()).stream(
        &block.where_clause,
    ).code("{ async fn resolve_field(&self, ctx: &").code(krate).code("::Context<'_>) ->").code(
        krate,
    ).code("::Result<").code(krate).code("::serde_json::Value> {").stream(resolvers).code(
        "Err(",
    ).code(krate).code(
        "::QueryError::FieldNotFound { field_name: ctx.name.clone(), object:",
    ).string(name).code(
        ".to_string(), }.into_error(ctx.position)) } async fn find_entity(&self, ctx: &",
    ).code(krate).code("::Context<'_>, pos:").code(krate).code("::Pos, params: &").code(krate).code(
        "::Value) ->",
    ).code(krate).code("::Result<").code(krate).code(
        "::serde_json::Value> { let params = match params {",
    ).code(krate).code("::Value::Object(params) => params, _ => return Err(").code(krate).code(
        "::QueryError::EntityNotFound.into_error(pos)), }; let typename = if let Some(",
    ).code(krate).code("::Value::String(typename)) = params.get(").string("__typename").code(
        ") { typename } else { return Err(",
    ).code(krate).code("::QueryError::TypeNameNotExists.into_error(pos)); };").stream(
        &print_lookups(&sorted),
    ).code("Err(").code(krate).code("::QueryError::EntityNotFound.into_error(pos)) } }")
}

/// The impl through which the object is a value that can be resolved.
pub open spec fn output_impl_code(krate: Seq<char>, block: ItemImpl) -> Seq<TokenView> {
    code("#["@) + code(krate) + code("::async_trait::async_trait] impl"@) + block.generics@ + code(
        krate,
    ) + code("::OutputValueType for"@) + block.self_ty.printed() + block.where_clause@ + code(
        "{ async fn resolve(&self, ctx: &"@,
    ) + code(krate) + code("::ContextSelectionSet<'_>, pos:"@) + code(krate) + code("::Pos) ->"@)
        + code(krate) + code("::Result<"@) + code(krate) + code("::serde_json::Value> {"@) + code(
        krate,
    ) + code("::do_resolve(ctx, self).await } }"@)
}

/// The impl through which the object is a value that can be resolved.
pub fn output_impl(krate: &str, block: &ItemImpl) -> (r: TokenStream)
    ensures
        r@ == output_impl_code(krate@, *block),
{
    TokenStream::of("#[").code(krate).code("::async_trait::async_trait] impl").stream(
        &block.generics,
    ).code(krate).code("::OutputValueType for").stream(block.self_ty.print()).stream(
        &block.where_clause,
    ).code("{ async fn resolve(&self, ctx: &").code(krate).code(
        "::ContextSelectionSet<'_>, pos:",
    ).code(krate).code("::Pos) ->").code(krate).code("::Result<").code(krate).code(
        "::serde_json::Value> {",
    ).code(krate).code("::do_resolve(ctx, self).await } }")
}

/// The rewritten block and the three impls behind it. The code in them is that
/// of the block as it was written.
pub open spec fn expansion(
    krate: Seq<char>,
    name: Seq<char>,
    object_args: Object,
    written: ItemImpl,
    rewritten: ItemImpl,
) -> Seq<TokenView> {
    let all = parts(krate, written.items@, written.items@.len());
    rewritten.printed() + type_impl_code(krate, name, object_args, rewritten, all)
        + object_impl_code(krate, name, rewritten, all.resolvers, all.finders) + output_impl_code(
        krate,
        rewritten,
    )
}

/// The name of the object in the schema.
pub fn gql_typename(object_args: &Object, item_impl: &ItemImpl) -> (r: Result<String, Error>)
    requires
        item_impl.self_ty matches Type::Path(ty) ==> ty.path.wf(),
    ensures
        match r {
            Ok(name) => object_name(*object_args, *item_impl) == Some(name@),
            Err(error) => object_name(*object_args, *item_impl) is None && error@ == invalid_type(
                *item_impl,
            ),
        },
{
    match &item_impl.self_ty {
        Type::Path(ty) => match &object_args.name {
            Some(name) => Ok(name.clone()),
            None => Ok(ty.path.last()),
        },
        _ => Err(Error::new_spanned(item_impl.self_ty.print().copy(), "Invalid type")),
    }
}

/// A block that [`generate`] takes: it is well-formed and, where it is not
/// refused as a whole, expandable.
pub open spec fn is_ready(
    object_args: Object,
    block: ItemImpl,
    reserved: Option<Error>,
) -> bool {
    &&& block_wf(block)
    &&& object_name(object_args, block) is Some && reserved is None ==> is_expandable(block.items@)
}

fn check_items_wf(items: &Vec<ImplItem>) -> (r: bool)
    ensures
        r == (forall|i: int| 0 <= i < items@.len() ==> item_wf(#[trigger] items@[i])),
{
    let mut i: usize = 0;
    while i < items.len()
        invariant
            i <= items.len(),
            forall|j: int| 0 <= j < i ==> item_wf(#[trigger] items@[j]),
        decreases items.len() - i,
    {
        if let ImplItem::Method(m) = &items[i] {
            if !check_inputs(&m.sig.inputs, &m.args.arguments) {
                assert(!item_wf(items@[i as int]));
                return false;
            }
        }
        i += 1;
    }
    true
}

fn check_items(items: &Vec<ImplItem>) -> (r: bool)
    requires
        forall|i: int| 0 <= i < items@.len() ==> item_wf(#[trigger] items@[i]),
    ensures
        r == is_expandable(items@),
{
    let mut i: usize = 0;
    while i < items.len()
        invariant
            i <= items.len(),
            forall|j: int| 0 <= j < items@.len() ==> item_wf(#[trigger] items@[j]),
            all_accepted(items@, i as int),
            forall|j: int| 0 <= j < i ==> !item_broken(#[trigger] items@[j]),
        decreases items.len() - i,
    {
        assert(item_wf(items@[i as int]));
        if let ImplItem::Method(m) = &items[i] {
            if is_refused(m) {
                assert forall|j: int|
                    0 <= j < items@.len() && all_accepted(
                        items@,
                        j,
                    ) implies !item_broken(#[trigger] items@[j]) by {
                    if j > i {
                        assert(item_error(items@[i as int]) is None);
                    }
                }
                return true;
            }
            if !is_sound(m) {
                assert(item_broken(items@[i as int]));
                return false;
            }
        }
        i += 1;
    }
    true
}

/// Whether [`generate`] takes a block.
pub fn check_block(object_args: &Object, item_impl: &ItemImpl, reserved: &Option<Error>) -> (r:
    bool)
    ensures
        r == is_ready(*object_args, *item_impl, *reserved),
{
    let named = match &item_impl.self_ty {
        Type::Path(ty) => {
            if !ty.path.is_wf() {
                return false;
            }
            true
        },
        _ => false,
    };
    if !check_items_wf(&item_impl.items) {
        return false;
    }
    if named && reserved.is_none() {
        check_items(&item_impl.items)
    } else {
        true
    }
}

fn expand_item(krate: &str, item: &mut ImplItem, parts: &mut Parts) -> (r: Result<(), Error>)
    requires
        item_wf(*old(item)),
        !item_broken(*old(item)),
    ensures
        match r {
            Ok(_) => {
                &&& item_error(*old(item)) is None
                &&& item_rewritten(krate@, *old(item), *final(item))
                &&& final(parts)@ == with_item(krate@, *old(item), old(parts)@)
            },
            Err(error) => {
                &&& item_error(*old(item)) == Some(error@)
                &&& item_refused(*old(item), *final(item))
            },
        },
{
    match item {
        ImplItem::Method(m) => expand_method(krate, m, parts),
        ImplItem::Other(_) => Ok(()),
    }
}

/// Expands the items up to the first one that is refused.
pub fn expand_items(krate: &str, items: &mut Vec<ImplItem>, parts: &mut Parts) -> (r: Result<
    (),
    Error,
>)
    requires
        forall|i: int| 0 <= i < old(items)@.len() ==> item_wf(#[trigger] old(items)@[i]),
        is_expandable(old(items)@),
        old(parts)@ == no_parts(),
    ensures
        match r {
            Ok(_) => {
                &&& all_accepted(old(items)@, old(items)@.len() as int)
                &&& items_rewritten(
                    krate@,
                    old(items)@,
                    final(items)@,
                    old(items)@.len() as int,
                )
                &&& final(parts)@ == self::parts(krate@, old(items)@, old(items)@.len())
            },
            Err(error) => stopped(krate@, old(items)@, final(items)@, error@),
        },
{
    let ghost written = items@;
    let mut i: usize = 0;
    while i < items.len()
        invariant
            i <= items@.len(),
            written == old(items)@,
            forall|j: int| 0 <= j < written.len() ==> item_wf(#[trigger] written[j]),
            is_expandable(written),
            all_accepted(written, i as int),
            items_rewritten(krate@, written, items@, i as int),
            parts@ == self::parts(krate@, written, i as nat),
        decreases items.len() - i,
    {
        let ghost before = items@;
        assert(before[i as int] == written[i as int]);
        match expand_item(krate, &mut items[i], parts) {
            Ok(_) => {},
            Err(error) => {
                assert(items@.update(i as int, written[i as int]) =~= before);
                assert(stopped_at(krate@, written, items@, i as int, error@));
                return Err(error);
            },
        }
        i += 1;
    }
    Ok(())
}

/// Expands a block: rewrites its resolver methods in place and returns the
/// block with the impls that make it an object. `crate_name` is the name under
/// which the runtime crate is reached, and `reserved` the error if the name of
/// the object is one that may not be used.
///
/// A block whose type is no path is refused, then one whose name is reserved,
/// then one with a method that is refused.
pub fn generate(
    object_args: &Object,
    item_impl: &mut ItemImpl,
    crate_name: &str,
    reserved: Option<Error>,
) -> (r: Result<TokenStream, Error>)
    requires
        is_ready(*object_args, *old(item_impl), reserved),
    ensures
        same_block(*old(item_impl), *final(item_impl)),
        match r {
            Ok(_) => block_error(*object_args, *old(item_impl), reserved) is None,
            Err(error) => block_error(*object_args, *old(item_impl), reserved) == Some(error@),
        },
        match (object_name(*object_args, *old(item_impl)), reserved) {
            (None, _) => {
                &&& r matches Err(error)
                &&& error@ == invalid_type(*old(item_impl))
                &&& final(item_impl).items == old(item_impl).items
            },
            (Some(_), Some(verdict)) => {
                &&& r matches Err(error)
                &&& error == verdict
                &&& final(item_impl).items == old(item_impl).items
            },
            (Some(name), None) => match r {
                Ok(tokens) => {
                    &&& all_accepted(old(item_impl).items@, old(item_impl).items@.len() as int)
                    &&& items_rewritten(
                        crate_name@,
                        old(item_impl).items@,
                        final(item_impl).items@,
                        old(item_impl).items@.len() as int,
                    )
                    &&& tokens@ == expansion(
                        crate_name@,
                        name,
                        *object_args,
                        *old(item_impl),
                        *final(item_impl),
                    )
                },
                Err(error) => stopped(
                    crate_name@,
                    old(item_impl).items@,
                    final(item_impl).items@,
                    error@,
                ),
            },
        },
{
    let name = match gql_typename(object_args, item_impl) {
        Ok(name) => name,
        Err(error) => return Err(error),
    };
    if let Some(verdict) = reserved {
        return Err(verdict);
    }
    let mut parts_so_far = Parts::new();
    let ghost written = item_impl.items@;
    let result = expand_items(crate_name, &mut item_impl.items, &mut parts_so_far);
    if let Err(error) = result {
        proof {
            let k = choose|k: int| stopped_at(crate_name@, written, item_impl.items@, k, error@);
            lemma_first_item_error(written, k as nat, written.len());
        }
        return Err(error);
    }
    proof {
        lemma_first_item_error(written, written.len(), written.len());
    }
    let r = item_impl.print().stream(
        &type_impl(crate_name, name.as_str(), object_args, item_impl, &parts_so_far),
    ).stream(
        &object_impl(
            crate_name,
            name.as_str(),
            item_impl,
            &parts_so_far.resolvers,
            parts_so_far.finders,
        ),
    ).stream(&output_impl(crate_name, item_impl));
    Ok(r)
}

} // verus!
