//! What a block as a whole is made into: which code its items add, what stands in
//! the expansion, and which blocks are taken.

use vstd::prelude::*;

use crate::args::Object;
use crate::entity::{add_keys_code, create_type_code, find_code, joined, search_order, FinderView};
use crate::error::{Error, ErrorView};
use crate::field::{cache_code, resolver_code, schema_field_code};
use crate::method::{is_broken, method_error, method_params, method_wf, refused, rewritten};
use crate::object::{
    all_accepted, block_error, block_wf, expansion, invalid_type, is_expandable, is_ready,
    item_broken, item_error, item_refused, item_rewritten, item_wf, items_rewritten,
    lemma_first_item_error, object_impl_code, object_name, output_impl_code, parts, same_block,
    stopped, stopped_at, type_impl_code,
};
use crate::params::shown_name;
use crate::punctuated::segments_of;
use crate::syntax::{ImplItem, ItemImpl, Method, Type};
use crate::tokens::{code, flag, optional_string, string, TokenView};

use super::code::{law_dispatch_labels, law_registration_labels};
use super::lists::codes;
use super::template::{framed, labelled, lemma_flatten_push};
use super::law_every_lookup_is_tried;

verus! {

/// The item is a method that resolves a field.
pub open spec fn resolves_field(item: ImplItem) -> bool {
    match item {
        ImplItem::Method(m) => match (m.args.entity, m.args.field) {
            (Ok(None), Ok(Some(_))) => true,
            _ => false,
        },
        ImplItem::Other(_) => false,
    }
}

/// The item is a method that looks an entity up.
pub open spec fn finds_entity(item: ImplItem) -> bool {
    match item {
        ImplItem::Method(m) => match m.args.entity {
            Ok(Some(_)) => true,
            _ => false,
        },
        ImplItem::Other(_) => false,
    }
}

/// The branch of a field in the resolver of its object.
pub open spec fn branch(krate: Seq<char>, item: ImplItem) -> Seq<TokenView> {
    let m = item->Method_0;
    let field = m.args.field->Ok_0->Some_0;
    resolver_code(
        krate,
        shown_name(field.name, m.sig.ident.name@),
        field.guard,
        method_params(m),
        m.sig.ident.tokens@,
    )
}

/// The entry of a field in the schema.
pub open spec fn schema_entry(krate: Seq<char>, item: ImplItem) -> Seq<TokenView> {
    let m = item->Method_0;
    let field = m.args.field->Ok_0->Some_0;
    schema_field_code(
        krate,
        shown_name(field.name, m.sig.ident.name@),
        field,
        method_params(m),
        m.args.output->Ok_0.schema_type()@,
    )
}

/// The lookup of an entity.
pub open spec fn lookup(krate: Seq<char>, item: ImplItem) -> FinderView {
    let m = item->Method_0;
    FinderView {
        keys: method_params(m).len(),
        code: find_code(
            krate,
            m.args.output->Ok_0.schema_type()@,
            m.args.entity->Ok_0->Some_0.guard,
            method_params(m),
            m.sig.ident.tokens@,
        ),
    }
}

/// The registration of the keys of an entity.
pub open spec fn key_entry(krate: Seq<char>, item: ImplItem) -> Seq<TokenView> {
    let m = item->Method_0;
    let keys = method_params(m);
    add_keys_code(krate, m.args.output->Ok_0.schema_type()@, joined(keys, keys.len()))
}

/// The registration of the type of an entity.
pub open spec fn type_entry(krate: Seq<char>, item: ImplItem) -> Seq<TokenView> {
    create_type_code(krate, item->Method_0.args.output->Ok_0.schema_type()@)
}

/// Whatever stands in front of it, a field adds its own branch and its own schema
/// entry behind what is there, and nothing else.
pub proof fn law_each_field_adds_its_branch(krate: Seq<char>, items: Seq<ImplItem>, i: nat)
    requires
        i < items.len(),
        resolves_field(items[i as int]),
    ensures
        parts(krate, items, i + 1).resolvers == parts(krate, items, i).resolvers + branch(
            krate,
            items[i as int],
        ),
        parts(krate, items, i + 1).schema_fields == parts(krate, items, i).schema_fields
            + schema_entry(krate, items[i as int]),
        parts(krate, items, i + 1).finders == parts(krate, items, i).finders,
        parts(krate, items, i + 1).add_keys == parts(krate, items, i).add_keys,
        parts(krate, items, i + 1).create_types == parts(krate, items, i).create_types,
{
}

/// Whatever stands in front of it, an entity adds its own lookup and registers its
/// own keys and type behind what is there, and nothing else.
pub proof fn law_each_entity_adds_its_lookup(krate: Seq<char>, items: Seq<ImplItem>, i: nat)
    requires
        i < items.len(),
        finds_entity(items[i as int]),
    ensures
        parts(krate, items, i + 1).finders == parts(krate, items, i).finders.push(
            lookup(krate, items[i as int]),
        ),
        parts(krate, items, i + 1).add_keys == parts(krate, items, i).add_keys + key_entry(
            krate,
            items[i as int],
        ),
        parts(krate, items, i + 1).create_types == parts(krate, items, i).create_types
            + type_entry(krate, items[i as int]),
        parts(krate, items, i + 1).resolvers == parts(krate, items, i).resolvers,
        parts(krate, items, i + 1).schema_fields == parts(krate, items, i).schema_fields,
{
}

/// The fields among the first `n` items.
pub open spec fn fields(items: Seq<ImplItem>, n: nat) -> Seq<ImplItem> {
    items.take(n as int).filter(|item: ImplItem| resolves_field(item))
}

/// The entities among the first `n` items.
pub open spec fn entities(items: Seq<ImplItem>, n: nat) -> Seq<ImplItem> {
    items.take(n as int).filter(|item: ImplItem| finds_entity(item))
}

proof fn lemma_one_item_more(items: Seq<ImplItem>, n: nat)
    requires
        n < items.len(),
    ensures
        fields(items, n + 1) == if resolves_field(items[n as int]) {
            fields(items, n).push(items[n as int])
        } else {
            fields(items, n)
        },
        entities(items, n + 1) == if finds_entity(items[n as int]) {
            entities(items, n).push(items[n as int])
        } else {
            entities(items, n)
        },
{
    let less = items.take(n as int);
    assert(items.take(n as int + 1) =~= less.push(items[n as int]));
    less.lemma_filter_push(items[n as int], |item: ImplItem| resolves_field(item));
    less.lemma_filter_push(items[n as int], |item: ImplItem| finds_entity(item));
}

/// The resolver of an object has one branch for each field, and the schema one
/// entry for each field, in the order in which they are written.
pub proof fn law_every_field_is_resolved(krate: Seq<char>, items: Seq<ImplItem>, n: nat)
    requires
        n <= items.len(),
    ensures
        parts(krate, items, n).resolvers == fields(items, n).map_values(
            |item: ImplItem| branch(krate, item),
        ).flatten(),
        parts(krate, items, n).schema_fields == fields(items, n).map_values(
            |item: ImplItem| schema_entry(krate, item),
        ).flatten(),
    decreases n,
{
    let b = |item: ImplItem| branch(krate, item);
    let e = |item: ImplItem| schema_entry(krate, item);
    if n == 0 {
        assert(fields(items, 0).map_values(b) =~= Seq::empty());
        assert(fields(items, 0).map_values(e) =~= Seq::empty());
    } else {
        let m = (n - 1) as nat;
        law_every_field_is_resolved(krate, items, m);
        lemma_one_item_more(items, m);
        let less = fields(items, m);
        let item = items[m as int];
        if resolves_field(item) {
            assert(less.push(item).map_values(b) =~= less.map_values(b).push(b(item)));
            assert(less.push(item).map_values(e) =~= less.map_values(e).push(e(item)));
            lemma_flatten_push(less.map_values(b), b(item));
            lemma_flatten_push(less.map_values(e), e(item));
        }
    }
}

/// There is one lookup, one registration of keys and one of a type for each entity,
/// in the order in which they are written.
pub proof fn law_every_entity_is_found(krate: Seq<char>, items: Seq<ImplItem>, n: nat)
    requires
        n <= items.len(),
    ensures
        parts(krate, items, n).finders == entities(items, n).map_values(
            |item: ImplItem| lookup(krate, item),
        ),
        parts(krate, items, n).add_keys == entities(items, n).map_values(
            |item: ImplItem| key_entry(krate, item),
        ).flatten(),
        parts(krate, items, n).create_types == entities(items, n).map_values(
            |item: ImplItem| type_entry(krate, item),
        ).flatten(),
    decreases n,
{
    let l = |item: ImplItem| lookup(krate, item);
    let k = |item: ImplItem| key_entry(krate, item);
    let t = |item: ImplItem| type_entry(krate, item);
    if n == 0 {
        assert(entities(items, 0).map_values(l) =~= Seq::empty());
        assert(entities(items, 0).map_values(k) =~= Seq::empty());
        assert(entities(items, 0).map_values(t) =~= Seq::empty());
    } else {
        let m = (n - 1) as nat;
        law_every_entity_is_found(krate, items, m);
        lemma_one_item_more(items, m);
        let less = entities(items, m);
        let item = items[m as int];
        if finds_entity(item) {
            assert(less.push(item).map_values(l) =~= less.map_values(l).push(l(item)));
            assert(less.push(item).map_values(k) =~= less.map_values(k).push(k(item)));
            assert(less.push(item).map_values(t) =~= less.map_values(t).push(t(item)));
            lemma_flatten_push(less.map_values(k), k(item));
            lemma_flatten_push(less.map_values(t), t(item));
        }
    }
}

/// A branch begins by asking whether the field of its own name is meant: the name
/// that the attribute gives, or else that of the method as the schema shows it.
pub proof fn law_branches_ask_for_their_field(krate: Seq<char>, item: ImplItem)
    requires
        resolves_field(item),
    ensures
        branch(krate, item).len() > 2,
        branch(krate, item)[0] == TokenView::Code("if ctx.name.as_str() =="@),
        branch(krate, item)[1] == TokenView::Str(
            shown_name(
                item->Method_0.args.field->Ok_0->Some_0.name,
                item->Method_0.sig.ident.name@,
            ),
        ),
{
}

/// Somewhere in the code stands `piece`.
pub open spec fn stands(tokens: Seq<TokenView>, piece: Seq<TokenView>) -> bool {
    exists|before: Seq<TokenView>, after: Seq<TokenView>| #[trigger]
        framed(tokens, before, piece, after)
}

proof fn lemma_stands_within(
    before: Seq<TokenView>,
    tokens: Seq<TokenView>,
    after: Seq<TokenView>,
    piece: Seq<TokenView>,
)
    requires
        stands(tokens, piece),
    ensures
        stands(before + tokens + after, piece),
{
    let (b, a) = choose|b: Seq<TokenView>, a: Seq<TokenView>| #[trigger]
        framed(tokens, b, piece, a);
    assert(before + tokens + after =~= (before + b) + piece + (a + after));
    assert(framed(before + tokens + after, before + b, piece, a + after));
}

proof fn lemma_stands_in_what_stands(
    tokens: Seq<TokenView>,
    middle: Seq<TokenView>,
    piece: Seq<TokenView>,
)
    requires
        stands(tokens, middle),
        stands(middle, piece),
    ensures
        stands(tokens, piece),
{
    let (b, a) = choose|b: Seq<TokenView>, a: Seq<TokenView>| #[trigger]
        framed(tokens, b, middle, a);
    lemma_stands_within(b, middle, a, piece);
}

proof fn lemma_value_stands(tokens: Seq<TokenView>, label: Seq<char>, value: Seq<TokenView>)
    requires
        labelled(tokens, label, value),
    ensures
        stands(tokens, value),
{
    let marked = seq![TokenView::Code(label)] + value;
    let (b, a) = choose|b: Seq<TokenView>, a: Seq<TokenView>| #[trigger]
        framed(tokens, b, marked, a);
    assert(tokens =~= (b + seq![TokenView::Code(label)]) + value + a);
    assert(framed(tokens, b + seq![TokenView::Code(label)], value, a));
}

proof fn lemma_piece_stands(pieces: Seq<Seq<TokenView>>, i: int)
    requires
        0 <= i < pieces.len(),
    ensures
        stands(pieces.flatten(), pieces[i]),
    decreases pieces.len(),
{
    let less = pieces.drop_last();
    assert(less.push(pieces.last()) =~= pieces);
    lemma_flatten_push(less, pieces.last());
    if i == pieces.len() - 1 {
        assert(pieces.flatten() =~= less.flatten() + pieces[i] + Seq::empty());
        assert(framed(pieces.flatten(), less.flatten(), pieces[i], Seq::empty()));
    } else {
        lemma_piece_stands(less, i);
        lemma_stands_within(Seq::empty(), less.flatten(), pieces.last(), pieces[i]);
        assert(Seq::<TokenView>::empty() + less.flatten() + pieces.last() =~= pieces.flatten());
    }
}

/// An expansion is the rewritten block, the impl that registers the object, the one
/// that dispatches, and the one that makes it a value. The code in them is that of
/// all items as they were written; the headers are those of the rewritten block.
pub proof fn law_an_expansion_is_a_block_and_three_impls(
    krate: Seq<char>,
    name: Seq<char>,
    object_args: Object,
    written: ItemImpl,
    rewritten: ItemImpl,
)
    ensures
        ({
            let all = parts(krate, written.items@, written.items@.len());
            let pieces = seq![
                rewritten.printed(),
                type_impl_code(krate, name, object_args, rewritten, all),
                object_impl_code(krate, name, rewritten, all.resolvers, all.finders),
                output_impl_code(krate, rewritten),
            ];
            expansion(krate, name, object_args, written, rewritten) == pieces.flatten()
        }),
        stands(expansion(krate, name, object_args, written, rewritten), rewritten.printed()),
        stands(
            expansion(krate, name, object_args, written, rewritten),
            type_impl_code(
                krate,
                name,
                object_args,
                rewritten,
                parts(krate, written.items@, written.items@.len()),
            ),
        ),
        stands(
            expansion(krate, name, object_args, written, rewritten),
            object_impl_code(
                krate,
                name,
                rewritten,
                parts(krate, written.items@, written.items@.len()).resolvers,
                parts(krate, written.items@, written.items@.len()).finders,
            ),
        ),
        stands(
            expansion(krate, name, object_args, written, rewritten),
            output_impl_code(krate, rewritten),
        ),
{
    let all = parts(krate, written.items@, written.items@.len());
    let one = rewritten.printed();
    let two = type_impl_code(krate, name, object_args, rewritten, all);
    let three = object_impl_code(krate, name, rewritten, all.resolvers, all.finders);
    let four = output_impl_code(krate, rewritten);
    let empty = Seq::<Seq<TokenView>>::empty();
    lemma_flatten_push(empty, one);
    lemma_flatten_push(empty.push(one), two);
    lemma_flatten_push(empty.push(one).push(two), three);
    lemma_flatten_push(empty.push(one).push(two).push(three), four);
    let pieces = seq![one, two, three, four];
    assert(pieces =~= empty.push(one).push(two).push(three).push(four));
    assert(Seq::<TokenView>::empty() + one =~= one);
    lemma_piece_stands(pieces, 0);
    lemma_piece_stands(pieces, 1);
    lemma_piece_stands(pieces, 2);
    lemma_piece_stands(pieces, 3);
}

/// Of every field of a block, the branch and the schema entry stand in the
/// expansion.
pub proof fn law_every_field_stands_in_the_expansion(
    krate: Seq<char>,
    name: Seq<char>,
    object_args: Object,
    written: ItemImpl,
    rewritten: ItemImpl,
    i: int,
)
    requires
        0 <= i < written.items@.len(),
        resolves_field(written.items@[i]),
    ensures
        stands(
            expansion(krate, name, object_args, written, rewritten),
            branch(krate, written.items@[i]),
        ),
        stands(
            expansion(krate, name, object_args, written, rewritten),
            schema_entry(krate, written.items@[i]),
        ),
{
    let items = written.items@;
    let n = items.len();
    let all = parts(krate, items, n);
    let whole = expansion(krate, name, object_args, written, rewritten);
    let b = |item: ImplItem| branch(krate, item);
    let e = |item: ImplItem| schema_entry(krate, item);
    law_every_field_is_resolved(krate, items, n);
    assert(items.take(n as int) =~= items);
    items.lemma_filter_contains(|item: ImplItem| resolves_field(item), i);
    assert(fields(items, n).contains(items[i]));
    let k = fields(items, n).index_of(items[i]);
    lemma_piece_stands(fields(items, n).map_values(b), k);
    lemma_piece_stands(fields(items, n).map_values(e), k);
    assert(stands(all.resolvers, branch(krate, items[i])));
    assert(stands(all.schema_fields, schema_entry(krate, items[i])));
    law_an_expansion_is_a_block_and_three_impls(krate, name, object_args, written, rewritten);
    let dispatch = object_impl_code(krate, name, rewritten, all.resolvers, all.finders);
    law_dispatch_labels(krate, name, rewritten, all.resolvers, all.finders);
    lemma_value_stands(dispatch, "::serde_json::Value> {"@, all.resolvers);
    lemma_stands_in_what_stands(whole, dispatch, all.resolvers);
    lemma_stands_in_what_stands(whole, all.resolvers, branch(krate, items[i]));
    let registration = type_impl_code(krate, name, object_args, rewritten, all);
    law_registration_labels(krate, name, object_args, rewritten, all);
    lemma_value_stands(
        registration,
        ", fields: { let mut fields = std::collections::HashMap::new();"@,
        all.schema_fields,
    );
    lemma_stands_in_what_stands(whole, registration, all.schema_fields);
    lemma_stands_in_what_stands(whole, all.schema_fields, schema_entry(krate, items[i]));
}

/// Of every entity of a block, the lookup stands in the expansion, however many
/// keys it and the others need.
pub proof fn law_every_entity_stands_in_the_expansion(
    krate: Seq<char>,
    name: Seq<char>,
    object_args: Object,
    written: ItemImpl,
    rewritten: ItemImpl,
    i: int,
)
    requires
        0 <= i < written.items@.len(),
        finds_entity(written.items@[i]),
    ensures
        stands(
            expansion(krate, name, object_args, written, rewritten),
            lookup(krate, written.items@[i]).code,
        ),
{
    let items = written.items@;
    let n = items.len();
    let all = parts(krate, items, n);
    let whole = expansion(krate, name, object_args, written, rewritten);
    law_every_entity_is_found(krate, items, n);
    assert(items.take(n as int) =~= items);
    items.lemma_filter_contains(|item: ImplItem| finds_entity(item), i);
    assert(entities(items, n).contains(items[i]));
    let k = entities(items, n).index_of(items[i]);
    assert(all.finders[k] == lookup(krate, items[i]));
    let order = search_order(all.finders);
    law_every_lookup_is_tried(all.finders);
    all.finders.to_multiset_ensures();
    order.to_multiset_ensures();
    assert(all.finders.contains(all.finders[k]));
    assert(order.to_multiset().count(all.finders[k]) > 0);
    assert(order.contains(all.finders[k]));
    let j = order.index_of(all.finders[k]);
    lemma_piece_stands(codes(order), j);
    law_an_expansion_is_a_block_and_three_impls(krate, name, object_args, written, rewritten);
    let dispatch = object_impl_code(krate, name, rewritten, all.resolvers, all.finders);
    law_dispatch_labels(krate, name, rewritten, all.resolvers, all.finders);
    lemma_value_stands(
        dispatch,
        "::QueryError::TypeNameNotExists.into_error(pos)); };"@,
        codes(order).flatten(),
    );
    lemma_stands_in_what_stands(whole, dispatch, codes(order).flatten());
    lemma_stands_in_what_stands(whole, codes(order).flatten(), lookup(krate, items[i]).code);
}

proof fn lemma_same_end(a: Seq<TokenView>, b: Seq<TokenView>, more: Seq<TokenView>)
    requires
        a != b,
    ensures
        a + more != b + more,
{
    if a + more == b + more {
        assert((a + more).len() == (b + more).len());
        assert(a =~= (a + more).take(a.len() as int));
        assert(b =~= (b + more).take(a.len() as int));
    }
}

proof fn lemma_same_beginning(more: Seq<TokenView>, a: Seq<TokenView>, b: Seq<TokenView>)
    requires
        a != b,
    ensures
        more + a != more + b,
{
    if more + a == more + b {
        assert(a =~= (more + a).skip(more.len() as int));
        assert(b =~= (more + b).skip(more.len() as int));
    }
}

/// Two attributes that differ only in whether the object extends another one give
/// different expansions of the same block, and what follows `extends:` is `true` in
/// the one and `false` in the other.
pub proof fn law_extending_shows_in_the_expansion(
    krate: Seq<char>,
    name: Seq<char>,
    object_args: Object,
    other_args: Object,
    written: ItemImpl,
    rewritten: ItemImpl,
)
    requires
        other_args == (Object { extends: !object_args.extends, ..object_args }),
    ensures
        expansion(krate, name, object_args, written, rewritten) != expansion(
            krate,
            name,
            other_args,
            written,
            rewritten,
        ),
{
    let all = parts(krate, written.items@, written.items@.len());
    let ext = code(", extends:"@);
    let a = type_impl_code(krate, name, object_args, rewritten, all);
    let b = type_impl_code(krate, name, other_args, rewritten, all);
    let front = code("impl"@) + rewritten.generics@ + code(krate) + code("::Type for"@)
        + rewritten.self_ty.printed() + rewritten.where_clause@ + code(
        "{ fn type_name() -> std::borrow::Cow<'static, str> { std::borrow::Cow::Borrowed("@,
    ) + string(name) + code(") } fn create_type_info(registry: &mut"@) + code(krate) + code(
        "::registry::Registry) -> String { let ty = registry.create_type::<Self, _>(|registry|"@,
    ) + code(krate) + code("::registry::Type::Object { name:"@) + string(name) + code(
        ".to_string()"@,
    ) + code(", description:"@) + optional_string(object_args.desc) + code(
        ", fields: { let mut fields = std::collections::HashMap::new();"@,
    ) + all.schema_fields + code("fields }"@) + code(", cache_control:"@) + cache_code(
        krate,
        object_args.cache_control,
    ) + ext;
    let keys = code(", keys: None, });"@);
    let end = code("ty } }"@);
    let x = flag(object_args.extends);
    let y = flag(other_args.extends);
    assert(x[0] != y[0]) by {
        reveal_strlit("true");
        reveal_strlit("false");
        assert("true"@.len() != "false"@.len());
    }
    lemma_same_beginning(front, x, y);
    lemma_same_end(front + x, front + y, keys);
    lemma_same_end(front + x + keys, front + y + keys, all.create_types);
    lemma_same_end(
        front + x + keys + all.create_types,
        front + y + keys + all.create_types,
        all.add_keys,
    );
    lemma_same_end(
        front + x + keys + all.create_types + all.add_keys,
        front + y + keys + all.create_types + all.add_keys,
        end,
    );
    assert(a != b);
    let block = rewritten.printed();
    let dispatch = object_impl_code(krate, name, rewritten, all.resolvers, all.finders);
    let value = output_impl_code(krate, rewritten);
    lemma_same_beginning(block, a, b);
    lemma_same_end(block + a, block + b, dispatch);
    lemma_same_end(block + a + dispatch, block + b + dispatch, value);
}

/// The name of the object is the one that its attribute gives, or else the
/// identifier of the last segment of the type. A type that is no path has none, and
/// is refused as it is printed.
pub proof fn law_which_name_an_object_has(object_args: Object, block: ItemImpl)
    ensures
        block.self_ty matches Type::Path(ty) ==> {
            &&& object_args.name matches Some(name) ==> object_name(object_args, block) == Some(
                name@,
            )
            &&& object_args.name is None ==> object_name(object_args, block) == Some(
                segments_of(ty.path.segments).last().ident@,
            )
        },
        !(block.self_ty is Path) ==> object_name(object_args, block) is None,
        invalid_type(block).tokens == block.self_ty.printed(),
        invalid_type(block).message == "Invalid type"@,
{
}

/// A block whose type is no path is refused, whatever else is wrong with it; then
/// one whose name is reserved, with the verdict on the name; then one with an item
/// that is refused, with the error of the first such item. No other is refused.
pub proof fn law_why_a_block_is_refused(
    object_args: Object,
    block: ItemImpl,
    reserved: Option<Error>,
    k: int,
)
    requires
        0 <= k <= block.items@.len(),
        forall|i: int| 0 <= i < k ==> item_error(#[trigger] block.items@[i]) is None,
        k < block.items@.len() ==> item_error(block.items@[k]) is Some,
    ensures
        !(block.self_ty is Path) ==> block_error(object_args, block, reserved) == Some(
            ErrorView { tokens: block.self_ty.printed(), message: "Invalid type"@ },
        ),
        block.self_ty is Path ==> (reserved matches Some(verdict) ==> block_error(
            object_args,
            block,
            reserved,
        ) == Some(ErrorView { tokens: verdict.tokens@, message: verdict.message@ })),
        block.self_ty is Path && reserved is None && k < block.items@.len() ==> block_error(
            object_args,
            block,
            reserved,
        ) == item_error(block.items@[k]),
        block.self_ty is Path && reserved is None && k == block.items@.len() ==> block_error(
            object_args,
            block,
            reserved,
        ) is None,
{
    lemma_first_item_error(block.items@, k as nat, block.items@.len());
}

/// A block keeps all but its items.
pub proof fn law_headers_are_kept(a: ItemImpl, b: ItemImpl)
    requires
        same_block(a, b),
    ensures
        b == (ItemImpl { items: b.items, ..a }),
{
}

/// The items of an expanded block stand where they stood: each method that is
/// expanded is a method again, and any other item, and one that was not reached, is
/// as it was.
pub proof fn law_items_keep_their_places(
    krate: Seq<char>,
    a: Seq<ImplItem>,
    b: Seq<ImplItem>,
    n: int,
    i: int,
)
    requires
        items_rewritten(krate, a, b, n),
        0 <= i < a.len(),
    ensures
        b.len() == a.len(),
        i >= n ==> b[i] == a[i],
        a[i] is Other ==> b[i] == a[i],
        i < n && a[i] is Method ==> b[i] is Method && rewritten(
            krate,
            a[i]->Method_0,
            b[i]->Method_0,
        ),
{
    if i < n {
        assert(item_rewritten(krate, a[i], b[i]));
    }
}

/// Where an item is refused, it is a method; it is left as refusing it leaves it,
/// and no item is lost.
pub proof fn law_the_refused_item_is_a_method(
    krate: Seq<char>,
    a: Seq<ImplItem>,
    b: Seq<ImplItem>,
    error: ErrorView,
)
    requires
        stopped(krate, a, b, error),
    ensures
        b.len() == a.len(),
        exists|k: int|
            0 <= k < a.len() && (#[trigger] a[k]) is Method && b[k] is Method && refused(
                a[k]->Method_0,
                b[k]->Method_0,
            ) && method_error(a[k]->Method_0) == Some(error),
{
    let k = choose|k: int| stopped_at(krate, a, b, k, error);
    assert(item_refused(a[k], b[k]));
    assert(a[k] is Method);
}

/// An item is refused exactly where it is a method that is, and with the same
/// error; and it is broken exactly where it is a method that is.
pub proof fn law_only_methods_are_refused(item: ImplItem)
    ensures
        item is Other ==> item_error(item) is None && !item_broken(item) && item_wf(item),
        item matches ImplItem::Method(m) ==> item_error(item) == method_error(m) && item_broken(
            item,
        ) == is_broken(m) && item_wf(item) == method_wf(m),
{
}

/// Items are expandable exactly where none of them is broken that has no refused
/// item in front of it: what stands behind a refused item does not count.
pub proof fn law_which_items_are_expandable(items: Seq<ImplItem>, k: int)
    requires
        0 <= k < items.len(),
        forall|i: int| 0 <= i < k ==> item_error(#[trigger] items[i]) is None,
    ensures
        item_broken(items[k]) ==> !is_expandable(items),
        item_error(items[k]) is Some && (forall|i: int|
            0 <= i < k ==> !item_broken(#[trigger] items[i])) ==> is_expandable(items),
        k == items.len() - 1 && (forall|i: int|
            0 <= i <= k ==> !item_broken(#[trigger] items[i])) ==> is_expandable(items),
{
    assert(all_accepted(items, k));
    if item_error(items[k]) is Some && (forall|i: int|
        0 <= i < k ==> !item_broken(#[trigger] items[i])) {
        assert forall|j: int| 0 <= j < items.len() && all_accepted(items, j) implies !item_broken(
            #[trigger] items[j],
        ) by {
            if j > k {
                assert(item_error(items[k]) is None);
            }
        }
    }
}

/// A block is taken exactly where it is well-formed and, unless its type is no path
/// or its name is reserved, its items are expandable.
pub proof fn law_which_blocks_are_taken(
    object_args: Object,
    block: ItemImpl,
    reserved: Option<Error>,
)
    ensures
        is_ready(object_args, block, reserved) ==> block_wf(block),
        block_wf(block) && (reserved is Some || !(block.self_ty is Path)) ==> is_ready(
            object_args,
            block,
            reserved,
        ),
        block_wf(block) && reserved is None && block.self_ty is Path ==> (is_ready(
            object_args,
            block,
            reserved,
        ) <==> is_expandable(block.items@)),
{
}

/// A block is well-formed exactly where its type, if it is a path, has a segment,
/// and all its methods are well-formed.
pub proof fn law_which_blocks_are_well_formed(block: ItemImpl, i: int)
    requires
        0 <= i < block.items@.len(),
    ensures
        block_wf(block) && block.self_ty is Path ==> segments_of(
            block.self_ty->Path_0.path.segments,
        ).len() > 0,
        block_wf(block) ==> item_wf(block.items@[i]),
        (block.self_ty is Path ==> segments_of(block.self_ty->Path_0.path.segments).len() > 0) && (
        forall|j: int| 0 <= j < block.items@.len() ==> item_wf(#[trigger] block.items@[j]))
            ==> block_wf(block),
{
}

} // verus!
