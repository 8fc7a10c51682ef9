//! What holds of every expansion.

use vstd::prelude::*;

pub mod blocks;
pub mod code;
pub mod lists;
pub mod parameters;
pub mod rewriting;
pub mod syntax;
pub mod template;
pub mod values;

use syn::punctuated::Punctuated;
use syn::token::Comma;

use crate::args::{Argument, Object};
use crate::entity::{joined, ranked, search_order, FinderView};
use crate::error::{Error, ErrorView};
use crate::method::{
    first_named, is_broken, is_entity, is_field, method_error, no_parts, rewritten, with_method,
    without_first, PartsView,
};
use crate::object::{
    all_accepted, expansion, is_expandable, item_broken, item_error, item_rewritten,
    items_rewritten, parts, same_block, stopped, stopped_at,
};
use crate::params::{
    accepted, has_context, input_error, inputs_rewritten, is_argument, is_context_param,
    params, referred_path, refers_to_path, stripped, ParamView,
};
use crate::punctuated::inputs_of;
use crate::syntax::{printed_inputs, printed_items, Attribute, FnArg, ImplItem, ItemImpl, Method};

verus! {

/// A parameter list is read up to the first parameter that is refused: no
/// parameter before it has an error, and it has one. So a list is accepted
/// exactly where no parameter of it has an error.
pub proof fn law_first_refused_parameter_decides(
    inputs: Seq<FnArg>,
    arguments: Seq<Result<Argument, Error>>,
    n: nat,
)
    ensures
        accepted(inputs, arguments, n) <= n,
        forall|i: int|
            0 <= i < accepted(inputs, arguments, n) ==> #[trigger] input_error(
                inputs,
                arguments,
                i,
            ) is None,
        accepted(inputs, arguments, n) < n ==> input_error(
            inputs,
            arguments,
            accepted(inputs, arguments, n) as int,
        ) is Some,
    decreases n,
{
    if n > 0 {
        law_first_refused_parameter_decides(inputs, arguments, (n - 1) as nat);
    }
}

/// What an expanded resolver has at a position of its parameter list, in terms
/// of the list as it was written.
pub(crate) proof fn lemma_rewritten_input(
    krate: Seq<char>,
    a: Punctuated<FnArg, Comma>,
    b: Punctuated<FnArg, Comma>,
    i: int,
)
    requires
        inputs_of(a).len() > 0,
        inputs_rewritten(krate, a, b),
        0 <= i < inputs_of(b).len(),
    ensures
        has_context(inputs_of(a)) ==> {
            &&& inputs_of(b).len() == inputs_of(a).len()
            &&& if is_argument(inputs_of(a)[i]) {
                stripped(inputs_of(a)[i], inputs_of(b)[i])
            } else {
                inputs_of(b)[i] == inputs_of(a)[i]
            }
        },
        !has_context(inputs_of(a)) ==> {
            let j = if i == 0 {
                0
            } else {
                i - 1
            };
            &&& inputs_of(b).len() == inputs_of(a).len() + 1
            &&& if i == 1 {
                is_context_param(krate, inputs_of(b)[i])
            } else if is_argument(inputs_of(a)[j]) {
                stripped(inputs_of(a)[j], inputs_of(b)[i])
            } else {
                inputs_of(b)[i] == inputs_of(a)[j]
            }
        },
{
    let from = inputs_of(a);
    let to = inputs_of(b);
    if !has_context(from) && i != 1 {
        let j = if i == 0 {
            0
        } else {
            i - 1
        };
        assert(to.remove(1)[j] == to[i]);
    }
}

/// An expanded resolver takes the receiver first and the context second.
pub proof fn law_context_stands_second(krate: Seq<char>, a: Method, b: Method)
    requires
        is_entity(a) || is_field(a),
        method_error(a) is None,
        !is_broken(a),
        rewritten(krate, a, b),
    ensures
        inputs_of(b.sig.inputs).len() >= 2,
        inputs_of(b.sig.inputs)[0] is Receiver,
        refers_to_path(inputs_of(b.sig.inputs)[1]),
        referred_path(inputs_of(b.sig.inputs)[1]).last_ident() == "Context"@,
{
    let from = inputs_of(a.sig.inputs);
    law_first_refused_parameter_decides(from, a.args.arguments@, from.len());
    assert(input_error(from, a.args.arguments@, 0) is None);
    lemma_rewritten_input(krate, a.sig.inputs, b.sig.inputs, 0);
    lemma_rewritten_input(krate, a.sig.inputs, b.sig.inputs, 1);
    if has_context(from) {
        assert(input_error(from, a.args.arguments@, 1) is None);
    }
}

/// No argument of an expanded resolver carries an attribute.
pub proof fn law_arguments_carry_no_attributes(krate: Seq<char>, a: Method, b: Method, i: int)
    requires
        is_entity(a) || is_field(a),
        method_error(a) is None,
        !is_broken(a),
        rewritten(krate, a, b),
        0 <= i < inputs_of(b.sig.inputs).len(),
        is_argument(inputs_of(b.sig.inputs)[i]),
    ensures
        inputs_of(b.sig.inputs)[i]->Typed_0.attrs@.len() == 0,
{
    lemma_rewritten_input(krate, a.sig.inputs, b.sig.inputs, i);
}

/// The parameter list of an expanded resolver is one that is accepted, whatever
/// is read off its arguments without an error; and it names the context, so
/// that no second one would be put in.
pub proof fn law_expanded_inputs_are_accepted(
    krate: Seq<char>,
    a: Method,
    b: Method,
    arguments: Seq<Result<Argument, Error>>,
)
    requires
        is_entity(a) || is_field(a),
        method_error(a) is None,
        !is_broken(a),
        rewritten(krate, a, b),
        arguments.len() == inputs_of(b.sig.inputs).len(),
        forall|i: int| 0 <= i < arguments.len() ==> #[trigger] arguments[i] is Ok,
    ensures
        accepted(inputs_of(b.sig.inputs), arguments, arguments.len()) == arguments.len(),
        has_context(inputs_of(b.sig.inputs)),
{
    let from = inputs_of(a.sig.inputs);
    let to = inputs_of(b.sig.inputs);
    law_context_stands_second(krate, a, b);
    law_first_refused_parameter_decides(from, a.args.arguments@, from.len());
    assert forall|i: int| 0 <= i < to.len() implies #[trigger] input_error(
        to,
        arguments,
        i,
    ) is None by {
        assert(arguments[i] is Ok);
        lemma_rewritten_input(krate, a.sig.inputs, b.sig.inputs, i);
        let j = if has_context(from) || i == 0 {
            i
        } else {
            i - 1
        };
        assert(input_error(from, a.args.arguments@, j) is None);
    }
    law_first_refused_parameter_decides(to, arguments, to.len());
}

/// A method that reads as an entity is one, whatever its `field` attribute says:
/// it adds a lookup and no field.
pub proof fn law_entity_is_no_field(krate: Seq<char>, m: Method, parts: PartsView)
    requires
        is_entity(m),
    ensures
        !is_field(m),
        with_method(krate, m, parts).resolvers == parts.resolvers,
        with_method(krate, m, parts).schema_fields == parts.schema_fields,
        with_method(krate, m, parts).finders.len() == parts.finders.len() + 1,
{
}

/// Expanding a method takes away the first attribute of its name and nothing
/// else; where there is none, it takes away nothing.
pub proof fn law_first_attribute_goes(attrs: Seq<Attribute>, name: Seq<char>)
    ensures
        ({
            let k = first_named(attrs, name, 0) as int;
            &&& 0 <= k <= attrs.len()
            &&& forall|i: int| 0 <= i < k ==> !(#[trigger] attrs[i]).path.names(name)
            &&& k < attrs.len() ==> attrs[k].path.names(name) && without_first(attrs, name)
                == attrs.take(k) + attrs.skip(k + 1)
            &&& k == attrs.len() ==> without_first(attrs, name) == attrs
        }),
{
    lemma_first_named(attrs, name, 0);
    let k = first_named(attrs, name, 0) as int;
    if k < attrs.len() {
        assert(attrs.remove(k) =~= attrs.take(k) + attrs.skip(k + 1));
    }
}

proof fn lemma_first_named(attrs: Seq<Attribute>, name: Seq<char>, i: nat)
    requires
        i <= attrs.len(),
    ensures
        i <= first_named(attrs, name, i) <= attrs.len(),
        forall|j: int|
            i <= j < first_named(attrs, name, i) ==> !(#[trigger] attrs[j]).path.names(name),
        first_named(attrs, name, i) < attrs.len() ==> attrs[first_named(
            attrs,
            name,
            i,
        ) as int].path.names(name),
    decreases attrs.len() - i,
{
    if i < attrs.len() {
        lemma_first_named(attrs, name, i + 1);
    }
}

/// The order is one in which no lookup stands before one with more keys.
pub open spec fn descending(finders: Seq<FinderView>) -> bool {
    forall|i: int, j: int| 0 <= i < j < finders.len() ==> finders[i].keys >= finders[j].keys
}

/// The lookups that need so many keys, in order.
pub open spec fn with_keys(finders: Seq<FinderView>, keys: nat) -> Seq<FinderView> {
    finders.filter(|f: FinderView| f.keys == keys)
}

proof fn lemma_ranked(finders: Seq<FinderView>, f: FinderView)
    ensures
        ranked(finders, f).len() == finders.len() + 1,
        ranked(finders, f).to_multiset() == finders.to_multiset().insert(f),
        descending(finders) ==> descending(ranked(finders, f)),
        forall|g: FinderView| #[trigger]
            ranked(finders, f).contains(g) ==> g == f || finders.contains(g),
    decreases finders.len(),
{
    broadcast use vstd::seq_lib::group_to_multiset_ensures;

    let all = ranked(finders, f);
    if finders.len() == 0 || finders.last().keys >= f.keys {
        assert forall|g: FinderView| #[trigger] all.contains(g) implies g == f
            || finders.contains(g) by {
            let i = choose|i: int| 0 <= i < all.len() && all[i] == g;
            if i < finders.len() {
                assert(finders[i] == g);
            }
        }
    } else {
        let head = finders.drop_last();
        lemma_ranked(head, f);
        assert(finders =~= head.push(finders.last()));
        assert(all.to_multiset() =~= finders.to_multiset().insert(f));
        assert forall|g: FinderView| #[trigger] all.contains(g) implies g == f
            || finders.contains(g) by {
            let i = choose|i: int| 0 <= i < all.len() && all[i] == g;
            if i < all.len() - 1 {
                assert(ranked(head, f)[i] == g);
                assert(ranked(head, f).contains(g));
                if g != f {
                    let j = choose|j: int| 0 <= j < head.len() && head[j] == g;
                    assert(finders[j] == g);
                }
            } else {
                assert(finders[finders.len() - 1] == g);
            }
        }
        if descending(finders) {
            assert(descending(head));
            assert forall|i: int, j: int| 0 <= i < j < all.len() implies all[i].keys
                >= all[j].keys by {
                if j == all.len() - 1 {
                    let g = ranked(head, f)[i];
                    assert(ranked(head, f).contains(g));
                    if g != f {
                        let k = choose|k: int| 0 <= k < head.len() && head[k] == g;
                        assert(finders[k].keys >= finders[finders.len() - 1].keys);
                    }
                }
            }
        }
    }
}

proof fn lemma_filter_push(s: Seq<FinderView>, f: FinderView, keys: nat)
    ensures
        with_keys(s.push(f), keys) == if f.keys == keys {
            with_keys(s, keys).push(f)
        } else {
            with_keys(s, keys)
        },
{
    reveal(Seq::filter);
    assert(s.push(f).drop_last() =~= s);
}

proof fn lemma_ranked_is_stable(finders: Seq<FinderView>, f: FinderView, keys: nat)
    ensures
        with_keys(ranked(finders, f), keys) == with_keys(finders.push(f), keys),
    decreases finders.len(),
{
    if finders.len() > 0 && finders.last().keys < f.keys {
        let head = finders.drop_last();
        let last = finders.last();
        lemma_ranked_is_stable(head, f, keys);
        assert(finders =~= head.push(last));
        lemma_filter_push(ranked(head, f), last, keys);
        lemma_filter_push(head, f, keys);
        lemma_filter_push(head, last, keys);
        lemma_filter_push(finders, f, keys);
    }
}

/// Lookups are tried from the most keys to the fewest.
pub proof fn law_most_keys_first(finders: Seq<FinderView>)
    ensures
        descending(search_order(finders)),
    decreases finders.len(),
{
    if finders.len() > 0 {
        law_most_keys_first(finders.drop_last());
        lemma_ranked(search_order(finders.drop_last()), finders.last());
    }
}

/// Every lookup is tried, and as often as it was written.
pub proof fn law_every_lookup_is_tried(finders: Seq<FinderView>)
    ensures
        search_order(finders).to_multiset() == finders.to_multiset(),
        search_order(finders).len() == finders.len(),
    decreases finders.len(),
{
    broadcast use vstd::seq_lib::group_to_multiset_ensures;

    if finders.len() > 0 {
        law_every_lookup_is_tried(finders.drop_last());
        lemma_ranked(search_order(finders.drop_last()), finders.last());
        assert(finders =~= finders.drop_last().push(finders.last()));
    }
}

/// Lookups that need as many keys are tried in the order in which they were
/// written.
pub proof fn law_ties_keep_their_order(finders: Seq<FinderView>, keys: nat)
    ensures
        with_keys(search_order(finders), keys) == with_keys(finders, keys),
    decreases finders.len(),
{
    if finders.len() > 0 {
        let head = finders.drop_last();
        let last = finders.last();
        law_ties_keep_their_order(head, keys);
        lemma_ranked_is_stable(search_order(head), last, keys);
        lemma_filter_push(search_order(head), last, keys);
        lemma_filter_push(head, last, keys);
        assert(finders =~= head.push(last));
    }
}

/// The names of the first `n` keys with a space between any two.
pub open spec fn spaced(ps: Seq<ParamView>, n: nat) -> Seq<char>
    decreases n,
{
    if n == 0 {
        Seq::empty()
    } else if n == 1 {
        ps[0].name
    } else {
        spaced(ps, (n - 1) as nat) + " "@ + ps[n - 1].name
    }
}

proof fn lemma_keys_are_spaced(ps: Seq<ParamView>, n: nat)
    requires
        0 < n <= ps.len(),
        ps[0].name.len() > 0,
    ensures
        joined(ps, n) == spaced(ps, n),
        joined(ps, n).len() > 0,
    decreases n,
{
    if n > 1 {
        lemma_keys_are_spaced(ps, (n - 1) as nat);
    } else {
        assert(joined(ps, 0).len() == 0);
    }
}

/// Keys are registered by their names with one space between any two, unless
/// the first of several names is empty.
pub proof fn law_keys_are_spaced(ps: Seq<ParamView>)
    requires
        ps.len() <= 1 || ps[0].name.len() > 0,
    ensures
        joined(ps, ps.len()) == spaced(ps, ps.len()),
{
    if ps.len() > 1 {
        lemma_keys_are_spaced(ps, ps.len());
    } else if ps.len() == 1 {
        assert(joined(ps, 0).len() == 0);
    }
}

/// How many of the first `n` parameters are arguments.
pub open spec fn argument_count(inputs: Seq<FnArg>, n: nat) -> nat
    decreases n,
{
    if n == 0 {
        0
    } else {
        argument_count(inputs, (n - 1) as nat) + if is_argument(inputs[n - 1]) {
            1nat
        } else {
            0nat
        }
    }
}

/// A resolver has an argument for each parameter that binds a name to a path
/// type, in the order of the parameters.
pub proof fn law_arguments_follow_parameters(
    inputs: Seq<FnArg>,
    arguments: Seq<Result<Argument, Error>>,
    m: nat,
    n: nat,
)
    requires
        m <= n,
    ensures
        params(inputs, arguments, n).len() == argument_count(inputs, n),
        params(inputs, arguments, m).is_prefix_of(params(inputs, arguments, n)),
    decreases n,
{
    if n > 0 {
        law_arguments_follow_parameters(
            inputs,
            arguments,
            if m < n {
                m
            } else {
                (n - 1) as nat
            },
            (n - 1) as nat,
        );
    }
}

/// How many of the first `n` items are entities.
pub open spec fn entity_count(items: Seq<ImplItem>, n: nat) -> nat
    decreases n,
{
    if n == 0 {
        0
    } else {
        entity_count(items, (n - 1) as nat) + match items[n - 1] {
            ImplItem::Method(m) if is_entity(m) => 1nat,
            _ => 0nat,
        }
    }
}

/// There is one lookup for each entity.
pub proof fn law_one_lookup_for_each_entity(krate: Seq<char>, items: Seq<ImplItem>, n: nat)
    requires
        n <= items.len(),
    ensures
        parts(krate, items, n).finders.len() == entity_count(items, n),
    decreases n,
{
    if n > 0 {
        law_one_lookup_for_each_entity(krate, items, (n - 1) as nat);
    }
}

/// The code of an item stands behind that of the items before it, so that the
/// first of two fields of one name is the one that is resolved.
pub proof fn law_code_follows_items(krate: Seq<char>, items: Seq<ImplItem>, m: nat, n: nat)
    requires
        m <= n <= items.len(),
    ensures
        parts(krate, items, m).resolvers.is_prefix_of(parts(krate, items, n).resolvers),
        parts(krate, items, m).schema_fields.is_prefix_of(parts(krate, items, n).schema_fields),
        parts(krate, items, m).finders.is_prefix_of(parts(krate, items, n).finders),
        parts(krate, items, m).add_keys.is_prefix_of(parts(krate, items, n).add_keys),
        parts(krate, items, m).create_types.is_prefix_of(parts(krate, items, n).create_types),
    decreases n,
{
    if m < n {
        law_code_follows_items(krate, items, m, (n - 1) as nat);
    }
}

/// A block without resolvers adds no code.
pub proof fn law_plain_items_add_nothing(krate: Seq<char>, items: Seq<ImplItem>, n: nat)
    requires
        n <= items.len(),
        forall|i: int|
            0 <= i < n ==> ((#[trigger] items[i]) matches ImplItem::Method(m) ==> !is_entity(m)
                && !is_field(m)),
    ensures
        parts(krate, items, n) == no_parts(),
    decreases n,
{
    if n > 0 {
        law_plain_items_add_nothing(krate, items, (n - 1) as nat);
    }
}

/// A block is refused only where an item is, and with the error of the first
/// such item; every item behind that one is left as it was.
pub proof fn law_first_refused_item_decides(
    krate: Seq<char>,
    a: Seq<ImplItem>,
    b: Seq<ImplItem>,
    error: ErrorView,
    k: int,
)
    requires
        stopped(krate, a, b, error),
        0 <= k < a.len(),
        all_accepted(a, k),
        item_error(a[k]) is Some,
    ensures
        !all_accepted(a, a.len() as int),
        item_error(a[k]) == Some(error),
        forall|i: int| k < i < a.len() ==> #[trigger] b[i] == a[i],
        forall|i: int| 0 <= i < k ==> item_rewritten(krate, a[i], #[trigger] b[i]),
{
    let l = choose|l: int| stopped_at(krate, a, b, l, error);
    assert(item_error(a[k]) is Some);
    assert(item_error(a[l]) is Some);
    if l < k {
        assert(item_error(a[l]) is None);
    }
    if k < l {
        assert(item_error(a[k]) is None);
    }
    let c = b.update(l, a[l]);
    assert forall|i: int| k < i < a.len() implies #[trigger] b[i] == a[i] by {
        assert(c[i] == a[i]);
    }
    assert forall|i: int| 0 <= i < k implies item_rewritten(krate, a[i], #[trigger] b[i]) by {
        assert(c[i] == b[i]);
    }
}

proof fn lemma_same_printed_inputs(b: Seq<FnArg>, c: Seq<FnArg>, n: nat)
    requires
        n <= b.len(),
        n <= c.len(),
        forall|i: int| 0 <= i < n ==> (#[trigger] b[i]).listed() == c[i].listed(),
    ensures
        printed_inputs(b, n) == printed_inputs(c, n),
    decreases n,
{
    if n > 0 {
        lemma_same_printed_inputs(b, c, (n - 1) as nat);
        assert(b[n - 1].listed() == c[n - 1].listed());
        assert(b[0].listed() == c[0].listed());
    }
}

/// Two methods that stand in place of the same one read the same.
pub proof fn law_rewriting_is_determined(krate: Seq<char>, a: Method, b: Method, c: Method)
    requires
        inputs_of(a.sig.inputs).len() > 0 || !(is_entity(a) || is_field(a)),
        rewritten(krate, a, b),
        rewritten(krate, a, c),
    ensures
        b.printed() == c.printed(),
{
    let to = inputs_of(b.sig.inputs);
    let two = inputs_of(c.sig.inputs);
    if is_entity(a) || is_field(a) {
        let from = inputs_of(a.sig.inputs);
        assert(to.len() == two.len());
        assert forall|i: int| 0 <= i < to.len() implies (#[trigger] to[i]).listed()
            == two[i].listed() && to[i].takes_rest() == two[i].takes_rest() by {
            lemma_rewritten_input(krate, a.sig.inputs, b.sig.inputs, i);
            lemma_rewritten_input(krate, a.sig.inputs, c.sig.inputs, i);
        }
        lemma_same_printed_inputs(to, two, to.len());
        assert(b.sig.output.printed() == c.sig.output.printed());
        assert(b.sig.printed() == c.sig.printed());
    }
}

proof fn lemma_same_printed_items(
    krate: Seq<char>,
    a: Seq<ImplItem>,
    b: Seq<ImplItem>,
    c: Seq<ImplItem>,
    n: nat,
)
    requires
        n <= a.len(),
        items_rewritten(krate, a, b, a.len() as int),
        items_rewritten(krate, a, c, a.len() as int),
        all_accepted(a, a.len() as int),
        is_expandable(a),
    ensures
        printed_items(b, n) == printed_items(c, n),
    decreases n,
{
    if n > 0 {
        lemma_same_printed_items(krate, a, b, c, (n - 1) as nat);
        let i = n - 1;
        assert(item_rewritten(krate, a[i], b[i]));
        assert(item_rewritten(krate, a[i], c[i]));
        assert(item_error(a[i]) is None);
        assert(!item_broken(a[i]));
        if let ImplItem::Method(m) = a[i] {
            law_rewriting_is_determined(krate, m, b[i]->Method_0, c[i]->Method_0);
        }
    }
}

/// The expansion of a block is determined by the block, the name of the object
/// and what its attribute says: any two blocks that stand in place of the same
/// one expand to the same tokens.
pub proof fn law_expansion_is_determined(
    krate: Seq<char>,
    name: Seq<char>,
    object_args: Object,
    a: ItemImpl,
    b: ItemImpl,
    c: ItemImpl,
)
    requires
        all_accepted(a.items@, a.items@.len() as int),
        is_expandable(a.items@),
        same_block(a, b),
        same_block(a, c),
        items_rewritten(krate, a.items@, b.items@, a.items@.len() as int),
        items_rewritten(krate, a.items@, c.items@, a.items@.len() as int),
    ensures
        expansion(krate, name, object_args, a, b) == expansion(krate, name, object_args, a, c),
{
    lemma_same_printed_items(krate, a.items@, b.items@, c.items@, a.items@.len());
    assert(b.printed() == c.printed());
}

} // verus!
