//! What expanding a method changes of it, and what refusing it does.

use vstd::prelude::*;

use crate::error::ErrorView;
use crate::method::{
    accepted_inputs, early_error, first_named, is_broken, is_entity, is_field, method_error,
    method_params, method_wf, refused, rewritten,
};
use crate::output_type::OutputType;
use crate::params::{
    accepted, cleared, has_context, input_error, inputs_wf, is_context_param, params,
    refers_to_path,
};
use crate::punctuated::{inputs_of, segments_of, trailing_comma};
use crate::syntax::{FnArg, Method, Pat, Type};
use crate::tokens::{code, TokenStream, TokenView};

use super::{law_first_attribute_goes, law_first_refused_parameter_decides, lemma_rewritten_input};

verus! {

/// A method is an entity exactly where an `entity` attribute was read, and a field
/// exactly where none was and a `field` attribute was.
pub proof fn law_which_methods_are_resolvers(m: Method)
    ensures
        is_entity(m) <==> m.args.entity is Ok && m.args.entity->Ok_0 is Some,
        is_field(m) <==> m.args.entity is Ok && m.args.entity->Ok_0 is None && m.args.field is Ok
            && m.args.field->Ok_0 is Some,
        !(is_entity(m) && is_field(m)),
{
}

/// A method that already returns a result keeps its body and its return type,
/// whether it is an entity, a field or neither.
pub proof fn law_results_are_left_alone(krate: Seq<char>, a: Method, b: Method)
    requires
        rewritten(krate, a, b),
        !(a.args.output matches Ok(OutputType::Value { .. })),
    ensures
        b.block == a.block,
        b.sig.output == a.sig.output,
{
}

/// A resolver that returns a plain value returns it as a result: the return type
/// is the result type of the runtime crate around the value type, and the body is
/// the one that was written, run for its value, with that value returned as a
/// success. This holds of an entity as of a field.
pub proof fn law_plain_values_are_wrapped(
    krate: Seq<char>,
    a: Method,
    b: Method,
    inner: TokenStream,
    value_type: TokenStream,
)
    requires
        rewritten(krate, a, b),
        is_entity(a) || is_field(a),
        a.args.output == Ok::<OutputType, crate::error::Error>(
            OutputType::Value { inner, value_type },
        ),
    ensures
        b.sig.output is Type,
        b.sig.output->Type_0@ == seq![TokenView::Code(krate), TokenView::Code("::FieldResult<"@)]
            + inner@ + seq![TokenView::Code(">"@)],
        !b.block.bodiless,
        b.block.stmts@ == seq![TokenView::Code("{ let value:"@)] + inner@ + seq![
            TokenView::Code("= async move {"@),
        ] + a.block.stmts@ + seq![TokenView::Code("}.await; Ok(value) }"@)],
{
    assert(b.sig.output->Type_0@ =~= seq![
        TokenView::Code(krate),
        TokenView::Code("::FieldResult<"@),
    ] + inner@ + seq![TokenView::Code(">"@)]);
}

/// A method that is no resolver keeps its parameters, its return type and its
/// body, whatever was read off its return type.
pub proof fn law_other_methods_are_left_alone(krate: Seq<char>, a: Method, b: Method)
    requires
        rewritten(krate, a, b),
        !is_entity(a),
        !is_field(a),
    ensures
        b.sig.inputs == a.sig.inputs,
        b.sig.output == a.sig.output,
        b.block == a.block,
{
}

/// Expanding a method, or refusing it, leaves its name, its qualifiers and
/// generics, its dots and its `where` clause, and what was read off it.
pub proof fn law_signatures_keep_their_frame(krate: Seq<char>, a: Method, b: Method)
    requires
        rewritten(krate, a, b) || refused(a, b),
    ensures
        b.vis == a.vis,
        b.defaultness == a.defaultness,
        b.sig.constness == a.sig.constness,
        b.sig.asyncness == a.sig.asyncness,
        b.sig.unsafety == a.sig.unsafety,
        b.sig.abi == a.sig.abi,
        b.sig.ident == a.sig.ident,
        b.sig.generics == a.sig.generics,
        b.sig.variadic == a.sig.variadic,
        b.sig.where_clause == a.sig.where_clause,
        b.args == a.args,
{
}

/// Expanding a method takes one attribute off it at most: the first `entity`
/// attribute of an entity, the first `field` attribute of any other method. The
/// others keep their order.
pub proof fn law_one_attribute_goes(krate: Seq<char>, a: Method, b: Method, k: int)
    requires
        rewritten(krate, a, b),
        0 <= k <= a.attrs@.len(),
        ({
            let name = if a.args.entity matches Ok(Some(_)) {
                "entity"@
            } else {
                "field"@
            };
            &&& forall|i: int| 0 <= i < k ==> !(#[trigger] a.attrs@[i]).path.names(name)
            &&& k < a.attrs@.len() ==> a.attrs@[k].path.names(name)
        }),
    ensures
        k == a.attrs@.len() ==> b.attrs@ == a.attrs@,
        k < a.attrs@.len() ==> b.attrs@ == a.attrs@.take(k) + a.attrs@.skip(k + 1),
{
    let name = if a.args.entity matches Ok(Some(_)) {
        "entity"@
    } else {
        "field"@
    };
    law_first_attribute_goes(a.attrs@, name);
    let l = first_named(a.attrs@, name, 0) as int;
    if l < k {
        assert(!a.attrs@[l].path.names(name));
    }
    if k < l {
        assert(!a.attrs@[k].path.names(name));
    }
}

/// `b` is the parameter `a` as an expanded method has it: an argument without its
/// attributes, any other parameter as it is.
pub open spec fn carried_over(a: FnArg, b: FnArg) -> bool {
    match (a, b) {
        (FnArg::Typed(p), FnArg::Typed(q)) => match (p.pat, p.ty) {
            (Pat::Ident(_), Type::Path(_)) => q.attrs@.len() == 0 && q.pat == p.pat && q.ty
                == p.ty,
            _ => q == p,
        },
        _ => b == a,
    }
}

/// Where the context is named, an expanded resolver has the parameters that were
/// written, each in its place, and the trailing comma where there was one.
pub proof fn law_named_contexts_stay(krate: Seq<char>, a: Method, b: Method, i: int)
    requires
        rewritten(krate, a, b),
        is_entity(a) || is_field(a),
        has_context(inputs_of(a.sig.inputs)),
        0 <= i < inputs_of(a.sig.inputs).len(),
    ensures
        inputs_of(b.sig.inputs).len() == inputs_of(a.sig.inputs).len(),
        carried_over(inputs_of(a.sig.inputs)[i], inputs_of(b.sig.inputs)[i]),
        trailing_comma(b.sig.inputs) == trailing_comma(a.sig.inputs),
{
    lemma_rewritten_input(krate, a.sig.inputs, b.sig.inputs, i);
}

/// Where the context is not named, an expanded resolver has one parameter more
/// than was written, in second place, and the others in the order in which they
/// were written. A trailing comma stays behind the last of them; behind a single
/// one it becomes the comma in front of the context.
pub proof fn law_contexts_are_put_in(krate: Seq<char>, a: Method, b: Method, i: int)
    requires
        rewritten(krate, a, b),
        is_entity(a) || is_field(a),
        !has_context(inputs_of(a.sig.inputs)),
        0 <= i < inputs_of(a.sig.inputs).len(),
    ensures
        inputs_of(b.sig.inputs).len() == inputs_of(a.sig.inputs).len() + 1,
        carried_over(
            inputs_of(a.sig.inputs)[i],
            inputs_of(b.sig.inputs)[if i == 0 {
                0
            } else {
                i + 1
            }],
        ),
        inputs_of(b.sig.inputs)[1].listed() == seq![
            TokenView::Code("_"@),
            TokenView::Code(":"@),
            TokenView::Code("&"@),
            TokenView::Code(krate),
            TokenView::Code("::Context<'_>"@),
        ],
        trailing_comma(b.sig.inputs) <==> trailing_comma(a.sig.inputs) && inputs_of(
            a.sig.inputs,
        ).len() > 1,
{
    lemma_rewritten_input(
        krate,
        a.sig.inputs,
        b.sig.inputs,
        if i == 0 {
            0
        } else {
            i + 1
        },
    );
    law_the_context_is_printed(krate, inputs_of(b.sig.inputs)[1]);
}

/// The context that is put in reads `_: &krate::Context<'_>`, and its type refers to
/// that path.
pub proof fn law_the_context_is_printed(krate: Seq<char>, arg: FnArg)
    requires
        is_context_param(krate, arg),
    ensures
        arg.listed() == seq![
            TokenView::Code("_"@),
            TokenView::Code(":"@),
            TokenView::Code("&"@),
            TokenView::Code(krate),
            TokenView::Code("::Context<'_>"@),
        ],
        arg->Typed_0.attrs@.len() == 0,
        refers_to_path(arg),
        ({
            let ty = arg->Typed_0.ty->Reference_0.elem->Path_0;
            &&& ty.tokens@ == seq![TokenView::Code(krate), TokenView::Code("::Context<'_>"@)]
            &&& !ty.path.leading_colon
            &&& segments_of(ty.path.segments).len() == 2
            &&& segments_of(ty.path.segments).first().ident@ == krate
            &&& !segments_of(ty.path.segments).first().arguments
            &&& segments_of(ty.path.segments).last().ident@ == "Context"@
            &&& segments_of(ty.path.segments).last().arguments
        }),
{
    assert(arg.listed() =~= code("_"@) + code(":"@) + (code("&"@) + code(krate) + code(
        "::Context<'_>"@,
    )));
}

/// The arguments of a method are those of all its parameters.
pub proof fn law_all_parameters_are_read(m: Method)
    ensures
        method_wf(m) <==> inputs_wf(inputs_of(m.sig.inputs), m.args.arguments@),
        method_params(m) == params(
            inputs_of(m.sig.inputs),
            m.args.arguments@,
            inputs_of(m.sig.inputs).len(),
        ),
        accepted_inputs(m) == accepted(
            inputs_of(m.sig.inputs),
            m.args.arguments@,
            inputs_of(m.sig.inputs).len(),
        ),
{
}

/// An attribute that could not be read refuses the method, with the error that
/// reading it gave: the `entity` attribute before the `field` attribute, and either
/// before anything else.
pub proof fn law_unreadable_attributes_are_refused(m: Method)
    ensures
        m.args.entity matches Err(error) ==> method_error(m) == Some(
            ErrorView { tokens: error.tokens@, message: error.message@ },
        ),
        m.args.entity matches Ok(None) ==> (m.args.field matches Err(error) ==> method_error(m)
            == Some(ErrorView { tokens: error.tokens@, message: error.message@ })),
{
}

/// A method that carries neither attribute is never refused.
pub proof fn law_other_methods_are_accepted(m: Method)
    requires
        m.args.entity matches Ok(None),
        m.args.field matches Ok(None),
    ensures
        method_error(m) is None,
{
}

/// A field that is not asynchronous is refused as a whole, whatever else is wrong
/// with it.
pub proof fn law_synchronous_fields_are_refused(m: Method)
    requires
        is_field(m),
        m.sig.asyncness is None,
    ensures
        method_error(m) == Some(
            ErrorView { tokens: m.printed(), message: "Must be asynchronous"@ },
        ),
{
}

/// A resolver that is not refused for its attributes, nor as a synchronous field,
/// is refused where its return type is missing or could not be read. An entity
/// need not be asynchronous.
pub proof fn law_return_types_are_needed(m: Method)
    requires
        is_entity(m) || (is_field(m) && m.sig.asyncness is Some),
    ensures
        m.sig.output is Default ==> method_error(m) == Some(
            ErrorView { tokens: Seq::empty(), message: "Missing type"@ },
        ),
        m.sig.output is Type ==> (m.args.output matches Err(error) ==> method_error(m) == Some(
            ErrorView { tokens: error.tokens@, message: error.message@ },
        )),
{
}

/// A resolver with a return type that could be read is refused exactly where one
/// of its parameters is, and with the error of the first such parameter.
pub proof fn law_parameters_decide_at_last(m: Method, k: int)
    requires
        is_entity(m) || (is_field(m) && m.sig.asyncness is Some),
        m.sig.output is Type,
        m.args.output is Ok,
        0 <= k <= inputs_of(m.sig.inputs).len(),
        forall|i: int|
            0 <= i < k ==> #[trigger] input_error(
                inputs_of(m.sig.inputs),
                m.args.arguments@,
                i,
            ) is None,
        k < inputs_of(m.sig.inputs).len() ==> input_error(
            inputs_of(m.sig.inputs),
            m.args.arguments@,
            k,
        ) is Some,
    ensures
        k == inputs_of(m.sig.inputs).len() ==> method_error(m) is None,
        k < inputs_of(m.sig.inputs).len() ==> method_error(m) is Some && method_error(m)
            == input_error(inputs_of(m.sig.inputs), m.args.arguments@, k),
        accepted_inputs(m) == k,
        early_error(m) is None,
{
    let inputs = inputs_of(m.sig.inputs);
    let arguments = m.args.arguments@;
    law_first_refused_parameter_decides(inputs, arguments, inputs.len());
    let l = accepted(inputs, arguments, inputs.len()) as int;
    if l < k {
        assert(input_error(inputs, arguments, l) is None);
    }
    if k < l {
        assert(input_error(inputs, arguments, k) is None);
    }
}

/// A resolver that is not refused cannot be expanded exactly where it has no
/// parameter, or where it is an entity and carries no `entity` attribute. A method
/// that is refused, or is no resolver, is never in the way.
pub proof fn law_which_resolvers_are_broken(m: Method)
    ensures
        is_broken(m) ==> method_error(m) is None && (is_entity(m) || is_field(m)),
        method_error(m) is None && (is_entity(m) || is_field(m)) ==> {
            &&& inputs_of(m.sig.inputs).len() == 0 ==> is_broken(m)
            &&& inputs_of(m.sig.inputs).len() > 0 && is_field(m) ==> !is_broken(m)
            &&& inputs_of(m.sig.inputs).len() > 0 && is_entity(m) ==> (is_broken(m) <==> forall|
                i: int,
            |
                0 <= i < m.attrs@.len() ==> !(#[trigger] m.attrs@[i]).path.names("entity"@))
        },
{
    law_first_attribute_goes(m.attrs@, "entity"@);
}

/// A refused method keeps its attributes, its return type, its body and all its
/// parameters. Those in front of the first refused one are as they would be in an
/// expanded method; the others, and all of them where the method is refused before
/// its parameters are looked at, are as they were.
pub proof fn law_refused_methods_lose_little(a: Method, b: Method, i: int)
    requires
        refused(a, b),
        0 <= i < inputs_of(a.sig.inputs).len(),
    ensures
        b.attrs == a.attrs,
        b.sig.output == a.sig.output,
        b.block == a.block,
        trailing_comma(b.sig.inputs) == trailing_comma(a.sig.inputs),
        inputs_of(b.sig.inputs).len() == inputs_of(a.sig.inputs).len(),
        carried_over(inputs_of(a.sig.inputs)[i], inputs_of(b.sig.inputs)[i]) || inputs_of(
            b.sig.inputs,
        )[i] == inputs_of(a.sig.inputs)[i],
        early_error(a) is None && i < accepted_inputs(a) ==> carried_over(
            inputs_of(a.sig.inputs)[i],
            inputs_of(b.sig.inputs)[i],
        ),
        early_error(a) is Some || i >= accepted_inputs(a) ==> inputs_of(b.sig.inputs)[i]
            == inputs_of(a.sig.inputs)[i],
{
    assert(cleared(
        inputs_of(a.sig.inputs),
        inputs_of(b.sig.inputs),
        if early_error(a) is Some {
            0
        } else {
            accepted_inputs(a) as int
        },
    ));
    assert(inputs_of(a.sig.inputs)[i] == inputs_of(a.sig.inputs)[i]);
}

/// A method is refused before its parameters are looked at exactly where it is
/// refused whatever they are: for an attribute or a return type, or as a
/// synchronous field.
pub proof fn law_what_is_found_first(m: Method)
    ensures
        early_error(m) is Some ==> method_error(m) == early_error(m),
        early_error(m) is None <==> m.args.entity is Ok && (m.args.entity->Ok_0 is Some
            && m.sig.output is Type && m.args.output is Ok || m.args.entity->Ok_0 is None
            && m.args.field is Ok && (m.args.field->Ok_0 is None || m.sig.asyncness is Some
            && m.sig.output is Type && m.args.output is Ok)),
{
}

} // verus!
