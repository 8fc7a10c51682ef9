//! The parameters of a method: which of them are arguments, what is read off
//! those, and why a parameter is refused.

use vstd::prelude::*;

use crate::args::Argument;
use crate::camel_case::camel_case;
use crate::entity::joined;
use crate::error::{Error, ErrorView};
use crate::params::{
    has_context, input_error, input_wf, inputs_wf, is_argument, params, referred_path,
    refers_to_path, ParamView,
};
use crate::punctuated::segments_of;
use crate::syntax::{FnArg, Pat, PatType, Path, Type};

use super::{argument_count, law_arguments_follow_parameters};

verus! {

/// A parameter is an argument exactly where it binds a name to a path type, and
/// refers to a path exactly where its type is a reference to a path type,
/// whatever its pattern is. No parameter does both.
pub proof fn law_which_parameters_are_arguments(arg: FnArg)
    ensures
        arg is Receiver ==> !is_argument(arg) && !refers_to_path(arg),
        arg matches FnArg::Typed(pat) ==> match (pat.pat, pat.ty) {
            (Pat::Ident(_), Type::Path(_)) => is_argument(arg) && !refers_to_path(arg),
            (_, Type::Path(_)) => !is_argument(arg) && !refers_to_path(arg),
            (_, Type::Reference(reference)) => !is_argument(arg) && match *reference.elem {
                Type::Path(ty) => refers_to_path(arg) && referred_path(arg) == ty.path,
                _ => !refers_to_path(arg),
            },
            _ => !is_argument(arg) && !refers_to_path(arg),
        },
{
}

/// The position at which an argument stands among those of a method is the number
/// of arguments in front of it. There it has the name that its attribute gives or
/// else its own in camel case, its own pattern and type, and the description, the
/// default and the validator of its attribute.
pub proof fn law_arguments_are_read_in_place(
    inputs: Seq<FnArg>,
    arguments: Seq<Result<Argument, Error>>,
    n: nat,
    i: nat,
    pat: PatType,
    argument: Argument,
)
    requires
        i < n <= inputs.len(),
        n <= arguments.len(),
        inputs[i as int] == FnArg::Typed(pat),
        pat.pat is Ident,
        pat.ty is Path,
        arguments[i as int] == Ok::<Argument, Error>(argument),
    ensures
        argument_count(inputs, i) < params(inputs, arguments, n).len(),
        ({
            let p = params(inputs, arguments, n)[argument_count(inputs, i) as int];
            &&& argument.name matches Some(name) ==> p.name == name@
            &&& argument.name is None ==> p.name == camel_case(pat.pat->Ident_0.ident@)
            &&& p.ident == pat.pat.printed()
            &&& p.ty == pat.ty.printed()
            &&& p.desc == argument.desc
            &&& p.validator == argument.validator@
            &&& p.default is None <==> argument.default is None
            &&& argument.default matches Some(value) ==> {
                &&& p.default->Some_0.text == value.text@
                &&& p.default->Some_0.repr == value.repr@
            }
        }),
{
    law_arguments_follow_parameters(inputs, arguments, i, i);
    law_arguments_follow_parameters(inputs, arguments, i + 1, n);
    let there = params(inputs, arguments, i + 1);
    assert(there.len() == argument_count(inputs, i) + 1);
    assert(params(inputs, arguments, n)[argument_count(inputs, i) as int] == there.last());
}

/// What a method has of arguments is nothing but what its parameters are read as:
/// a parameter that is no argument adds none.
pub proof fn law_other_parameters_add_no_argument(
    inputs: Seq<FnArg>,
    arguments: Seq<Result<Argument, Error>>,
    n: nat,
)
    requires
        n < inputs.len(),
        !(inputs[n as int] matches FnArg::Typed(pat) && pat.pat is Ident && pat.ty is Path),
    ensures
        params(inputs, arguments, n + 1) == params(inputs, arguments, n),
        params(inputs, arguments, 0).len() == 0,
{
}

/// A receiver is refused exactly where it does not stand first.
pub proof fn law_the_receiver_stands_first(
    inputs: Seq<FnArg>,
    arguments: Seq<Result<Argument, Error>>,
    i: int,
)
    requires
        0 <= i < inputs.len(),
        inputs[i] is Receiver,
    ensures
        i == 0 <==> input_error(inputs, arguments, i) is None,
        i != 0 ==> input_error(inputs, arguments, i) == Some(
            ErrorView {
                tokens: inputs[i].printed(),
                message: "The self receiver must be the first parameter."@,
            },
        ),
{
}

/// A parameter with a type is refused as a whole where it stands first. Elsewhere
/// an argument is refused exactly where its attribute cannot be read, and with the
/// error that reading it gave; any other parameter is refused as a whole, unless
/// its type is a reference.
pub proof fn law_why_a_parameter_is_refused(
    inputs: Seq<FnArg>,
    arguments: Seq<Result<Argument, Error>>,
    i: int,
    pat: PatType,
)
    requires
        0 <= i < inputs.len(),
        i < arguments.len(),
        inputs[i] == FnArg::Typed(pat),
    ensures
        i == 0 ==> input_error(inputs, arguments, i) == Some(
            ErrorView {
                tokens: pat.printed(),
                message: "The self receiver must be the first parameter."@,
            },
        ),
        i > 0 && pat.pat is Ident && pat.ty is Path ==> {
            &&& arguments[i] is Ok <==> input_error(inputs, arguments, i) is None
            &&& arguments[i] matches Err(error) ==> input_error(inputs, arguments, i) == Some(
                ErrorView { tokens: error.tokens@, message: error.message@ },
            )
        },
        i > 0 && !(pat.pat is Ident && pat.ty is Path) && !(pat.ty is Reference) ==> input_error(
            inputs,
            arguments,
            i,
        ) == Some(ErrorView { tokens: pat.printed(), message: "Invalid argument type."@ }),
{
}

/// A reference to a path type is accepted exactly where it stands second and the
/// path ends with `Context`; elsewhere its pattern is refused. A reference to
/// anything else is passed over, unless it stands first.
pub proof fn law_the_context_stands_second_or_not_at_all(
    inputs: Seq<FnArg>,
    arguments: Seq<Result<Argument, Error>>,
    i: int,
    pat: PatType,
)
    requires
        0 < i < inputs.len(),
        inputs[i] == FnArg::Typed(pat),
        pat.ty is Reference,
    ensures
        *pat.ty->Reference_0.elem matches Type::Path(ty) ==> {
            let segments = segments_of(ty.path.segments);
            &&& input_error(inputs, arguments, i) is None <==> i == 1 && segments.last().ident@
                == "Context"@
            &&& input_error(inputs, arguments, i) is Some ==> input_error(inputs, arguments, i)
                == Some(
                ErrorView {
                    tokens: pat.pat.printed(),
                    message: "The Context must be the second argument."@,
                },
            )
        },
        !(*pat.ty->Reference_0.elem is Path) ==> input_error(inputs, arguments, i) is None,
{
}

/// A list names the context exactly where a reference to a path type stands
/// second.
pub proof fn law_where_the_context_is_named(inputs: Seq<FnArg>)
    ensures
        inputs.len() < 2 ==> !has_context(inputs),
        inputs.len() >= 2 ==> match inputs[1] {
            FnArg::Receiver(_) => !has_context(inputs),
            FnArg::Typed(pat) => match pat.ty {
                Type::Reference(reference) => has_context(inputs) == (*reference.elem is Path),
                _ => !has_context(inputs),
            },
        },
{
}

/// A list is well-formed exactly where one reading stands beside each parameter
/// and every path that a parameter refers to has a segment.
pub proof fn law_which_lists_are_well_formed(
    inputs: Seq<FnArg>,
    arguments: Seq<Result<Argument, Error>>,
)
    ensures
        inputs_wf(inputs, arguments) ==> inputs.len() == arguments.len(),
        inputs_wf(inputs, arguments) ==> forall|i: int, pat: PatType, path: Path|
            0 <= i < inputs.len() && #[trigger] refers(inputs[i], pat, path) ==> segments_of(
                path.segments,
            ).len() > 0,
        inputs.len() == arguments.len() && (forall|i: int, pat: PatType, path: Path|
            0 <= i < inputs.len() && #[trigger] refers(inputs[i], pat, path) ==> segments_of(
                path.segments,
            ).len() > 0) ==> inputs_wf(inputs, arguments),
{
    if inputs_wf(inputs, arguments) {
        assert forall|i: int, pat: PatType, path: Path|
            0 <= i < inputs.len() && #[trigger] refers(inputs[i], pat, path) implies segments_of(
            path.segments,
        ).len() > 0 by {
            assert(input_wf(inputs[i]));
        }
    }
    if inputs.len() == arguments.len() && (forall|i: int, pat: PatType, path: Path|
        0 <= i < inputs.len() && #[trigger] refers(inputs[i], pat, path) ==> segments_of(
            path.segments,
        ).len() > 0) {
        assert forall|i: int| 0 <= i < inputs.len() implies input_wf(#[trigger] inputs[i]) by {
            if refers_to_path(inputs[i]) {
                assert(refers(inputs[i], inputs[i]->Typed_0, referred_path(inputs[i])));
            }
        }
    }
}

/// The parameter `arg` is `pat`, whose type is a reference to `path`.
pub open spec fn refers(arg: FnArg, pat: PatType, path: Path) -> bool {
    arg == FnArg::Typed(pat) && match pat.ty {
        Type::Reference(reference) => match *reference.elem {
            Type::Path(ty) => ty.path == path,
            _ => false,
        },
        _ => false,
    }
}

/// Names in front that are empty take no space: the keys read as they would
/// without them.
pub proof fn law_empty_names_in_front_take_no_space(ps: Seq<ParamView>, n: nat)
    requires
        0 < n <= ps.len(),
        ps[0].name.len() == 0,
    ensures
        joined(ps, n) == joined(ps.skip(1), (n - 1) as nat),
    decreases n,
{
    if n == 1 {
        assert(joined(ps, 0).len() == 0);
        assert(ps[0].name =~= Seq::empty());
    } else {
        law_empty_names_in_front_take_no_space(ps, (n - 1) as nat);
    }
}

} // verus!
