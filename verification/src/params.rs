//! The parameters of a resolver method: which of them are arguments of the
//! field, which is the context, and which lists are refused.

use vstd::prelude::*;

use syn::punctuated::Punctuated;
use syn::token::Comma;

use crate::args::{Argument, DefaultValue};
use crate::camel_case::camel_case;
use crate::camel_case::to_camel_case;
use crate::error::{Error, ErrorView};
use crate::punctuated::{collect_segments, input, input_mut, inputs_len, insert_input};
use crate::punctuated::{inputs_of, segments_of, trailing_comma};
use crate::syntax::{FnArg, Pat, PatType, Path, PathSegment, Type, TypePath, TypeReference};
use crate::tokens::{code, TokenStream, TokenView};

verus! {

/// An argument of a field or a key of an entity.
pub struct Param {
    /// The name in the schema.
    pub name: String,
    /// The pattern that binds the parameter.
    pub ident: TokenStream,
    pub ty: TokenStream,
    pub desc: Option<String>,
    pub default: Option<DefaultValue>,
    pub validator: TokenStream,
}

/// The mathematical value of a [`DefaultValue`].
pub struct DefaultView {
    pub text: Seq<char>,
    pub repr: Seq<TokenView>,
}

/// The mathematical value of a [`Param`].
pub struct ParamView {
    pub name: Seq<char>,
    pub ident: Seq<TokenView>,
    pub ty: Seq<TokenView>,
    pub desc: Option<String>,
    pub default: Option<DefaultView>,
    pub validator: Seq<TokenView>,
}

pub open spec fn default_view(default: Option<DefaultValue>) -> Option<DefaultView> {
    match default {
        Some(value) => Some(DefaultView { text: value.text@, repr: value.repr@ }),
        None => None,
    }
}

impl View for Param {
    type V = ParamView;

    open spec fn view(&self) -> ParamView {
        ParamView {
            name: self.name@,
            ident: self.ident@,
            ty: self.ty@,
            desc: self.desc,
            default: default_view(self.default),
            validator: self.validator@,
        }
    }
}

/// The values of a list of parameters.
pub open spec fn views(params: Seq<Param>) -> Seq<ParamView> {
    params.map_values(|p: Param| p@)
}

/// The name that the schema shows: the one that is given, or else the
/// identifier in camel case.
pub open spec fn shown_name(given: Option<String>, ident: Seq<char>) -> Seq<char> {
    match given {
        Some(name) => name@,
        None => camel_case(ident),
    }
}

/// The name that the schema shows for a method or a parameter.
pub fn schema_name(given: &Option<String>, ident: &str) -> (r: String)
    ensures
        r@ == shown_name(*given, ident@),
{
    match given {
        Some(name) => name.clone(),
        None => to_camel_case(ident),
    }
}

/// A parameter that becomes an argument: a name bound to a path type.
pub open spec fn is_argument(arg: FnArg) -> bool {
    arg matches FnArg::Typed(pat) && pat.pat is Ident && pat.ty is Path
}

/// A parameter whose type is a reference to a path type: the only such one that
/// is accepted is the context.
pub open spec fn refers_to_path(arg: FnArg) -> bool {
    arg matches FnArg::Typed(pat) && pat.ty matches Type::Reference(reference)
        && *reference.elem is Path
}

/// The path that the parameter refers to.
pub open spec fn referred_path(arg: FnArg) -> Path {
    arg->Typed_0.ty->Reference_0.elem->Path_0.path
}

/// A parameter whose paths are paths.
pub open spec fn input_wf(arg: FnArg) -> bool {
    refers_to_path(arg) ==> referred_path(arg).wf()
}

/// One reading stands beside each parameter, and every path is one.
pub open spec fn inputs_wf(inputs: Seq<FnArg>, arguments: Seq<Result<Argument, Error>>) -> bool {
    &&& arguments.len() == inputs.len()
    &&& forall|i: int| 0 <= i < inputs.len() ==> input_wf(#[trigger] inputs[i])
}

fn check_input(arg: &FnArg) -> (r: bool)
    ensures
        r == input_wf(*arg),
{
    match arg {
        FnArg::Receiver(_) => true,
        FnArg::Typed(pat) => match &pat.ty {
            Type::Reference(reference) => match &*reference.elem {
                Type::Path(ty) => ty.path.is_wf(),
                _ => true,
            },
            _ => true,
        },
    }
}

/// Whether one reading stands beside each parameter, and every path is one.
pub fn check_inputs(
    inputs: &Punctuated<FnArg, Comma>,
    arguments: &Vec<Result<Argument, Error>>,
) -> (r: bool)
    ensures
        r == inputs_wf(inputs_of(*inputs), arguments@),
{
    let len: usize = inputs_len(inputs);
    if arguments.len() != len {
        return false;
    }
    let mut i: usize = 0;
    while i < len
        invariant
            i <= len,
            len == inputs_of(*inputs).len(),
            len == arguments@.len(),
            forall|j: int| 0 <= j < i ==> input_wf(#[trigger] inputs_of(*inputs)[j]),
        decreases len - i,
    {
        if !check_input(input(inputs, i)) {
            return false;
        }
        i += 1;
    }
    true
}

/// The error with which the parameter at position `i` is refused, if it is: the
/// receiver and it alone stands first, a reference to a path type is the
/// context in second place, and every other parameter binds a name to a path
/// type and has readable attributes. A reference to anything but a path type
/// is passed over.
pub open spec fn input_error(
    inputs: Seq<FnArg>,
    arguments: Seq<Result<Argument, Error>>,
    i: int,
) -> Option<ErrorView> {
    match inputs[i] {
        FnArg::Receiver(tokens) => if i == 0 {
            None
        } else {
            Some(
                ErrorView {
                    tokens: tokens@,
                    message: "The self receiver must be the first parameter."@,
                },
            )
        },
        FnArg::Typed(pat) => if i == 0 {
            Some(
                ErrorView {
                    tokens: pat.printed(),
                    message: "The self receiver must be the first parameter."@,
                },
            )
        } else if is_argument(inputs[i]) {
            match arguments[i] {
                Ok(_) => None,
                Err(error) => Some(error@),
            }
        } else if refers_to_path(inputs[i]) {
            if i == 1 && referred_path(inputs[i]).last_ident() == "Context"@ {
                None
            } else {
                Some(
                    ErrorView {
                        tokens: pat.pat.printed(),
                        message: "The Context must be the second argument."@,
                    },
                )
            }
        } else if pat.ty is Reference {
            None
        } else {
            Some(ErrorView { tokens: pat.printed(), message: "Invalid argument type."@ })
        },
    }
}

/// How many of the first `n` parameters stand before the first refused one.
pub open spec fn accepted(
    inputs: Seq<FnArg>,
    arguments: Seq<Result<Argument, Error>>,
    n: nat,
) -> nat
    decreases n,
{
    if n == 0 {
        0
    } else if accepted(inputs, arguments, (n - 1) as nat) < n - 1 {
        accepted(inputs, arguments, (n - 1) as nat)
    } else if input_error(inputs, arguments, n - 1) is None {
        n
    } else {
        (n - 1) as nat
    }
}

/// The argument that a parameter becomes.
pub open spec fn param(arg: FnArg, argument: Argument) -> ParamView {
    ParamView {
        name: shown_name(argument.name, arg->Typed_0.pat->Ident_0.ident@),
        ident: arg->Typed_0.pat->Ident_0.tokens@,
        ty: arg->Typed_0.ty->Path_0.tokens@,
        desc: argument.desc,
        default: default_view(argument.default),
        validator: argument.validator@,
    }
}

/// The arguments among the first `n` parameters, in order.
pub open spec fn params(
    inputs: Seq<FnArg>,
    arguments: Seq<Result<Argument, Error>>,
    n: nat,
) -> Seq<ParamView>
    decreases n,
{
    if n == 0 {
        Seq::empty()
    } else if is_argument(inputs[n - 1]) {
        params(inputs, arguments, (n - 1) as nat).push(
            param(inputs[n - 1], arguments[n - 1]->Ok_0),
        )
    } else {
        params(inputs, arguments, (n - 1) as nat)
    }
}

/// A refused parameter list.
pub struct Refusal {
    /// The position of the refused parameter.
    pub index: usize,
    pub error: Error,
}

fn copy_default(default: &Option<DefaultValue>) -> (r: Option<DefaultValue>)
    ensures
        default_view(r) == default_view(*default),
{
    match default {
        Some(value) => Some(DefaultValue { text: value.text.clone(), repr: value.repr.copy() }),
        None => None,
    }
}

fn copy_desc(desc: &Option<String>) -> (r: Option<String>)
    ensures
        r == *desc,
{
    match desc {
        Some(text) => Some(text.clone()),
        None => None,
    }
}

/// Reads the parameter at position `i`: an argument, nothing, or an error.
fn read_input(
    inputs: &Punctuated<FnArg, Comma>,
    arguments: &Vec<Result<Argument, Error>>,
    i: usize,
) -> (r: Result<Option<Param>, Error>)
    requires
        inputs_wf(inputs_of(*inputs), arguments@),
        i < arguments@.len(),
    ensures
        match r {
            Ok(None) => input_error(inputs_of(*inputs), arguments@, i as int) is None
                && !is_argument(inputs_of(*inputs)[i as int]),
            Ok(Some(p)) => input_error(inputs_of(*inputs), arguments@, i as int) is None
                && is_argument(inputs_of(*inputs)[i as int]) && p@ == param(
                inputs_of(*inputs)[i as int],
                arguments@[i as int]->Ok_0,
            ),
            Err(e) => input_error(inputs_of(*inputs), arguments@, i as int) == Some(e@),
        },
{
    match input(inputs, i) {
        FnArg::Receiver(tokens) => {
            if i != 0 {
                return Err(
                    Error::new_spanned(
                        tokens.copy(),
                        "The self receiver must be the first parameter.",
                    ),
                );
            }
            Ok(None)
        },
        FnArg::Typed(pat) => {
            if i == 0 {
                return Err(
                    Error::new_spanned(
                        pat.print(),
                        "The self receiver must be the first parameter.",
                    ),
                );
            }
            match &pat.ty {
                Type::Path(ty) => match &pat.pat {
                    Pat::Ident(ident) => match &arguments[i] {
                        Ok(argument) => Ok(
                            Some(
                                Param {
                                    name: schema_name(&argument.name, ident.ident.as_str()),
                                    ident: ident.tokens.copy(),
                                    ty: ty.tokens.copy(),
                                    desc: copy_desc(&argument.desc),
                                    default: copy_default(&argument.default),
                                    validator: argument.validator.copy(),
                                },
                            ),
                        ),
                        Err(error) => Err(error.copy()),
                    },
                    _ => Err(Error::new_spanned(pat.print(), "Invalid argument type.")),
                },
                Type::Reference(reference) => match &*reference.elem {
                    Type::Path(ty) => {
                        assert(refers_to_path(inputs_of(*inputs)[i as int]));
                        if i != 1 || ty.path.last() != "Context".to_owned() {
                            Err(
                                Error::new_spanned(
                                    pat.pat.print().copy(),
                                    "The Context must be the second argument.",
                                ),
                            )
                        } else {
                            Ok(None)
                        }
                    },
                    _ => Ok(None),
                },
                _ => Err(Error::new_spanned(pat.print(), "Invalid argument type.")),
            }
        },
    }
}

/// Reads a parameter list up to the first parameter that is refused.
pub fn read_inputs(
    inputs: &Punctuated<FnArg, Comma>,
    arguments: &Vec<Result<Argument, Error>>,
) -> (r: Result<Vec<Param>, Refusal>)
    requires
        inputs_wf(inputs_of(*inputs), arguments@),
    ensures
        match r {
            Ok(ps) => accepted(inputs_of(*inputs), arguments@, arguments@.len())
                == arguments@.len() && views(ps@) == params(
                inputs_of(*inputs),
                arguments@,
                arguments@.len(),
            ),
            Err(refusal) => refusal.index < arguments@.len() && refusal.index == accepted(
                inputs_of(*inputs),
                arguments@,
                arguments@.len(),
            ) && input_error(inputs_of(*inputs), arguments@, refusal.index as int) == Some(
                refusal.error@,
            ),
        },
{
    let mut ps: Vec<Param> = Vec::new();
    let mut i: usize = 0;
    let len: usize = arguments.len();
    assert(views(ps@) =~= Seq::empty());
    while i < len
        invariant
            i <= len,
            len == arguments@.len(),
            inputs_wf(inputs_of(*inputs), arguments@),
            accepted(inputs_of(*inputs), arguments@, i as nat) == i,
            views(ps@) == params(inputs_of(*inputs), arguments@, i as nat),
        decreases len - i,
    {
        match read_input(inputs, arguments, i) {
            Ok(None) => {},
            Ok(Some(p)) => {
                let ghost before = ps@;
                ps.push(p);
                assert(views(ps@) =~= views(before).push(p@));
            },
            Err(error) => {
                proof {
                    lemma_accepted_stays(inputs_of(*inputs), arguments@, (i + 1) as nat, len as nat);
                }
                return Err(Refusal { index: i, error });
            },
        }
        i += 1;
    }
    Ok(ps)
}

/// Once a parameter is refused, the ones behind it do not count.
proof fn lemma_accepted_stays(
    inputs: Seq<FnArg>,
    arguments: Seq<Result<Argument, Error>>,
    m: nat,
    n: nat,
)
    requires
        accepted(inputs, arguments, m) < m <= n,
    ensures
        accepted(inputs, arguments, n) == accepted(inputs, arguments, m),
    decreases n - m,
{
    if m < n {
        lemma_accepted_stays(inputs, arguments, m, (n - 1) as nat);
    }
}

/// The list names the context itself.
pub open spec fn has_context(inputs: Seq<FnArg>) -> bool {
    inputs.len() > 1 && refers_to_path(inputs[1])
}

/// Whether an accepted list names the context itself.
pub fn names_context(inputs: &Punctuated<FnArg, Comma>) -> (r: bool)
    ensures
        r == has_context(inputs_of(*inputs)),
{
    if inputs_len(inputs) < 2 {
        return false;
    }
    match input(inputs, 1) {
        FnArg::Receiver(_) => false,
        FnArg::Typed(pat) => match &pat.ty {
            Type::Reference(reference) => match &*reference.elem {
                Type::Path(_) => true,
                _ => false,
            },
            _ => false,
        },
    }
}

/// `b` is `a` without its attributes.
pub open spec fn stripped(a: FnArg, b: FnArg) -> bool {
    a matches FnArg::Typed(p) && b matches FnArg::Typed(q) && q.pat == p.pat && q.ty == p.ty
        && q.attrs@.len() == 0
}

/// `b` is `a` where the arguments among the first `n` parameters have lost
/// their attributes.
pub open spec fn cleared(a: Seq<FnArg>, b: Seq<FnArg>, n: int) -> bool {
    &&& b.len() == a.len()
    &&& forall|i: int|
        #![trigger a[i]]
        #![trigger b[i]]
        0 <= i < a.len() ==> if i < n && is_argument(a[i]) {
            stripped(a[i], b[i])
        } else {
            b[i] == a[i]
        }
}

/// Takes the attributes off the arguments among the first `n` parameters.
pub fn clear_attrs(inputs: &mut Punctuated<FnArg, Comma>, n: usize)
    requires
        n <= inputs_of(*old(inputs)).len(),
    ensures
        cleared(inputs_of(*old(inputs)), inputs_of(*final(inputs)), n as int),
        trailing_comma(*final(inputs)) == trailing_comma(*old(inputs)),
{
    let ghost before = inputs_of(*inputs);
    let mut i: usize = 0;
    while i < n
        invariant
            i <= n <= before.len(),
            before == inputs_of(*old(inputs)),
            cleared(before, inputs_of(*inputs), i as int),
            trailing_comma(*inputs) == trailing_comma(*old(inputs)),
        decreases n - i,
    {
        let ghost current = inputs_of(*inputs);
        assert(current[i as int] == before[i as int]);
        match input_mut(inputs, i) {
            FnArg::Typed(pat) => {
                let ident = match &pat.pat {
                    Pat::Ident(_) => true,
                    _ => false,
                };
                let path = match &pat.ty {
                    Type::Path(_) => true,
                    _ => false,
                };
                if ident && path {
                    pat.attrs.clear();
                }
            },
            FnArg::Receiver(_) => {},
        }
        i += 1;
    }
}

/// `_: &krate::Context<'_>`
pub open spec fn is_context_param(krate: Seq<char>, arg: FnArg) -> bool {
    &&& arg matches FnArg::Typed(pat)
    &&& pat.attrs@.len() == 0
    &&& pat.pat matches Pat::Other(tokens)
    &&& tokens@ == code("_"@)
    &&& pat.ty matches Type::Reference(reference)
    &&& reference.tokens@ == code("&"@) + code(krate) + code("::Context<'_>"@)
    &&& *reference.elem matches Type::Path(ty)
    &&& ty.tokens@ == code(krate) + code("::Context<'_>"@)
    &&& !ty.path.leading_colon
    &&& segments_of(ty.path.segments).len() == 2
    &&& segments_of(ty.path.segments)[0].ident@ == krate
    &&& !segments_of(ty.path.segments)[0].arguments
    &&& segments_of(ty.path.segments)[1].ident@ == "Context"@
    &&& segments_of(ty.path.segments)[1].arguments
}

/// The parameter that stands for a context which the method does not use.
pub fn context_param(krate: &str) -> (r: FnArg)
    ensures
        is_context_param(krate@, r),
{
    let mut segments: Vec<PathSegment> = Vec::new();
    segments.push(PathSegment { ident: krate.to_owned(), arguments: false });
    segments.push(PathSegment { ident: "Context".to_owned(), arguments: true });
    let path = Path { leading_colon: false, segments: collect_segments(segments) };
    let elem = Type::Path(
        TypePath { path, tokens: TokenStream::of(krate).code("::Context<'_>") },
    );
    FnArg::Typed(
        PatType {
            attrs: Vec::new(),
            pat: Pat::Other(TokenStream::of("_")),
            ty: Type::Reference(
                TypeReference {
                    elem: Box::new(elem),
                    tokens: TokenStream::of("&").code(krate).code("::Context<'_>"),
                },
            ),
        },
    )
}

/// `b` is the list that the rewritten method has in place of `a`: the arguments
/// have lost their attributes, and the context stands second.
pub open spec fn inputs_rewritten(
    krate: Seq<char>,
    a: Punctuated<FnArg, Comma>,
    b: Punctuated<FnArg, Comma>,
) -> bool {
    let from = inputs_of(a);
    let to = inputs_of(b);
    if has_context(from) {
        &&& cleared(from, to, from.len() as int)
        &&& trailing_comma(b) == trailing_comma(a)
    } else {
        &&& to.len() == from.len() + 1
        &&& is_context_param(krate, to[1])
        &&& cleared(from, to.remove(1), from.len() as int)
        &&& trailing_comma(b) == (from.len() > 1 && trailing_comma(a))
    }
}

/// Takes the attributes off the arguments, and puts the context into second
/// place where the list does not name it.
pub fn rewrite_inputs(krate: &str, inputs: &mut Punctuated<FnArg, Comma>)
    requires
        inputs_of(*old(inputs)).len() > 0,
    ensures
        inputs_rewritten(krate@, *old(inputs), *final(inputs)),
{
    let named = names_context(inputs);
    let len: usize = inputs_len(inputs);
    clear_attrs(inputs, len);
    if !named {
        let ghost middle = inputs_of(*inputs);
        let context = context_param(krate);
        insert_input(inputs, 1, context);
        assert(inputs_of(*inputs).remove(1) =~= middle);
    }
}

} // verus!
