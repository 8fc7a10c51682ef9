//! The parts of an `impl` block: those that decide how it is expanded as values,
//! the others as the tokens that stand for them.

use vstd::prelude::*;

use syn::punctuated::Punctuated;
use syn::token::{Colon2, Comma};

use crate::args::MethodArgs;
use crate::punctuated::{has_trailing_comma, input, inputs_len, last_segment, segments_len};
use crate::punctuated::{inputs_of, segments_of, trailing_comma};
use crate::tokens::{code, nothing, TokenStream, TokenView};

verus! {

/// A segment of a path.
pub struct PathSegment {
    pub ident: String,
    /// Whether generic arguments stand behind the identifier.
    pub arguments: bool,
}

/// A path such as `std::vec::Vec`.
pub struct Path {
    pub leading_colon: bool,
    pub segments: Punctuated<PathSegment, Colon2>,
}

/// An attribute on an item, a method or a parameter.
pub struct Attribute {
    pub path: Path,
    /// Whether it is written `#![...]`, inside what it applies to.
    pub inner: bool,
    /// The attribute as a whole.
    pub tokens: TokenStream,
}

/// A type that is a path.
pub struct TypePath {
    pub path: Path,
    /// The type as a whole.
    pub tokens: TokenStream,
}

/// A type that is a reference.
pub struct TypeReference {
    pub elem: Box<Type>,
    /// The type as a whole.
    pub tokens: TokenStream,
}

/// A type.
pub enum Type {
    Path(TypePath),
    Reference(TypeReference),
    /// The dots of a parameter that takes any further arguments.
    Dots(TokenStream),
    Other(TokenStream),
}

/// A pattern that binds a name.
pub struct PatIdent {
    pub ident: String,
    /// The pattern as a whole.
    pub tokens: TokenStream,
}

/// A pattern.
pub enum Pat {
    Ident(PatIdent),
    /// The dots of a parameter that takes any further arguments and binds them
    /// to no name.
    Dots(TokenStream),
    Other(TokenStream),
}

/// A parameter with a type.
pub struct PatType {
    pub attrs: Vec<Attribute>,
    pub pat: Pat,
    pub ty: Type,
}

/// A parameter of a method.
pub enum FnArg {
    /// `self` in one of its short forms.
    Receiver(TokenStream),
    Typed(PatType),
}

/// What a method is declared to return.
pub enum ReturnType {
    /// No type is written.
    Default,
    Type(TokenStream),
}

/// The name of a method.
pub struct Ident {
    pub name: String,
    pub tokens: TokenStream,
}

/// The signature of a method.
pub struct Signature {
    pub constness: TokenStream,
    /// The keyword `async`, where it is written.
    pub asyncness: Option<TokenStream>,
    pub unsafety: TokenStream,
    pub abi: TokenStream,
    pub ident: Ident,
    pub generics: TokenStream,
    pub inputs: Punctuated<FnArg, Comma>,
    /// The dots behind the parameters, where any further arguments are taken.
    pub variadic: Option<TokenStream>,
    pub output: ReturnType,
    pub where_clause: TokenStream,
}

/// The body of a method.
pub struct Block {
    pub stmts: TokenStream,
    /// Whether `stmts` is a semicolon that stands in place of the body.
    pub bodiless: bool,
}

/// A method of an `impl` block.
pub struct Method {
    pub attrs: Vec<Attribute>,
    pub vis: TokenStream,
    pub defaultness: TokenStream,
    pub sig: Signature,
    pub block: Block,
    /// What was read off the method as it was written.
    pub args: MethodArgs,
}

/// An item of an `impl` block.
pub enum ImplItem {
    Method(Method),
    Other(TokenStream),
}

/// An `impl` block.
pub struct ItemImpl {
    pub attrs: Vec<Attribute>,
    pub defaultness: TokenStream,
    pub unsafety: TokenStream,
    /// The generic parameters with the angle brackets around them.
    pub generics: TokenStream,
    /// The trait and the keyword `for`, where a trait is implemented.
    pub trait_: TokenStream,
    pub self_ty: Type,
    /// The `where` clause with its keyword.
    pub where_clause: TokenStream,
    pub items: Vec<ImplItem>,
}

impl Path {
    /// A path has a last segment.
    pub open spec fn wf(self) -> bool {
        segments_of(self.segments).len() > 0
    }

    /// The identifier of the last segment.
    pub open spec fn last_ident(self) -> Seq<char> {
        segments_of(self.segments).last().ident@
    }

    /// The path is this identifier and nothing else.
    pub open spec fn names(self, ident: Seq<char>) -> bool {
        &&& !self.leading_colon
        &&& segments_of(self.segments).len() == 1
        &&& !segments_of(self.segments)[0].arguments
        &&& segments_of(self.segments)[0].ident@ == ident
    }

    /// Whether the path is this identifier and nothing else.
    pub fn is_ident(&self, ident: &str) -> (r: bool)
        ensures
            r == self.names(ident@),
    {
        if self.leading_colon || segments_len(&self.segments) != 1 {
            return false;
        }
        match last_segment(&self.segments) {
            Some(segment) => !segment.arguments && segment.ident == ident.to_owned(),
            None => false,
        }
    }

    /// Whether the path has a segment.
    pub fn is_wf(&self) -> (r: bool)
        ensures
            r == self.wf(),
    {
        segments_len(&self.segments) > 0
    }

    /// The identifier of the last segment.
    pub fn last(&self) -> (r: String)
        requires
            self.wf(),
        ensures
            r@ == self.last_ident(),
    {
        match last_segment(&self.segments) {
            Some(segment) => segment.ident.clone(),
            None => String::new(),
        }
    }
}

/// The first `n` of the attributes, without those that are of the other style.
pub open spec fn printed_attrs(attrs: Seq<Attribute>, inner: bool, n: nat) -> Seq<TokenView>
    decreases n,
{
    if n == 0 {
        nothing()
    } else if attrs[n - 1].inner == inner {
        printed_attrs(attrs, inner, (n - 1) as nat) + attrs[n - 1].tokens@
    } else {
        printed_attrs(attrs, inner, (n - 1) as nat)
    }
}

/// The attributes of one style.
pub fn print_attrs(attrs: &Vec<Attribute>, inner: bool) -> (r: TokenStream)
    ensures
        r@ == printed_attrs(attrs@, inner, attrs@.len()),
{
    let mut r = TokenStream::new();
    let mut i: usize = 0;
    while i < attrs.len()
        invariant
            i <= attrs.len(),
            r@ == printed_attrs(attrs@, inner, i as nat),
        decreases attrs.len() - i,
    {
        if attrs[i].inner == inner {
            r = r.stream(&attrs[i].tokens);
        }
        i += 1;
    }
    r
}

impl Type {
    pub open spec fn printed(self) -> Seq<TokenView> {
        match self {
            Type::Path(path) => path.tokens@,
            Type::Reference(reference) => reference.tokens@,
            Type::Dots(tokens) => tokens@,
            Type::Other(tokens) => tokens@,
        }
    }

    /// The tokens of the type.
    pub fn print(&self) -> (r: &TokenStream)
        ensures
            r@ == self.printed(),
    {
        match self {
            Type::Path(path) => &path.tokens,
            Type::Reference(reference) => &reference.tokens,
            Type::Dots(tokens) => tokens,
            Type::Other(tokens) => tokens,
        }
    }
}

impl Pat {
    pub open spec fn printed(self) -> Seq<TokenView> {
        match self {
            Pat::Ident(ident) => ident.tokens@,
            Pat::Dots(tokens) => tokens@,
            Pat::Other(tokens) => tokens@,
        }
    }

    /// The tokens of the pattern.
    pub fn print(&self) -> (r: &TokenStream)
        ensures
            r@ == self.printed(),
    {
        match self {
            Pat::Ident(ident) => &ident.tokens,
            Pat::Dots(tokens) => tokens,
            Pat::Other(tokens) => tokens,
        }
    }
}

impl PatType {
    pub open spec fn printed(self) -> Seq<TokenView> {
        printed_attrs(self.attrs@, false, self.attrs@.len()) + self.pat.printed() + code(":"@)
            + self.ty.printed()
    }

    /// The tokens of the parameter.
    pub fn print(&self) -> (r: TokenStream)
        ensures
            r@ == self.printed(),
    {
        print_attrs(&self.attrs, false).stream(self.pat.print()).code(":").stream(self.ty.print())
    }
}

impl FnArg {
    pub open spec fn printed(self) -> Seq<TokenView> {
        match self {
            FnArg::Receiver(tokens) => tokens@,
            FnArg::Typed(pat) => pat.printed(),
        }
    }

    /// The tokens of the parameter.
    pub fn print(&self) -> (r: TokenStream)
        ensures
            r@ == self.printed(),
    {
        match self {
            FnArg::Receiver(tokens) => tokens.copy(),
            FnArg::Typed(pat) => pat.print(),
        }
    }
}

impl FnArg {
    /// The parameter takes any further arguments.
    pub open spec fn takes_rest(self) -> bool {
        self matches FnArg::Typed(pat) && pat.ty is Dots
    }

    /// The parameter as it stands in a list: dots without a name are written
    /// once.
    pub open spec fn listed(self) -> Seq<TokenView> {
        match self {
            FnArg::Typed(pat) => if pat.ty is Dots && pat.pat is Dots {
                printed_attrs(pat.attrs@, false, pat.attrs@.len()) + pat.pat.printed()
            } else {
                pat.printed()
            },
            FnArg::Receiver(_) => self.printed(),
        }
    }

    /// Whether the parameter takes any further arguments.
    pub fn is_rest(&self) -> (r: bool)
        ensures
            r == self.takes_rest(),
    {
        match self {
            FnArg::Typed(pat) => match &pat.ty {
                Type::Dots(_) => true,
                _ => false,
            },
            FnArg::Receiver(_) => false,
        }
    }

    /// The tokens of the parameter as it stands in a list.
    pub fn list(&self) -> (r: TokenStream)
        ensures
            r@ == self.listed(),
    {
        if let FnArg::Typed(pat) = self {
            if let Type::Dots(_) = &pat.ty {
                if let Pat::Dots(dots) = &pat.pat {
                    return print_attrs(&pat.attrs, false).stream(dots);
                }
            }
        }
        self.print()
    }
}

/// The first `n` of the parameters with commas between them.
pub open spec fn printed_inputs(inputs: Seq<FnArg>, n: nat) -> Seq<TokenView>
    decreases n,
{
    if n == 0 {
        nothing()
    } else if n == 1 {
        inputs[0].listed()
    } else {
        printed_inputs(inputs, (n - 1) as nat) + code(","@) + inputs[n - 1].listed()
    }
}

fn print_inputs(inputs: &Punctuated<FnArg, Comma>) -> (r: TokenStream)
    ensures
        r@ == printed_inputs(inputs_of(*inputs), inputs_of(*inputs).len()),
{
    let len: usize = inputs_len(inputs);
    if len == 0 {
        return TokenStream::new();
    }
    let mut r = input(inputs, 0).list();
    let mut i: usize = 1;
    while i < len
        invariant
            1 <= i <= len,
            len == inputs_of(*inputs).len(),
            r@ == printed_inputs(inputs_of(*inputs), i as nat),
        decreases len - i,
    {
        r = r.code(",").stream(&input(inputs, i).list());
        i += 1;
    }
    r
}

/// What stands behind the parameters of a list: the comma that it ends with,
/// and the dots, unless the last parameter holds them. A comma stands between
/// the last parameter and the dots.
pub open spec fn printed_rest(
    inputs: Seq<FnArg>,
    trailing: bool,
    variadic: Option<TokenStream>,
) -> Seq<TokenView> {
    let comma = if trailing {
        code(","@)
    } else {
        nothing()
    };
    match variadic {
        Some(dots) => if inputs.len() == 0 {
            comma + dots@
        } else if inputs.last().takes_rest() {
            comma
        } else {
            code(","@) + dots@
        },
        None => comma,
    }
}

fn print_rest(inputs: &Punctuated<FnArg, Comma>, variadic: &Option<TokenStream>) -> (r: TokenStream)
    ensures
        r@ == printed_rest(inputs_of(*inputs), trailing_comma(*inputs), *variadic),
{
    let comma = if has_trailing_comma(inputs) {
        TokenStream::of(",")
    } else {
        TokenStream::new()
    };
    match variadic {
        Some(dots) => {
            let len: usize = inputs_len(inputs);
            if len == 0 {
                comma.stream(dots)
            } else if input(inputs, len - 1).is_rest() {
                comma
            } else {
                TokenStream::of(",").stream(dots)
            }
        },
        None => comma,
    }
}

impl ReturnType {
    pub open spec fn printed(self) -> Seq<TokenView> {
        match self {
            ReturnType::Default => nothing(),
            ReturnType::Type(ty) => code("->"@) + ty@,
        }
    }

    /// The tokens of the return type with its arrow.
    pub fn print(&self) -> (r: TokenStream)
        ensures
            r@ == self.printed(),
    {
        match self {
            ReturnType::Default => TokenStream::new(),
            ReturnType::Type(ty) => TokenStream::of("->").stream(ty),
        }
    }
}

impl Signature {
    pub open spec fn printed(self) -> Seq<TokenView> {
        self.constness@ + (match self.asyncness {
            Some(keyword) => keyword@,
            None => nothing(),
        }) + self.unsafety@ + self.abi@ + code("fn"@) + self.ident.tokens@ + self.generics@
            + code("("@) + printed_inputs(inputs_of(self.inputs), inputs_of(self.inputs).len())
            + printed_rest(inputs_of(self.inputs), trailing_comma(self.inputs), self.variadic)
            + code(")"@) + self.output.printed() + self.where_clause@
    }

    /// The tokens of the signature.
    pub fn print(&self) -> (r: TokenStream)
        ensures
            r@ == self.printed(),
    {
        self.constness.copy().optional_stream(&self.asyncness).stream(&self.unsafety).stream(
            &self.abi,
        ).code("fn").stream(&self.ident.tokens).stream(&self.generics).code("(").stream(
            &print_inputs(&self.inputs),
        ).stream(&print_rest(&self.inputs, &self.variadic)).code(")").stream(&self.output.print()).stream(&self.where_clause)
    }
}

impl Method {
    pub open spec fn printed(self) -> Seq<TokenView> {
        printed_attrs(self.attrs@, false, self.attrs@.len()) + self.vis@ + self.defaultness@
            + self.sig.printed() + (if self.block.bodiless {
            self.block.stmts@
        } else {
            code("{"@) + printed_attrs(self.attrs@, true, self.attrs@.len()) + self.block.stmts@
                + code("}"@)
        })
    }

    /// The tokens of the method.
    pub fn print(&self) -> (r: TokenStream)
        ensures
            r@ == self.printed(),
    {
        let body = if self.block.bodiless {
            self.block.stmts.copy()
        } else {
            TokenStream::of("{").stream(&print_attrs(&self.attrs, true)).stream(
                &self.block.stmts,
            ).code("}")
        };
        print_attrs(&self.attrs, false).stream(&self.vis).stream(&self.defaultness).stream(
            &self.sig.print(),
        ).stream(&body)
    }
}

impl ImplItem {
    pub open spec fn printed(self) -> Seq<TokenView> {
        match self {
            ImplItem::Method(method) => method.printed(),
            ImplItem::Other(tokens) => tokens@,
        }
    }

    /// The tokens of the item.
    pub fn print(&self) -> (r: TokenStream)
        ensures
            r@ == self.printed(),
    {
        match self {
            ImplItem::Method(method) => method.print(),
            ImplItem::Other(tokens) => tokens.copy(),
        }
    }
}

/// The first `n` of the items.
pub open spec fn printed_items(items: Seq<ImplItem>, n: nat) -> Seq<TokenView>
    decreases n,
{
    if n == 0 {
        nothing()
    } else {
        printed_items(items, (n - 1) as nat) + items[n - 1].printed()
    }
}

fn print_items(items: &Vec<ImplItem>) -> (r: TokenStream)
    ensures
        r@ == printed_items(items@, items@.len()),
{
    let mut r = TokenStream::new();
    let mut i: usize = 0;
    while i < items.len()
        invariant
            i <= items.len(),
            r@ == printed_items(items@, i as nat),
        decreases items.len() - i,
    {
        r = r.stream(&items[i].print());
        i += 1;
    }
    r
}

impl ItemImpl {
    pub open spec fn printed(self) -> Seq<TokenView> {
        printed_attrs(self.attrs@, false, self.attrs@.len()) + self.defaultness@ + self.unsafety@
            + code("impl"@) + self.generics@ + self.trait_@ + self.self_ty.printed()
            + self.where_clause@ + code("{"@) + printed_attrs(self.attrs@, true, self.attrs@.len())
            + printed_items(self.items@, self.items@.len()) + code("}"@)
    }

    /// The tokens of the block.
    pub fn print(&self) -> (r: TokenStream)
        ensures
            r@ == self.printed(),
    {
        print_attrs(&self.attrs, false).stream(&self.defaultness).stream(&self.unsafety).code(
            "impl",
        ).stream(&self.generics).stream(&self.trait_).stream(self.self_ty.print()).stream(
            &self.where_clause,
        ).code("{").stream(&print_attrs(&self.attrs, true)).stream(&print_items(&self.items)).code(
            "}",
        )
    }
}

} // verus!
