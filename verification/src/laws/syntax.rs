//! How the parts of a block are printed.

use vstd::prelude::*;

use crate::punctuated::{inputs_of, segments_of, trailing_comma};
use crate::syntax::{
    printed_attrs, printed_inputs, printed_items, printed_rest, FnArg, ImplItem, ItemImpl, Method,
    Pat, PatType, Path, ReturnType, Signature, Type,
};
use crate::tokens::{code, TokenStream, TokenView};

use super::template::{begin_hole, hole, same_template, text};

verus! {

/// A path names an identifier exactly where that is all that it is, and a path
/// names no two identifiers.
pub proof fn law_a_path_names_one_identifier(path: Path, ident: Seq<char>, other: Seq<char>)
    ensures
        path.names(ident) && path.names(other) ==> ident == other,
        path.names(ident) ==> path.wf() && path.last_ident() == ident,
        path.names(ident) <==> !path.leading_colon && segments_of(path.segments).len() == 1
            && segments_of(path.segments)[0].ident@ == ident
            && segments_of(path.segments)[0].arguments == false,
{
}

/// The identifier that a path ends with is that of its last segment, and a path
/// has one where it has a segment.
pub proof fn law_a_path_ends_with_its_last_segment(path: Path)
    ensures
        path.wf() <==> segments_of(path.segments).len() > 0,
        path.wf() ==> path.last_ident() == segments_of(path.segments)[segments_of(
            path.segments,
        ).len() - 1].ident@,
{
}

/// A type or a pattern is printed as it is written.
pub proof fn law_types_and_patterns_are_printed_as_written(ty: Type, pat: Pat)
    ensures
        ty matches Type::Path(path) ==> ty.printed() == path.tokens@,
        ty matches Type::Reference(reference) ==> ty.printed() == reference.tokens@,
        ty matches Type::Dots(tokens) ==> ty.printed() == tokens@,
        ty matches Type::Other(tokens) ==> ty.printed() == tokens@,
        pat matches Pat::Ident(ident) ==> pat.printed() == ident.tokens@,
        pat matches Pat::Dots(tokens) ==> pat.printed() == tokens@,
        pat matches Pat::Other(tokens) ==> pat.printed() == tokens@,
{
}

/// A receiver and any item but a method are printed as they are written. A
/// parameter with a type stands in a list as it stands alone, unless it is
/// nothing but dots: those are written once, behind the attributes.
pub proof fn law_parameters_and_items_are_printed_as_written(arg: FnArg, item: ImplItem)
    ensures
        arg matches FnArg::Receiver(tokens) ==> arg.printed() == tokens@ && arg.listed()
            == tokens@,
        arg matches FnArg::Typed(pat) ==> {
            &&& arg.printed() == pat.printed()
            &&& !(pat.pat is Dots && pat.ty is Dots) ==> arg.listed() == pat.printed()
            &&& pat.pat is Dots && pat.ty is Dots ==> arg.listed() == printed_attrs(
                pat.attrs@,
                false,
                pat.attrs@.len(),
            ) + pat.pat->Dots_0@
        },
        item matches ImplItem::Method(m) ==> item.printed() == m.printed(),
        item matches ImplItem::Other(tokens) ==> item.printed() == tokens@,
{
}

/// A return type that is not written is not printed, and one that is written
/// stands behind an arrow.
pub proof fn law_return_types_follow_an_arrow(output: ReturnType)
    ensures
        output is Default <==> output.printed().len() == 0,
        output matches ReturnType::Type(ty) ==> {
            &&& output.printed()[0] == TokenView::Code("->"@)
            &&& output.printed().skip(1) == ty@
        },
{
    if let ReturnType::Type(ty) = output {
        assert(output.printed().skip(1) =~= ty@);
    }
}

/// The parameter takes any further arguments exactly where its type is dots.
pub proof fn law_dots_take_the_rest(arg: FnArg)
    ensures
        arg is Receiver ==> !arg.takes_rest(),
        arg matches FnArg::Typed(pat) ==> (arg.takes_rest() <==> pat.ty is Dots),
{
}

/// Dots behind a parameter list have one comma in front of them, or none where
/// the list is empty and ends with no comma. Where the last parameter holds the
/// dots, and where there are none, only a trailing comma is printed.
pub proof fn law_dots_stand_behind_one_comma(
    inputs: Seq<FnArg>,
    trailing: bool,
    variadic: Option<TokenStream>,
)
    ensures
        variadic is None || (inputs.len() > 0 && inputs.last().takes_rest()) ==> printed_rest(
            inputs,
            trailing,
            variadic,
        ).len() == if trailing {
            1int
        } else {
            0
        },
        variadic matches Some(dots) ==> {
            &&& inputs.len() > 0 && !inputs.last().takes_rest() ==> printed_rest(
                inputs,
                trailing,
                variadic,
            ) == seq![TokenView::Code(","@)] + dots@
            &&& inputs.len() == 0 && trailing ==> printed_rest(inputs, trailing, variadic)
                == seq![TokenView::Code(","@)] + dots@
            &&& inputs.len() == 0 && !trailing ==> printed_rest(inputs, trailing, variadic)
                == dots@
        },
        trailing ==> printed_rest(inputs, trailing, variadic)[0] == TokenView::Code(","@),
{
    if let Some(dots) = variadic {
        assert(Seq::<TokenView>::empty() + dots@ =~= dots@);
    }
}

/// What the holes of a printed [`PatType`] are filled with, in order.
pub open spec fn pat_type_holes(pat: PatType) -> Seq<Seq<TokenView>> {
    seq![
        printed_attrs(pat.attrs@, false, pat.attrs@.len()),
        pat.pat.printed(),
        pat.ty.printed(),
    ]
}

/// A parameter with a type is printed as its outer attributes, its pattern, a colon
/// and its type.
pub proof fn law_typed_parameters_print_their_parts(a: PatType, b: PatType)
    ensures
        same_template(
            a.printed(),
            pat_type_holes(a),
            b.printed(),
            pat_type_holes(b),
        ),
{
    let d = begin_hole(
        printed_attrs(a.attrs@, false, a.attrs@.len()),
        printed_attrs(b.attrs@, false, b.attrs@.len()),
    );
    let d = hole(d, a.pat.printed(), b.pat.printed());
    let d = text(d, code(":"@));
    let d = hole(d, a.ty.printed(), b.ty.printed());
    assert(d.holes_a =~= pat_type_holes(a));
    assert(d.holes_b =~= pat_type_holes(b));
}

/// A keyword, where it is written.
pub open spec fn keyword(written: Option<TokenStream>) -> Seq<TokenView> {
    match written {
        Some(tokens) => tokens@,
        None => Seq::empty(),
    }
}

/// What the holes of a printed [`Signature`] are filled with, in order.
pub open spec fn signature_holes(sig: Signature) -> Seq<Seq<TokenView>> {
    seq![
        sig.constness@,
        keyword(sig.asyncness),
        sig.unsafety@,
        sig.abi@,
        sig.ident.tokens@,
        sig.generics@,
        printed_inputs(inputs_of(sig.inputs), inputs_of(sig.inputs).len()),
        printed_rest(inputs_of(sig.inputs), trailing_comma(sig.inputs), sig.variadic),
        sig.output.printed(),
        sig.where_clause@,
    ]
}

/// A signature is printed as its qualifiers, the keyword `fn`, its name, its
/// generics, its parameters in brackets, its return type and its `where` clause.
pub proof fn law_signatures_print_their_parts(a: Signature, b: Signature)
    ensures
        same_template(
            a.printed(),
            signature_holes(a),
            b.printed(),
            signature_holes(b),
        ),
{
    let d = begin_hole(a.constness@, b.constness@);
    let d = hole(d, keyword(a.asyncness), keyword(b.asyncness));
    let d = hole(d, a.unsafety@, b.unsafety@);
    let d = hole(d, a.abi@, b.abi@);
    let d = text(d, code("fn"@));
    let d = hole(d, a.ident.tokens@, b.ident.tokens@);
    let d = hole(d, a.generics@, b.generics@);
    let d = text(d, code("("@));
    let d = hole(
        d,
        printed_inputs(inputs_of(a.inputs), inputs_of(a.inputs).len()),
        printed_inputs(inputs_of(b.inputs), inputs_of(b.inputs).len()),
    );
    let d = hole(
        d,
        printed_rest(inputs_of(a.inputs), trailing_comma(a.inputs), a.variadic),
        printed_rest(inputs_of(b.inputs), trailing_comma(b.inputs), b.variadic),
    );
    let d = text(d, code(")"@));
    let d = hole(d, a.output.printed(), b.output.printed());
    let d = hole(d, a.where_clause@, b.where_clause@);
    assert(d.holes_a =~= signature_holes(a));
    assert(d.holes_b =~= signature_holes(b));
}

/// The body of a method in its braces, with the inner attributes in front of the
/// statements, or what stands in place of the body.
pub open spec fn printed_body(m: Method) -> Seq<TokenView> {
    if m.block.bodiless {
        m.block.stmts@
    } else {
        code("{"@) + printed_attrs(m.attrs@, true, m.attrs@.len()) + m.block.stmts@ + code("}"@)
    }
}

/// What the holes of a printed [`Method`] are filled with, in order.
pub open spec fn method_holes(m: Method) -> Seq<Seq<TokenView>> {
    seq![
        printed_attrs(m.attrs@, false, m.attrs@.len()),
        m.vis@,
        m.defaultness@,
        m.sig.printed(),
        printed_body(m),
    ]
}

/// A method is printed as its outer attributes, its visibility, its signature and
/// its body. The inner attributes stand inside the body; a method without a body
/// ends with what stands in its place.
pub proof fn law_methods_print_their_parts(a: Method, b: Method)
    ensures
        same_template(
            a.printed(),
            method_holes(a),
            b.printed(),
            method_holes(b),
        ),
{
    let d = begin_hole(
        printed_attrs(a.attrs@, false, a.attrs@.len()),
        printed_attrs(b.attrs@, false, b.attrs@.len()),
    );
    let d = hole(d, a.vis@, b.vis@);
    let d = hole(d, a.defaultness@, b.defaultness@);
    let d = hole(d, a.sig.printed(), b.sig.printed());
    let d = hole(d, printed_body(a), printed_body(b));
    assert(d.holes_a =~= method_holes(a));
    assert(d.holes_b =~= method_holes(b));
}

/// What the holes of a printed [`ItemImpl`] are filled with, in order.
pub open spec fn block_holes(block: ItemImpl) -> Seq<Seq<TokenView>> {
    seq![
        printed_attrs(block.attrs@, false, block.attrs@.len()),
        block.defaultness@,
        block.unsafety@,
        block.generics@,
        block.trait_@,
        block.self_ty.printed(),
        block.where_clause@,
        printed_attrs(block.attrs@, true, block.attrs@.len()),
        printed_items(block.items@, block.items@.len()),
    ]
}

/// A block is printed as its outer attributes, its qualifiers, the keyword `impl`,
/// its generics, the trait, the type, its `where` clause, and in braces its inner
/// attributes and its items.
pub proof fn law_blocks_print_their_parts(a: ItemImpl, b: ItemImpl)
    ensures
        same_template(
            a.printed(),
            block_holes(a),
            b.printed(),
            block_holes(b),
        ),
{
    let d = begin_hole(
        printed_attrs(a.attrs@, false, a.attrs@.len()),
        printed_attrs(b.attrs@, false, b.attrs@.len()),
    );
    let d = hole(d, a.defaultness@, b.defaultness@);
    let d = hole(d, a.unsafety@, b.unsafety@);
    let d = text(d, code("impl"@));
    let d = hole(d, a.generics@, b.generics@);
    let d = hole(d, a.trait_@, b.trait_@);
    let d = hole(d, a.self_ty.printed(), b.self_ty.printed());
    let d = hole(d, a.where_clause@, b.where_clause@);
    let d = text(d, code("{"@));
    let d = hole(
        d,
        printed_attrs(a.attrs@, true, a.attrs@.len()),
        printed_attrs(b.attrs@, true, b.attrs@.len()),
    );
    let d = hole(
        d,
        printed_items(a.items@, a.items@.len()),
        printed_items(b.items@, b.items@.len()),
    );
    let d = text(d, code("}"@));
    assert(d.holes_a =~= block_holes(a));
    assert(d.holes_b =~= block_holes(b));
}

} // verus!
