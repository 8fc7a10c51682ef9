//! The punctuated sequences of `syn` that hold the parameters of a method and
//! the segments of a path.

use vstd::prelude::*;

use syn::punctuated::Punctuated;
use syn::token::{Colon2, Comma};

use crate::syntax::{FnArg, PathSegment};

verus! {

/// A sequence of nodes with punctuation between them, and possibly behind the
/// last one.
#[verifier::external_type_specification]
#[verifier::external_body]
#[verifier::reject_recursive_types(T)]
#[verifier::reject_recursive_types(P)]
pub struct ExPunctuated<T, P>(syn::punctuated::Punctuated<T, P>);

/// The token `,`.
#[verifier::external_type_specification]
#[verifier::external_body]
pub struct ExComma(syn::token::Comma);

/// The token `::`.
#[verifier::external_type_specification]
#[verifier::external_body]
pub struct ExColon2(syn::token::Colon2);

/// The parameters that a parameter list holds, in order.
pub uninterp spec fn inputs_of(inputs: Punctuated<FnArg, Comma>) -> Seq<FnArg>;

/// Whether a comma stands behind the last parameter of the list.
pub uninterp spec fn trailing_comma(inputs: Punctuated<FnArg, Comma>) -> bool;

/// The segments that a path holds, in order.
pub uninterp spec fn segments_of(segments: Punctuated<PathSegment, Colon2>) -> Seq<PathSegment>;

/// Calls `Punctuated::len`: the number of nodes, punctuation not counted.
#[verifier::external_body]
pub(crate) fn inputs_len(inputs: &Punctuated<FnArg, Comma>) -> (r: usize)
    ensures
        r == inputs_of(*inputs).len(),
{
    inputs.len()
}

/// Calls `Punctuated::index`: the node at a position that there is.
#[verifier::external_body]
pub(crate) fn input(inputs: &Punctuated<FnArg, Comma>, index: usize) -> (r: &FnArg)
    requires
        index < inputs_of(*inputs).len(),
    ensures
        *r == inputs_of(*inputs)[index as int],
{
    &inputs[index]
}

/// Calls `Punctuated::index_mut`: what is written through the result replaces
/// the node at that position; nothing else changes.
#[verifier::external_body]
pub(crate) fn input_mut(inputs: &mut Punctuated<FnArg, Comma>, index: usize) -> (r: &mut FnArg)
    requires
        index < inputs_of(*old(inputs)).len(),
    ensures
        *r == inputs_of(*old(inputs))[index as int],
        inputs_of(*final(inputs)) == inputs_of(*old(inputs)).update(index as int, *final(r)),
        trailing_comma(*final(inputs)) == trailing_comma(*old(inputs)),
{
    &mut inputs[index]
}

/// Calls `Punctuated::insert`: the nodes from `index` on move up by one. At the
/// end the new node takes a trailing comma in front of it, elsewhere the last
/// node keeps its own. A position behind the end would panic.
#[verifier::external_body]
pub(crate) fn insert_input(inputs: &mut Punctuated<FnArg, Comma>, index: usize, value: FnArg)
    requires
        index <= inputs_of(*old(inputs)).len(),
    ensures
        inputs_of(*final(inputs)) == inputs_of(*old(inputs)).insert(index as int, value),
        trailing_comma(*final(inputs)) == (index < inputs_of(*old(inputs)).len()
            && trailing_comma(*old(inputs))),
{
    inputs.insert(index, value);
}

/// Calls `Punctuated::trailing_punct`: whether punctuation stands at the end.
#[verifier::external_body]
pub(crate) fn has_trailing_comma(inputs: &Punctuated<FnArg, Comma>) -> (r: bool)
    ensures
        r == trailing_comma(*inputs),
{
    inputs.trailing_punct()
}

/// Calls `Punctuated::len`: the number of nodes, punctuation not counted.
#[verifier::external_body]
pub(crate) fn segments_len(segments: &Punctuated<PathSegment, Colon2>) -> (r: usize)
    ensures
        r == segments_of(*segments).len(),
{
    segments.len()
}

/// Calls `Punctuated::last`: the last node, where there is one.
#[verifier::external_body]
pub(crate) fn last_segment(segments: &Punctuated<PathSegment, Colon2>) -> (r: Option<&PathSegment>)
    ensures
        match r {
            Some(segment) => segments_of(*segments).len() > 0 && *segment == segments_of(
                *segments,
            ).last(),
            None => segments_of(*segments).len() == 0,
        },
{
    segments.last()
}

/// Calls `Punctuated::from_iter`: a sequence of the given nodes.
#[verifier::external_body]
pub(crate) fn collect_segments(segments: Vec<PathSegment>) -> (r: Punctuated<PathSegment, Colon2>)
    ensures
        segments_of(r) == segments@,
{
    Punctuated::from_iter(segments)
}

} // verus!
