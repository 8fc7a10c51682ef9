//! The case of the names that a schema shows.

use vstd::prelude::*;

verus! {

/// What `to_camel_case` of the `inflector` crate makes of a name.
pub uninterp spec fn camel_case(name: Seq<char>) -> Seq<char>;

/// Calls `inflector::Inflector::to_camel_case`, which looks at nothing but the
/// characters of `name`. The result is called [`camel_case`] of them; how it
/// splits a name into words is not stated.
#[verifier::external_body]
pub(crate) fn to_camel_case(name: &str) -> (r: String)
    ensures
        r@ == camel_case(name@),
{
    inflector::Inflector::to_camel_case(name)
}

} // verus!
