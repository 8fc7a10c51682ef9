//! What a resolver method returns.

use vstd::prelude::*;

use crate::tokens::TokenStream;

verus! {

/// The reading of a method's return type. Of either kind, `value_type` is the
/// type that the schema shows.
pub enum OutputType {
    /// The method returns the plain value type `inner`.
    Value { inner: TokenStream, value_type: TokenStream },
    /// The method already returns a result.
    Result { value_type: TokenStream },
}

impl OutputType {
    /// The type that the schema shows.
    pub open spec fn schema_type(self) -> TokenStream {
        match self {
            OutputType::Value { inner, value_type } => value_type,
            OutputType::Result { value_type } => value_type,
        }
    }

    /// The type that the schema shows.
    pub fn value_type(&self) -> (r: &TokenStream)
        ensures
            *r == self.schema_type(),
    {
        match self {
            OutputType::Value { inner: _, value_type } => value_type,
            OutputType::Result { value_type } => value_type,
        }
    }
}

} // verus!
