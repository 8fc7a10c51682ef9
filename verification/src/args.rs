//! What the attributes on an object, its methods and their parameters say.

use vstd::prelude::*;

use crate::error::Error;
use crate::output_type::OutputType;
use crate::tokens::TokenStream;

verus! {

/// How long and for whom a result may be cached.
pub struct CacheControl {
    pub public: bool,
    pub max_age: usize,
}

/// The attribute on the `impl` block.
pub struct Object {
    /// Whether the block belongs to the runtime crate itself.
    pub internal: bool,
    /// The name in the schema, where it is not that of the type.
    pub name: Option<String>,
    pub desc: Option<String>,
    pub cache_control: CacheControl,
    /// Whether the object extends one of another service.
    pub extends: bool,
}

/// The `entity` attribute on a method.
pub struct Entity {
    /// An expression that guards the lookup.
    pub guard: Option<TokenStream>,
}

/// The `field` attribute on a method.
pub struct Field {
    /// The name in the schema, where it is not made from that of the method.
    pub name: Option<String>,
    pub desc: Option<String>,
    pub deprecation: Option<String>,
    pub external: bool,
    pub provides: Option<String>,
    /// The fields that the resolver requires from another service.
    pub requires_: Option<String>,
    pub cache_control: CacheControl,
    /// An expression that guards the field.
    pub guard: Option<TokenStream>,
}

/// The default of a parameter.
pub struct DefaultValue {
    /// The value as the schema shows it.
    pub text: String,
    /// An expression for the value.
    pub repr: TokenStream,
}

/// The `arg` attribute on a parameter.
pub struct Argument {
    /// The name in the schema, where it is not made from that of the parameter.
    pub name: Option<String>,
    pub desc: Option<String>,
    pub default: Option<DefaultValue>,
    /// An expression for the validator, of an `Option` type.
    pub validator: TokenStream,
}

/// The readings of a method as it was written, each with the error that
/// reading it gave.
pub struct MethodArgs {
    /// The `entity` attribute, where there is one.
    pub entity: Result<Option<Entity>, Error>,
    /// The `field` attribute, where the method is a field.
    pub field: Result<Option<Field>, Error>,
    /// The return type. Counts only where one is written.
    pub output: Result<OutputType, Error>,
    /// The attributes of the parameters, one entry for each of them.
    pub arguments: Vec<Result<Argument, Error>>,
}

} // verus!
