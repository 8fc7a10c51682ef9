//! Expansion of the `Object` attribute: turns the `impl` block of a GraphQL
//! object into the same block with rewritten resolver methods, followed by the
//! trait impls through which the object is registered, resolved and found.

pub mod args;
pub mod camel_case;
pub mod entity;
pub mod error;
pub mod field;
pub mod laws;
pub mod method;
pub mod object;
pub mod output_type;
pub mod params;
pub mod punctuated;
pub mod syntax;
pub mod tokens;
