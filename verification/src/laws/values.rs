//! What the mathematical values of the library's types hold.

use vstd::prelude::*;

use crate::args::DefaultValue;
use crate::camel_case::camel_case;
use crate::entity::{finder_views, Finder};
use crate::error::Error;
use crate::method::{no_parts, Parts};
use crate::output_type::OutputType;
use crate::params::{default_view, shown_name, views, Param};
use crate::tokens::{Token, TokenStream, TokenView};

verus! {

/// A stream holds its pieces in order, each as what it is.
pub proof fn law_streams_hold_their_pieces(stream: TokenStream, i: int)
    requires
        0 <= i < stream.tokens@.len(),
    ensures
        stream@.len() == stream.tokens@.len(),
        stream.tokens@[i] matches Token::Code(text) ==> stream@[i] == TokenView::Code(text@),
        stream.tokens@[i] matches Token::Str(value) ==> stream@[i] == TokenView::Str(value@),
        stream.tokens@[i] matches Token::Usize(value) ==> stream@[i] == TokenView::Usize(value),
{
}

/// An error holds its tokens and its message.
pub proof fn law_errors_hold_their_message(error: Error)
    ensures
        error@.tokens == error.tokens@,
        error@.message == error.message@,
{
}

/// A parameter holds what was read of it, and a list of parameters holds each of
/// them in its place.
pub proof fn law_parameters_hold_what_was_read(params: Seq<Param>, i: int)
    requires
        0 <= i < params.len(),
    ensures
        views(params).len() == params.len(),
        views(params)[i].name == params[i].name@,
        views(params)[i].ident == params[i].ident@,
        views(params)[i].ty == params[i].ty@,
        views(params)[i].desc == params[i].desc,
        views(params)[i].validator == params[i].validator@,
        views(params)[i].default is Some == params[i].default is Some,
        params[i].default matches Some(value) ==> {
            &&& views(params)[i].default->Some_0.text == value.text@
            &&& views(params)[i].default->Some_0.repr == value.repr@
        },
{
}

/// A default holds its text and its expression, and no default is none.
pub proof fn law_defaults_hold_what_was_read(default: Option<DefaultValue>)
    ensures
        default_view(default) is Some <==> default is Some,
        default matches Some(value) ==> {
            &&& default_view(default)->Some_0.text == value.text@
            &&& default_view(default)->Some_0.repr == value.repr@
        },
{
}

/// A list of lookups holds each of them in its place, with the keys that it needs
/// and its code.
pub proof fn law_lookups_hold_their_keys(finders: Seq<Finder>, i: int)
    requires
        0 <= i < finders.len(),
    ensures
        finder_views(finders).len() == finders.len(),
        finder_views(finders)[i].keys == finders[i].keys,
        finder_views(finders)[i].code == finders[i].code@,
{
}

/// The parts of a block hold each kind of code apart, and at first there is none.
pub proof fn law_parts_are_kept_apart(parts: Parts)
    ensures
        parts@.resolvers == parts.resolvers@,
        parts@.schema_fields == parts.schema_fields@,
        parts@.finders == finder_views(parts.finders@),
        parts@.add_keys == parts.add_keys@,
        parts@.create_types == parts.create_types@,
        no_parts().resolvers.len() == 0,
        no_parts().schema_fields.len() == 0,
        no_parts().finders.len() == 0,
        no_parts().add_keys.len() == 0,
        no_parts().create_types.len() == 0,
{
}

/// The schema shows the value type, whether the method returns the value or a
/// result of it.
pub proof fn law_the_schema_shows_the_value_type(output: OutputType)
    ensures
        output matches OutputType::Value { inner, value_type } ==> output.schema_type()
            == value_type,
        output matches OutputType::Result { value_type } ==> output.schema_type() == value_type,
{
}

/// A name that is given is shown as it is, whatever it is; where none is given,
/// the identifier is shown in camel case.
pub proof fn law_given_names_are_shown(given: Option<String>, ident: Seq<char>)
    ensures
        given matches Some(name) ==> shown_name(given, ident) == name@,
        given is None ==> shown_name(given, ident) == camel_case(ident),
{
}

} // verus!
