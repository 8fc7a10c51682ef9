//! The expansion of one method: whether it is an entity, a field or neither,
//! why it is refused, how it is rewritten, and what code stands behind it.

use vstd::prelude::*;

use crate::args::{Entity, Field};
use crate::entity::{add_keys, create_type, find, join_names, Finder};
use crate::entity::{add_keys_code, create_type_code, find_code, finder_views, joined, FinderView};
use crate::error::{Error, ErrorView};
use crate::field::{resolver, schema_field};
use crate::field::{resolver_code, schema_field_code};
use crate::output_type::OutputType;
use crate::params::{
    accepted, cleared, input_error, inputs_rewritten, inputs_wf, params, shown_name, views,
};
use crate::params::{clear_attrs, read_inputs, rewrite_inputs, schema_name};
use crate::params::{Param, ParamView, Refusal};
use crate::punctuated::inputs_len;
use crate::punctuated::{inputs_of, trailing_comma};
use crate::syntax::{Attribute, Block, Method, ReturnType};
use crate::tokens::{code, nothing, TokenStream, TokenView};

verus! {

/// A well-formed method: one reading stands beside each of its parameters.
pub open spec fn method_wf(m: Method) -> bool {
    inputs_wf(inputs_of(m.sig.inputs), m.args.arguments@)
}

/// The method looks an entity up.
pub open spec fn is_entity(m: Method) -> bool {
    m.args.entity matches Ok(Some(_))
}

/// The method resolves a field.
pub open spec fn is_field(m: Method) -> bool {
    m.args.entity matches Ok(None) && m.args.field matches Ok(Some(_))
}

/// The error that the return type gives, if it gives one.
pub open spec fn output_error(m: Method) -> Option<ErrorView> {
    match m.sig.output {
        ReturnType::Default => Some(
            ErrorView { tokens: m.sig.output.printed(), message: "Missing type"@ },
        ),
        ReturnType::Type(_) => match m.args.output {
            Ok(_) => None,
            Err(error) => Some(error@),
        },
    }
}

/// How many parameters stand before the first refused one.
pub open spec fn accepted_inputs(m: Method) -> nat {
    accepted(inputs_of(m.sig.inputs), m.args.arguments@, inputs_of(m.sig.inputs).len())
}

/// The error that the parameters give, if they give one.
pub open spec fn inputs_error(m: Method) -> Option<ErrorView> {
    if accepted_inputs(m) == inputs_of(m.sig.inputs).len() {
        None
    } else {
        input_error(inputs_of(m.sig.inputs), m.args.arguments@, accepted_inputs(m) as int)
    }
}

/// The error that is found before the parameters are looked at, if there is
/// one: an attribute that cannot be read, a field that is not asynchronous, or
/// a return type that is missing or cannot be read.
pub open spec fn early_error(m: Method) -> Option<ErrorView> {
    match m.args.entity {
        Err(error) => Some(error@),
        Ok(Some(_)) => output_error(m),
        Ok(None) => match m.args.field {
            Err(error) => Some(error@),
            Ok(Some(_)) => if m.sig.asyncness is None {
                Some(ErrorView { tokens: m.printed(), message: "Must be asynchronous"@ })
            } else {
                output_error(m)
            },
            Ok(None) => None,
        },
    }
}

/// The error with which the method is refused, if it is.
pub open spec fn method_error(m: Method) -> Option<ErrorView> {
    if early_error(m) is Some {
        early_error(m)
    } else if is_entity(m) || is_field(m) {
        inputs_error(m)
    } else {
        None
    }
}

/// The position of the first attribute of that name from position `i` on, or
/// the number of attributes.
pub open spec fn first_named(attrs: Seq<Attribute>, name: Seq<char>, i: nat) -> nat
    decreases attrs.len() - i,
{
    if i >= attrs.len() {
        attrs.len()
    } else if attrs[i as int].path.names(name) {
        i
    } else {
        first_named(attrs, name, i + 1)
    }
}

/// The attributes without the first one of that name.
pub open spec fn without_first(attrs: Seq<Attribute>, name: Seq<char>) -> Seq<Attribute> {
    if first_named(attrs, name, 0) < attrs.len() {
        attrs.remove(first_named(attrs, name, 0) as int)
    } else {
        attrs
    }
}

/// A resolver that is not refused and still cannot be expanded: it has no
/// parameter behind which the context could stand, or it was read as an entity
/// and has no `entity` attribute.
pub open spec fn is_broken(m: Method) -> bool {
    &&& method_error(m) is None
    &&& is_entity(m) || is_field(m)
    &&& inputs_of(m.sig.inputs).len() == 0 || (is_entity(m) && first_named(
        m.attrs@,
        "entity"@,
        0,
    ) == m.attrs@.len())
}

/// The arguments of the field or the keys of the entity.
pub open spec fn method_params(m: Method) -> Seq<ParamView> {
    params(inputs_of(m.sig.inputs), m.args.arguments@, inputs_of(m.sig.inputs).len())
}

/// The body that makes a result of the value that `stmts` ends in.
pub open spec fn wrapped_stmts(inner: Seq<TokenView>, stmts: Seq<TokenView>) -> Seq<TokenView> {
    code("{ let value:"@) + inner + code("= async move {"@) + stmts + code(
        "}.await; Ok(value) }"@,
    )
}

/// The result type around a value type.
pub open spec fn result_type(krate: Seq<char>, inner: Seq<TokenView>) -> Seq<TokenView> {
    code(krate) + code("::FieldResult<"@) + inner + code(">"@)
}

/// `b` has the body and the return type that the rewritten method has in place
/// of those of `a`: where `a` returns a plain value, `b` returns it as a result.
pub open spec fn body_rewritten(krate: Seq<char>, a: Method, b: Method) -> bool {
    match a.args.output {
        Ok(OutputType::Value { inner, value_type }) => {
            &&& b.block.stmts@ == wrapped_stmts(inner@, a.block.stmts@)
            &&& !b.block.bodiless
            &&& b.sig.output matches ReturnType::Type(ty)
            &&& ty@ == result_type(krate, inner@)
        },
        _ => b.block == a.block && b.sig.output == a.sig.output,
    }
}

/// `a` and `b` agree on all that no expansion touches.
pub open spec fn same_frame(a: Method, b: Method) -> bool {
    &&& b.vis == a.vis
    &&& b.defaultness == a.defaultness
    &&& b.sig.constness == a.sig.constness
    &&& b.sig.asyncness == a.sig.asyncness
    &&& b.sig.unsafety == a.sig.unsafety
    &&& b.sig.abi == a.sig.abi
    &&& b.sig.ident == a.sig.ident
    &&& b.sig.generics == a.sig.generics
    &&& b.sig.variadic == a.sig.variadic
    &&& b.sig.where_clause == a.sig.where_clause
    &&& b.args == a.args
}

/// `b` is the method that stands in place of `a` once it is expanded.
pub open spec fn rewritten(krate: Seq<char>, a: Method, b: Method) -> bool {
    &&& same_frame(a, b)
    &&& b.attrs@ == without_first(
        a.attrs@,
        if is_entity(a) {
            "entity"@
        } else {
            "field"@
        },
    )
    &&& if is_entity(a) || is_field(a) {
        &&& inputs_rewritten(krate, a.sig.inputs, b.sig.inputs)
        &&& body_rewritten(krate, a, b)
    } else {
        &&& b.sig.inputs == a.sig.inputs
        &&& b.sig.output == a.sig.output
        &&& b.block == a.block
    }
}

/// `b` is what is left of `a` once it is refused: the arguments in front of a
/// refused parameter have lost their attributes.
pub open spec fn refused(a: Method, b: Method) -> bool {
    &&& same_frame(a, b)
    &&& b.attrs == a.attrs
    &&& b.sig.output == a.sig.output
    &&& b.block == a.block
    &&& cleared(
        inputs_of(a.sig.inputs),
        inputs_of(b.sig.inputs),
        if early_error(a) is Some {
            0
        } else {
            accepted_inputs(a) as int
        },
    )
    &&& trailing_comma(b.sig.inputs) == trailing_comma(a.sig.inputs)
}

/// The pieces of code that the methods of a block contribute.
pub struct Parts {
    /// Statements that resolve the fields.
    pub resolvers: TokenStream,
    /// Statements that enter the fields into the schema.
    pub schema_fields: TokenStream,
    /// Statements that look the entities up.
    pub finders: Vec<Finder>,
    /// Statements that register the keys of the entities.
    pub add_keys: TokenStream,
    /// Statements that register the types of the entities.
    pub create_types: TokenStream,
}

/// The mathematical value of [`Parts`].
pub struct PartsView {
    pub resolvers: Seq<TokenView>,
    pub schema_fields: Seq<TokenView>,
    pub finders: Seq<FinderView>,
    pub add_keys: Seq<TokenView>,
    pub create_types: Seq<TokenView>,
}

impl View for Parts {
    type V = PartsView;

    open spec fn view(&self) -> PartsView {
        PartsView {
            resolvers: self.resolvers@,
            schema_fields: self.schema_fields@,
            finders: finder_views(self.finders@),
            add_keys: self.add_keys@,
            create_types: self.create_types@,
        }
    }
}

/// No code.
pub open spec fn no_parts() -> PartsView {
    PartsView {
        resolvers: nothing(),
        schema_fields: nothing(),
        finders: Seq::empty(),
        add_keys: nothing(),
        create_types: nothing(),
    }
}

/// The parts with those of an entity behind them.
pub open spec fn with_entity(
    krate: Seq<char>,
    ident: Seq<TokenView>,
    entity: Entity,
    ty: Seq<TokenView>,
    ps: Seq<ParamView>,
    parts: PartsView,
) -> PartsView {
    PartsView {
        finders: parts.finders.push(
            FinderView { keys: ps.len(), code: find_code(krate, ty, entity.guard, ps, ident) },
        ),
        add_keys: parts.add_keys + add_keys_code(krate, ty, joined(ps, ps.len())),
        create_types: parts.create_types + create_type_code(krate, ty),
        ..parts
    }
}

/// The parts with those of a field behind them.
pub open spec fn with_field(
    krate: Seq<char>,
    name: Seq<char>,
    ident: Seq<TokenView>,
    field: Field,
    ty: Seq<TokenView>,
    ps: Seq<ParamView>,
    parts: PartsView,
) -> PartsView {
    PartsView {
        resolvers: parts.resolvers + resolver_code(krate, name, field.guard, ps, ident),
        schema_fields: parts.schema_fields + schema_field_code(krate, name, field, ps, ty),
        ..parts
    }
}

/// The parts with those of a method that is not refused behind them.
pub open spec fn with_method(krate: Seq<char>, m: Method, parts: PartsView) -> PartsView {
    if is_entity(m) {
        with_entity(
            krate,
            m.sig.ident.tokens@,
            m.args.entity->Ok_0->Some_0,
            m.args.output->Ok_0.schema_type()@,
            method_params(m),
            parts,
        )
    } else if is_field(m) {
        with_field(
            krate,
            shown_name(m.args.field->Ok_0->Some_0.name, m.sig.ident.name@),
            m.sig.ident.tokens@,
            m.args.field->Ok_0->Some_0,
            m.args.output->Ok_0.schema_type()@,
            method_params(m),
            parts,
        )
    } else {
        parts
    }
}

impl Parts {
    /// No code.
    pub fn new() -> (r: Parts)
        ensures
            r@ == no_parts(),
    {
        let r = Parts {
            resolvers: TokenStream::new(),
            schema_fields: TokenStream::new(),
            finders: Vec::new(),
            add_keys: TokenStream::new(),
            create_types: TokenStream::new(),
        };
        assert(r@.finders =~= no_parts().finders);
        r
    }

    /// Adds the code of an entity.
    pub fn add_entity(
        &mut self,
        krate: &str,
        ident: &TokenStream,
        entity: &Entity,
        ty: &TokenStream,
        ps: &Vec<Param>,
    )
        ensures
            final(self)@ == with_entity(krate@, ident@, *entity, ty@, views(ps@), old(self)@),
    {
        let ghost before = self.finders@;
        self.finders.push(Finder { keys: ps.len(), code: find(krate, ty, &entity.guard, ps, ident) });
        assert(finder_views(self.finders@) =~= finder_views(before).push(
            self.finders@.last()@,
        ));
        let keys = join_names(ps);
        self.add_keys.append(add_keys(krate, ty, keys.as_str()));
        self.create_types.append(create_type(krate, ty));
    }

    /// Adds the code of a field of the given name.
    pub fn add_field(
        &mut self,
        krate: &str,
        name: &str,
        ident: &TokenStream,
        field: &Field,
        ty: &TokenStream,
        ps: &Vec<Param>,
    )
        ensures
            final(self)@ == with_field(
                krate@,
                name@,
                ident@,
                *field,
                ty@,
                views(ps@),
                old(self)@,
            ),
    {
        self.resolvers.append(resolver(krate, name, &field.guard, ps, ident));
        self.schema_fields.append(schema_field(krate, name, field, ps, ty));
    }
}

fn check_output(m: &Method) -> (r: Option<Error>)
    ensures
        match r {
            Some(error) => output_error(*m) == Some(error@),
            None => output_error(*m) is None,
        },
{
    match &m.sig.output {
        ReturnType::Default => Some(Error::new_spanned(m.sig.output.print(), "Missing type")),
        ReturnType::Type(_) => match &m.args.output {
            Ok(_) => None,
            Err(error) => Some(error.copy()),
        },
    }
}

fn check_early(m: &Method) -> (r: Option<Error>)
    ensures
        match r {
            Some(error) => early_error(*m) == Some(error@),
            None => early_error(*m) is None,
        },
{
    match &m.args.entity {
        Err(error) => Some(error.copy()),
        Ok(Some(_)) => check_output(m),
        Ok(None) => match &m.args.field {
            Err(error) => Some(error.copy()),
            Ok(Some(_)) => if m.sig.asyncness.is_none() {
                Some(Error::new_spanned(m.print(), "Must be asynchronous"))
            } else {
                check_output(m)
            },
            Ok(None) => None,
        },
    }
}

fn is_resolver(m: &Method) -> (r: bool)
    ensures
        r == (is_entity(*m) || is_field(*m)),
{
    match &m.args.entity {
        Err(_) => false,
        Ok(Some(_)) => true,
        Ok(None) => match &m.args.field {
            Ok(Some(_)) => true,
            _ => false,
        },
    }
}

/// Reads a method: the parameters of a resolver, no parameters where it is
/// none, or the refusal with the number of parameters that were accepted.
fn read_method(m: &Method) -> (r: Result<Vec<Param>, Refusal>)
    requires
        method_wf(*m),
    ensures
        match r {
            Ok(ps) => method_error(*m) is None && (is_entity(*m) || is_field(*m) ==> views(ps@)
                == method_params(*m)),
            Err(refusal) => method_error(*m) == Some(refusal.error@) && refusal.index == (
            if early_error(*m) is Some {
                0
            } else {
                accepted_inputs(*m)
            }) && refusal.index <= inputs_of(m.sig.inputs).len(),
        },
{
    if let Some(error) = check_early(m) {
        return Err(Refusal { index: 0, error });
    }
    if is_resolver(m) {
        read_inputs(&m.sig.inputs, &m.args.arguments)
    } else {
        Ok(Vec::new())
    }
}

fn position(attrs: &Vec<Attribute>, name: &str) -> (r: usize)
    ensures
        r == first_named(attrs@, name@, 0),
        r <= attrs@.len(),
{
    let mut i: usize = 0;
    while i < attrs.len() && !attrs[i].path.is_ident(name)
        invariant
            i <= attrs.len(),
            first_named(attrs@, name@, 0) == first_named(attrs@, name@, i as nat),
        decreases attrs.len() - i,
    {
        i += 1;
    }
    i
}

/// Takes the first attribute of that name away, where there is one.
pub fn remove_first(attrs: &mut Vec<Attribute>, name: &str)
    ensures
        final(attrs)@ == without_first(old(attrs)@, name@),
{
    let i: usize = position(attrs, name);
    if i < attrs.len() {
        attrs.remove(i);
    }
}

fn rewrite_body(krate: &str, m: &mut Method)
    ensures
        body_rewritten(krate@, *old(m), *final(m)),
        same_frame(*old(m), *final(m)),
        final(m).attrs == old(m).attrs,
        final(m).sig.inputs == old(m).sig.inputs,
{
    let replacement = match &m.args.output {
        Ok(OutputType::Value { inner, value_type: _ }) => Some(
            (
                TokenStream::of("{ let value:").stream(inner).code("= async move {").stream(
                    &m.block.stmts,
                ).code("}.await; Ok(value) }"),
                TokenStream::of(krate).code("::FieldResult<").stream(inner).code(">"),
            ),
        ),
        _ => None,
    };
    if let Some((stmts, ty)) = replacement {
        m.block = Block { stmts, bodiless: false };
        m.sig.output = ReturnType::Type(ty);
    }
}

/// Whether a method can be expanded or is refused, so that [`expand_method`]
/// may be called on it.
pub fn is_sound(m: &Method) -> (r: bool)
    requires
        method_wf(*m),
    ensures
        r == !is_broken(*m),
{
    if read_method(m).is_err() || !is_resolver(m) {
        return true;
    }
    if inputs_len(&m.sig.inputs) == 0 {
        return false;
    }
    match &m.args.entity {
        Ok(Some(_)) => position(&m.attrs, "entity") < m.attrs.len(),
        _ => true,
    }
}

/// Whether a method is refused.
pub fn is_refused(m: &Method) -> (r: bool)
    requires
        method_wf(*m),
    ensures
        r == (method_error(*m) is Some),
{
    read_method(m).is_err()
}

/// Rewrites a method in place and adds its code to the parts, or refuses it.
pub fn expand_method(krate: &str, m: &mut Method, parts: &mut Parts) -> (r: Result<(), Error>)
    requires
        method_wf(*old(m)),
        !is_broken(*old(m)),
    ensures
        match r {
            Ok(_) => {
                &&& method_error(*old(m)) is None
                &&& rewritten(krate@, *old(m), *final(m))
                &&& final(parts)@ == with_method(krate@, *old(m), old(parts)@)
            },
            Err(error) => {
                &&& method_error(*old(m)) == Some(error@)
                &&& refused(*old(m), *final(m))
                &&& *final(parts) == *old(parts)
            },
        },
{
    let ps = match read_method(m) {
        Ok(ps) => ps,
        Err(refusal) => {
            clear_attrs(&mut m.sig.inputs, refusal.index);
            return Err(refusal.error);
        },
    };
    if let Ok(Some(entity)) = &m.args.entity {
        if let Ok(output) = &m.args.output {
            parts.add_entity(krate, &m.sig.ident.tokens, entity, output.value_type(), &ps);
        }
        rewrite_inputs(krate, &mut m.sig.inputs);
        rewrite_body(krate, m);
        remove_first(&mut m.attrs, "entity");
    } else {
        if let Ok(Some(field)) = &m.args.field {
            if let Ok(output) = &m.args.output {
                let name = schema_name(&field.name, m.sig.ident.name.as_str());
                parts.add_field(
                    krate,
                    name.as_str(),
                    &m.sig.ident.tokens,
                    field,
                    output.value_type(),
                    &ps,
                );
            }
            rewrite_inputs(krate, &mut m.sig.inputs);
            rewrite_body(krate, m);
        }
        remove_first(&mut m.attrs, "field");
    }
    Ok(())
}

} // verus!
