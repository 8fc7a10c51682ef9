//! The generated code: each piece of it is a template whose holes are filled
//! with what it is made from, and each label has its own value behind it.

use vstd::prelude::*;

use crate::args::{CacheControl, Field, Object};
use crate::entity::{
    add_keys_code, create_type_code, entity_guard, find_code, key_getter, key_getters, key_pattern,
    key_patterns, search_order, FinderView,
};
use crate::field::{
    cache_code, default_text, field_guard, get_param, get_params, idents, missing_value,
    resolver_code, schema_arg, schema_args, schema_field_code,
};
use crate::method::{result_type, wrapped_stmts, PartsView};
use crate::object::{lookups, object_impl_code, output_impl_code, type_impl_code};
use crate::params::{DefaultView, ParamView};
use crate::syntax::ItemImpl;
use crate::tokens::{
    code, flag, nothing, number, optional_string, string, TokenStream, TokenView,
};

use super::lists::{codes, law_every_lookup_is_printed};
use super::template::{
    begin, begin_entry, begin_hole, begin_page, entry, go_on, hole, labelled, same_template, text,
};

verus! {

/// Text, literals and flags are one token each, and that token is what they
/// are made from.
pub proof fn law_tokens_say_what_they_are_made_from(
    text: Seq<char>,
    value: usize,
    is_so: bool,
    given: Option<String>,
)
    ensures
        nothing().len() == 0,
        code(text).len() == 1,
        code(text)[0] == TokenView::Code(text),
        string(text).len() == 1,
        string(text)[0] == TokenView::Str(text),
        number(value).len() == 1,
        number(value)[0] == TokenView::Usize(value),
        flag(is_so).len() == 1,
        is_so ==> flag(is_so)[0] == TokenView::Code("true"@),
        !is_so ==> flag(is_so)[0] == TokenView::Code("false"@),
        given is None ==> optional_string(given) == seq![TokenView::Code("None"@)],
        given matches Some(s) ==> optional_string(given) == seq![
            TokenView::Code("Some("@),
            TokenView::Str(s@),
            TokenView::Code(")"@),
        ],
{
}

/// A guard that is given is checked first, and its failure is reported at the
/// place that the query asks about; where no guard is given, nothing is checked.
pub proof fn law_guards_are_checked(guard: Option<TokenStream>)
    ensures
        guard is None ==> field_guard(guard).len() == 0 && entity_guard(guard).len() == 0,
        guard matches Some(check) ==> {
            &&& field_guard(guard).drop_last() == check@
            &&& entity_guard(guard).drop_last() == check@
            &&& field_guard(guard).last() == TokenView::Code(
                ".check(ctx).await.map_err(|err| err.into_error_with_path(ctx.position, ctx.path_node.as_ref().unwrap().to_json()))?;"@,
            )
            &&& entity_guard(guard).last() == TokenView::Code(
                ".check(ctx).await.map_err(|err| err.into_error(pos))?;"@,
            )
        },
{
    if let Some(check) = guard {
        assert(field_guard(guard).drop_last() =~= check@);
        assert(entity_guard(guard).drop_last() =~= check@);
    }
}

/// The schema shows the default of an argument as a string, and an argument that
/// is not given has the value of its default. Without a default the schema shows
/// none, and the value is null.
pub proof fn law_defaults_are_shown_and_used(krate: Seq<char>, default: Option<DefaultView>)
    ensures
        default is None ==> {
            &&& default_text(default) == seq![TokenView::Code("None"@)]
            &&& missing_value(krate, default) == seq![
                TokenView::Code(krate),
                TokenView::Code("::Value::Null"@),
            ]
        },
        default matches Some(value) ==> {
            &&& default_text(default) == seq![
                TokenView::Code("Some("@),
                TokenView::Str(value.text),
                TokenView::Code(")"@),
            ]
            &&& missing_value(krate, default) == value.repr
        },
{
}

/// What the holes of [`cache_code`] are filled with, in order.
pub open spec fn cache_holes(krate: Seq<char>, cache: CacheControl) -> Seq<Seq<TokenView>> {
    seq![
        code(krate),
        flag(cache.public),
        number(cache.max_age),
    ]
}

/// An expression for a cache policy shows the crate, whether the policy is public,
/// and its age, and depends on nothing else.
pub proof fn law_cache_policies_differ_in_their_settings(
    krate_a: Seq<char>,
    cache_a: CacheControl,
    krate_b: Seq<char>,
    cache_b: CacheControl,
)
    ensures
        same_template(
            cache_code(krate_a, cache_a),
            cache_holes(krate_a, cache_a),
            cache_code(krate_b, cache_b),
            cache_holes(krate_b, cache_b),
        ),
{
    let d = begin_hole(code(krate_a), code(krate_b));
    let d = text(d, code("::CacheControl { public:"@));
    let d = hole(d, flag(cache_a.public), flag(cache_b.public));
    let d = text(d, code(", max_age:"@));
    let d = hole(d, number(cache_a.max_age), number(cache_b.max_age));
    let d = text(d, code(", }"@));
    assert(d.holes_a =~= cache_holes(krate_a, cache_a));
    assert(d.holes_b =~= cache_holes(krate_b, cache_b));
}

/// In a cache policy `public:` is followed by whether it is public, and
/// `max_age:` by its age.
pub proof fn law_cache_policy_labels(
    krate: Seq<char>,
    cache: CacheControl,
)
    ensures
        labelled(
            cache_code(krate, cache),
            "::CacheControl { public:"@,
            seq![TokenView::Code(if cache.public { "true"@ } else { "false"@ })],
        ),
        labelled(cache_code(krate, cache), ", max_age:"@, seq![TokenView::Usize(cache.max_age)]),
{
    let page = begin_page(code(krate));
    let page = entry(page, "::CacheControl { public:"@, flag(cache.public));
    let page = entry(page, ", max_age:"@, number(cache.max_age));
    let page = go_on(page, code(", }"@));
    assert(page.labels[0].0 == "::CacheControl { public:"@);
    assert(page.labels[1].0 == ", max_age:"@);
}

/// What the holes of [`schema_arg`] are filled with, in order.
pub open spec fn schema_arg_holes(krate: Seq<char>, p: ParamView) -> Seq<Seq<TokenView>> {
    seq![
        string(p.name),
        code(krate),
        string(p.name),
        optional_string(p.desc),
        p.ty,
        code(krate),
        default_text(p.default),
        p.validator,
    ]
}

/// The entry of an argument shows its name twice, its description, its type, its
/// default and its validator, and depends on nothing else but the crate.
pub proof fn law_schema_arguments_differ_in_what_they_show(
    krate_a: Seq<char>,
    p_a: ParamView,
    krate_b: Seq<char>,
    p_b: ParamView,
)
    ensures
        same_template(
            schema_arg(krate_a, p_a),
            schema_arg_holes(krate_a, p_a),
            schema_arg(krate_b, p_b),
            schema_arg_holes(krate_b, p_b),
        ),
{
    let d = begin(code("args.insert("@));
    let d = hole(d, string(p_a.name), string(p_b.name));
    let d = text(d, code(","@));
    let d = hole(d, code(krate_a), code(krate_b));
    let d = text(d, code("::registry::InputValue { name:"@));
    let d = hole(d, string(p_a.name), string(p_b.name));
    let d = text(d, code(", description:"@));
    let d = hole(d, optional_string(p_a.desc), optional_string(p_b.desc));
    let d = text(d, code(", ty: <"@));
    let d = hole(d, p_a.ty, p_b.ty);
    let d = text(d, code("as"@));
    let d = hole(d, code(krate_a), code(krate_b));
    let d = text(d, code("::Type>::create_type_info(registry)"@));
    let d = text(d, code(", default_value:"@));
    let d = hole(d, default_text(p_a.default), default_text(p_b.default));
    let d = text(d, code(", validator:"@));
    let d = hole(d, p_a.validator, p_b.validator);
    let d = text(d, code(", });"@));
    assert(d.holes_a =~= schema_arg_holes(krate_a, p_a));
    assert(d.holes_b =~= schema_arg_holes(krate_b, p_b));
}

/// In the entry of an argument each label is followed by its own value.
pub proof fn law_schema_argument_labels(
    krate: Seq<char>,
    p: ParamView,
)
    ensures
        labelled(schema_arg(krate, p), "args.insert("@, string(p.name)),
        labelled(schema_arg(krate, p), "::registry::InputValue { name:"@, string(p.name)),
        labelled(schema_arg(krate, p), ", description:"@, optional_string(p.desc)),
        labelled(schema_arg(krate, p), ", ty: <"@, p.ty),
        labelled(schema_arg(krate, p), ", default_value:"@, default_text(p.default)),
        labelled(schema_arg(krate, p), ", validator:"@, p.validator),
{
    let page = begin_entry("args.insert("@, string(p.name));
    let page = go_on(page, code(","@));
    let page = go_on(page, code(krate));
    let page = entry(page, "::registry::InputValue { name:"@, string(p.name));
    let page = entry(page, ", description:"@, optional_string(p.desc));
    let page = entry(page, ", ty: <"@, p.ty);
    let page = go_on(page, code("as"@));
    let page = go_on(page, code(krate));
    let page = go_on(page, code("::Type>::create_type_info(registry)"@));
    let page = entry(page, ", default_value:"@, default_text(p.default));
    let page = entry(page, ", validator:"@, p.validator);
    let page = go_on(page, code(", });"@));
    assert(page.labels[0].0 == "args.insert("@);
    assert(page.labels[1].0 == "::registry::InputValue { name:"@);
    assert(page.labels[2].0 == ", description:"@);
    assert(page.labels[3].0 == ", ty: <"@);
    assert(page.labels[4].0 == ", default_value:"@);
    assert(page.labels[5].0 == ", validator:"@);
}

/// What the holes of [`schema_field_code`] are filled with, in order.
pub open spec fn schema_field_holes(
    krate: Seq<char>,
    name: Seq<char>,
    field: Field,
    ps: Seq<ParamView>,
    ty: Seq<TokenView>,
) -> Seq<Seq<TokenView>> {
    seq![
        string(name),
        code(krate),
        string(name),
        optional_string(field.desc),
        schema_args(krate, ps, ps.len()),
        ty,
        code(krate),
        optional_string(field.deprecation),
        cache_code(krate, field.cache_control),
        flag(field.external),
        optional_string(field.provides),
        optional_string(field.requires_),
    ]
}

/// The entry of a field shows its name twice, its description, its arguments, its
/// type, its deprecation, its cache policy, and whether it is external, what it
/// provides and what it requires, in this order; it depends on nothing else but
/// the crate. So the entries of two fields that differ in one of these differ in
/// that place alone.
pub proof fn law_schema_fields_differ_in_what_they_show(
    krate_a: Seq<char>,
    name_a: Seq<char>,
    field_a: Field,
    ps_a: Seq<ParamView>,
    ty_a: Seq<TokenView>,
    krate_b: Seq<char>,
    name_b: Seq<char>,
    field_b: Field,
    ps_b: Seq<ParamView>,
    ty_b: Seq<TokenView>,
)
    ensures
        same_template(
            schema_field_code(krate_a, name_a, field_a, ps_a, ty_a),
            schema_field_holes(krate_a, name_a, field_a, ps_a, ty_a),
            schema_field_code(krate_b, name_b, field_b, ps_b, ty_b),
            schema_field_holes(krate_b, name_b, field_b, ps_b, ty_b),
        ),
{
    let d = begin(code("fields.insert("@));
    let d = hole(d, string(name_a), string(name_b));
    let d = text(d, code(".to_string(),"@));
    let d = hole(d, code(krate_a), code(krate_b));
    let d = text(d, code("::registry::Field { name:"@));
    let d = hole(d, string(name_a), string(name_b));
    let d = text(d, code(".to_string()"@));
    let d = text(d, code(", description:"@));
    let d = hole(d, optional_string(field_a.desc), optional_string(field_b.desc));
    let d = text(d, code(", args: { let mut args = std::collections::HashMap::new();"@));
    let d = hole(d, schema_args(krate_a, ps_a, ps_a.len()), schema_args(krate_b, ps_b, ps_b.len()));
    let d = text(d, code("args }"@));
    let d = text(d, code(", ty: <"@));
    let d = hole(d, ty_a, ty_b);
    let d = text(d, code("as"@));
    let d = hole(d, code(krate_a), code(krate_b));
    let d = text(d, code("::Type>::create_type_info(registry)"@));
    let d = text(d, code(", deprecation:"@));
    let d = hole(d, optional_string(field_a.deprecation), optional_string(field_b.deprecation));
    let d = text(d, code(", cache_control:"@));
    let d = hole(
        d,
        cache_code(krate_a, field_a.cache_control),
        cache_code(krate_b, field_b.cache_control),
    );
    let d = text(d, code(", external:"@));
    let d = hole(d, flag(field_a.external), flag(field_b.external));
    let d = text(d, code(", provides:"@));
    let d = hole(d, optional_string(field_a.provides), optional_string(field_b.provides));
    let d = text(d, code(", requires:"@));
    let d = hole(d, optional_string(field_a.requires_), optional_string(field_b.requires_));
    let d = text(d, code(", });"@));
    assert(d.holes_a =~= schema_field_holes(krate_a, name_a, field_a, ps_a, ty_a));
    assert(d.holes_b =~= schema_field_holes(krate_b, name_b, field_b, ps_b, ty_b));
}

/// In the entry of a field each label is followed by its own value.
pub proof fn law_schema_field_labels(
    krate: Seq<char>,
    name: Seq<char>,
    field: Field,
    ps: Seq<ParamView>,
    ty: Seq<TokenView>,
)
    ensures
        labelled(schema_field_code(krate, name, field, ps, ty), "fields.insert("@, string(name)),
        labelled(
            schema_field_code(krate, name, field, ps, ty),
            "::registry::Field { name:"@,
            string(name),
        ),
        labelled(
            schema_field_code(krate, name, field, ps, ty),
            ", description:"@,
            optional_string(field.desc),
        ),
        labelled(
            schema_field_code(krate, name, field, ps, ty),
            ", args: { let mut args = std::collections::HashMap::new();"@,
            schema_args(krate, ps, ps.len()),
        ),
        labelled(schema_field_code(krate, name, field, ps, ty), ", ty: <"@, ty),
        labelled(
            schema_field_code(krate, name, field, ps, ty),
            ", deprecation:"@,
            optional_string(field.deprecation),
        ),
        labelled(
            schema_field_code(krate, name, field, ps, ty),
            ", cache_control:"@,
            cache_code(krate, field.cache_control),
        ),
        labelled(
            schema_field_code(krate, name, field, ps, ty),
            ", external:"@,
            flag(field.external),
        ),
        labelled(
            schema_field_code(krate, name, field, ps, ty),
            ", provides:"@,
            optional_string(field.provides),
        ),
        labelled(
            schema_field_code(krate, name, field, ps, ty),
            ", requires:"@,
            optional_string(field.requires_),
        ),
{
    let page = begin_entry("fields.insert("@, string(name));
    let page = go_on(page, code(".to_string(),"@));
    let page = go_on(page, code(krate));
    let page = entry(page, "::registry::Field { name:"@, string(name));
    let page = go_on(page, code(".to_string()"@));
    let page = entry(page, ", description:"@, optional_string(field.desc));
    let page = entry(
        page,
        ", args: { let mut args = std::collections::HashMap::new();"@,
        schema_args(krate, ps, ps.len()),
    );
    let page = go_on(page, code("args }"@));
    let page = entry(page, ", ty: <"@, ty);
    let page = go_on(page, code("as"@));
    let page = go_on(page, code(krate));
    let page = go_on(page, code("::Type>::create_type_info(registry)"@));
    let page = entry(page, ", deprecation:"@, optional_string(field.deprecation));
    let page = entry(page, ", cache_control:"@, cache_code(krate, field.cache_control));
    let page = entry(page, ", external:"@, flag(field.external));
    let page = entry(page, ", provides:"@, optional_string(field.provides));
    let page = entry(page, ", requires:"@, optional_string(field.requires_));
    let page = go_on(page, code(", });"@));
    assert(page.labels[0].0 == "fields.insert("@);
    assert(page.labels[1].0 == "::registry::Field { name:"@);
    assert(page.labels[2].0 == ", description:"@);
    assert(page.labels[3].0 == ", args: { let mut args = std::collections::HashMap::new();"@);
    assert(page.labels[4].0 == ", ty: <"@);
    assert(page.labels[5].0 == ", deprecation:"@);
    assert(page.labels[6].0 == ", cache_control:"@);
    assert(page.labels[7].0 == ", external:"@);
    assert(page.labels[8].0 == ", provides:"@);
    assert(page.labels[9].0 == ", requires:"@);
}

/// What the holes of [`get_param`] are filled with, in order.
pub open spec fn get_param_holes(krate: Seq<char>, p: ParamView) -> Seq<Seq<TokenView>> {
    seq![
        p.ident,
        p.ty,
        string(p.name),
        missing_value(krate, p.default),
    ]
}

/// The statement that takes an argument binds its own pattern with its own type,
/// asks for its own name, and falls back on its own default.
pub proof fn law_arguments_are_taken_by_name(
    krate_a: Seq<char>,
    p_a: ParamView,
    krate_b: Seq<char>,
    p_b: ParamView,
)
    ensures
        same_template(
            get_param(krate_a, p_a),
            get_param_holes(krate_a, p_a),
            get_param(krate_b, p_b),
            get_param_holes(krate_b, p_b),
        ),
{
    let d = begin(code("let"@));
    let d = hole(d, p_a.ident, p_b.ident);
    let d = text(d, code(":"@));
    let d = hole(d, p_a.ty, p_b.ty);
    let d = text(d, code("= ctx.param_value("@));
    let d = hole(d, string(p_a.name), string(p_b.name));
    let d = text(d, code(", ctx.position, ||"@));
    let d = hole(d, missing_value(krate_a, p_a.default), missing_value(krate_b, p_b.default));
    let d = text(d, code(")?;"@));
    assert(d.holes_a =~= get_param_holes(krate_a, p_a));
    assert(d.holes_b =~= get_param_holes(krate_b, p_b));
}

/// The statement that takes an argument binds the pattern, and asks for the name
/// of the argument.
pub proof fn law_argument_statement_labels(
    krate: Seq<char>,
    p: ParamView,
)
    ensures
        labelled(get_param(krate, p), "let"@, p.ident),
        labelled(get_param(krate, p), "= ctx.param_value("@, string(p.name)),
        labelled(get_param(krate, p), ", ctx.position, ||"@, missing_value(krate, p.default)),
{
    let page = begin_entry("let"@, p.ident);
    let page = go_on(page, code(":"@));
    let page = go_on(page, p.ty);
    let page = entry(page, "= ctx.param_value("@, string(p.name));
    let page = entry(page, ", ctx.position, ||"@, missing_value(krate, p.default));
    let page = go_on(page, code(")?;"@));
    assert(page.labels[0].0 == "let"@);
    assert(page.labels[1].0 == "= ctx.param_value("@);
    assert(page.labels[2].0 == ", ctx.position, ||"@);
}

/// What the holes of [`resolver_code`] are filled with, in order.
pub open spec fn resolver_holes(
    krate: Seq<char>,
    name: Seq<char>,
    guard: Option<TokenStream>,
    ps: Seq<ParamView>,
    ident: Seq<TokenView>,
) -> Seq<Seq<TokenView>> {
    seq![
        string(name),
        code(krate),
        field_guard(guard),
        get_params(krate, ps, ps.len()),
        ident,
        idents(ps, ps.len()),
    ]
}

/// A resolver depends on the name that it answers to, the guard, the arguments and
/// the method, each in its own place: the guard is checked before the arguments
/// are taken, and those before the method is called.
pub proof fn law_resolvers_differ_in_what_they_resolve(
    krate_a: Seq<char>,
    name_a: Seq<char>,
    guard_a: Option<TokenStream>,
    ps_a: Seq<ParamView>,
    ident_a: Seq<TokenView>,
    krate_b: Seq<char>,
    name_b: Seq<char>,
    guard_b: Option<TokenStream>,
    ps_b: Seq<ParamView>,
    ident_b: Seq<TokenView>,
)
    ensures
        same_template(
            resolver_code(krate_a, name_a, guard_a, ps_a, ident_a),
            resolver_holes(krate_a, name_a, guard_a, ps_a, ident_a),
            resolver_code(krate_b, name_b, guard_b, ps_b, ident_b),
            resolver_holes(krate_b, name_b, guard_b, ps_b, ident_b),
        ),
{
    let d = begin(code("if ctx.name.as_str() =="@));
    let d = hole(d, string(name_a), string(name_b));
    let d = text(d, code("{ use"@));
    let d = hole(d, code(krate_a), code(krate_b));
    let d = text(d, code("::OutputValueType;"@));
    let d = hole(d, field_guard(guard_a), field_guard(guard_b));
    let d = hole(d, get_params(krate_a, ps_a, ps_a.len()), get_params(krate_b, ps_b, ps_b.len()));
    let d = text(
        d,
        code("let ctx_obj = ctx.with_selection_set(&ctx.selection_set); return OutputValueType::resolve(&{ let res = self."@),
    );
    let d = hole(d, ident_a, ident_b);
    let d = text(d, code("(ctx,"@));
    let d = hole(d, idents(ps_a, ps_a.len()), idents(ps_b, ps_b.len()));
    let d = text(
        d,
        code(").await; res.map_err(|err| err.into_error_with_path(ctx.position, ctx.path_node.as_ref().unwrap().to_json()))? }, &ctx_obj, ctx.position).await; }"@),
    );
    assert(d.holes_a =~= resolver_holes(krate_a, name_a, guard_a, ps_a, ident_a));
    assert(d.holes_b =~= resolver_holes(krate_b, name_b, guard_b, ps_b, ident_b));
}

/// A resolver compares the name that is asked for with that of the field, and
/// calls the method of the field with its arguments.
pub proof fn law_resolver_labels(
    krate: Seq<char>,
    name: Seq<char>,
    guard: Option<TokenStream>,
    ps: Seq<ParamView>,
    ident: Seq<TokenView>,
)
    ensures
        labelled(
            resolver_code(krate, name, guard, ps, ident),
            "if ctx.name.as_str() =="@,
            string(name),
        ),
        labelled(
            resolver_code(krate, name, guard, ps, ident),
            "::OutputValueType;"@,
            field_guard(guard),
        ),
        labelled(
            resolver_code(krate, name, guard, ps, ident),
            "let ctx_obj = ctx.with_selection_set(&ctx.selection_set); return OutputValueType::resolve(&{ let res = self."@,
            ident,
        ),
        labelled(resolver_code(krate, name, guard, ps, ident), "(ctx,"@, idents(ps, ps.len())),
{
    let page = begin_entry("if ctx.name.as_str() =="@, string(name));
    let page = go_on(page, code("{ use"@));
    let page = go_on(page, code(krate));
    let page = entry(page, "::OutputValueType;"@, field_guard(guard));
    let page = go_on(page, get_params(krate, ps, ps.len()));
    let page = entry(
        page,
        "let ctx_obj = ctx.with_selection_set(&ctx.selection_set); return OutputValueType::resolve(&{ let res = self."@,
        ident,
    );
    let page = entry(page, "(ctx,"@, idents(ps, ps.len()));
    let page = go_on(
        page,
        code(").await; res.map_err(|err| err.into_error_with_path(ctx.position, ctx.path_node.as_ref().unwrap().to_json()))? }, &ctx_obj, ctx.position).await; }"@),
    );
    assert(page.labels[0].0 == "if ctx.name.as_str() =="@);
    assert(page.labels[1].0 == "::OutputValueType;"@);
    assert(page.labels[2].0
        == "let ctx_obj = ctx.with_selection_set(&ctx.selection_set); return OutputValueType::resolve(&{ let res = self."@);
    assert(page.labels[3].0 == "(ctx,"@);
}

/// What the holes of [`add_keys_code`] are filled with, in order.
pub open spec fn add_keys_holes(
    krate: Seq<char>,
    ty: Seq<TokenView>,
    keys: Seq<char>,
) -> Seq<Seq<TokenView>> {
    seq![
        ty,
        code(krate),
        string(keys),
    ]
}

/// The registration of keys depends on the type and the keys.
pub proof fn law_key_registrations_differ_in_their_keys(
    krate_a: Seq<char>,
    ty_a: Seq<TokenView>,
    keys_a: Seq<char>,
    krate_b: Seq<char>,
    ty_b: Seq<TokenView>,
    keys_b: Seq<char>,
)
    ensures
        same_template(
            add_keys_code(krate_a, ty_a, keys_a),
            add_keys_holes(krate_a, ty_a, keys_a),
            add_keys_code(krate_b, ty_b, keys_b),
            add_keys_holes(krate_b, ty_b, keys_b),
        ),
{
    let d = begin(code("registry.add_keys(&<"@));
    let d = hole(d, ty_a, ty_b);
    let d = text(d, code("as"@));
    let d = hole(d, code(krate_a), code(krate_b));
    let d = text(d, code("::Type>::type_name(),"@));
    let d = hole(d, string(keys_a), string(keys_b));
    let d = text(d, code(");"@));
    assert(d.holes_a =~= add_keys_holes(krate_a, ty_a, keys_a));
    assert(d.holes_b =~= add_keys_holes(krate_b, ty_b, keys_b));
}

/// What the holes of [`create_type_code`] are filled with, in order.
pub open spec fn create_type_holes(krate: Seq<char>, ty: Seq<TokenView>) -> Seq<Seq<TokenView>> {
    seq![
        ty,
        code(krate),
    ]
}

/// The registration of a type depends on the type.
pub proof fn law_type_registrations_differ_in_their_type(
    krate_a: Seq<char>,
    ty_a: Seq<TokenView>,
    krate_b: Seq<char>,
    ty_b: Seq<TokenView>,
)
    ensures
        same_template(
            create_type_code(krate_a, ty_a),
            create_type_holes(krate_a, ty_a),
            create_type_code(krate_b, ty_b),
            create_type_holes(krate_b, ty_b),
        ),
{
    let d = begin(code("<"@));
    let d = hole(d, ty_a, ty_b);
    let d = text(d, code("as"@));
    let d = hole(d, code(krate_a), code(krate_b));
    let d = text(d, code("::Type>::create_type_info(registry);"@));
    assert(d.holes_a =~= create_type_holes(krate_a, ty_a));
    assert(d.holes_b =~= create_type_holes(krate_b, ty_b));
}

/// What the holes of [`key_pattern`] are filled with, in order.
pub open spec fn key_pattern_holes(p: ParamView) -> Seq<Seq<TokenView>> {
    seq![
        p.ident,
    ]
}

/// The pattern of a key depends on what it binds.
pub proof fn law_key_patterns_differ_in_their_name(
    p_a: ParamView,
    p_b: ParamView,
)
    ensures
        same_template(
            key_pattern(p_a),
            key_pattern_holes(p_a),
            key_pattern(p_b),
            key_pattern_holes(p_b),
        ),
{
    let d = begin(code("Some("@));
    let d = hole(d, p_a.ident, p_b.ident);
    let d = text(d, code(")"@));
    assert(d.holes_a =~= key_pattern_holes(p_a));
    assert(d.holes_b =~= key_pattern_holes(p_b));
}

/// What the holes of [`key_getter`] are filled with, in order.
pub open spec fn key_getter_holes(krate: Seq<char>, p: ParamView) -> Seq<Seq<TokenView>> {
    seq![
        string(p.name),
        p.ty,
        code(krate),
    ]
}

/// A key is taken by its own name and read as its own type.
pub proof fn law_keys_are_taken_by_name(
    krate_a: Seq<char>,
    p_a: ParamView,
    krate_b: Seq<char>,
    p_b: ParamView,
)
    ensures
        same_template(
            key_getter(krate_a, p_a),
            key_getter_holes(krate_a, p_a),
            key_getter(krate_b, p_b),
            key_getter_holes(krate_b, p_b),
        ),
{
    let d = begin(code("params.get("@));
    let d = hole(d, string(p_a.name), string(p_b.name));
    let d = text(d, code(").and_then(|value| { let value: Option<"@));
    let d = hole(d, p_a.ty, p_b.ty);
    let d = text(d, code("> ="@));
    let d = hole(d, code(krate_a), code(krate_b));
    let d = text(d, code("::InputValueType::parse(value); value })"@));
    assert(d.holes_a =~= key_getter_holes(krate_a, p_a));
    assert(d.holes_b =~= key_getter_holes(krate_b, p_b));
}

/// A key is asked for by its own name and read as its own type.
pub proof fn law_key_labels(
    krate: Seq<char>,
    p: ParamView,
)
    ensures
        labelled(key_getter(krate, p), "params.get("@, string(p.name)),
        labelled(key_getter(krate, p), ").and_then(|value| { let value: Option<"@, p.ty),
{
    let page = begin_entry("params.get("@, string(p.name));
    let page = entry(page, ").and_then(|value| { let value: Option<"@, p.ty);
    let page = go_on(page, code("> ="@));
    let page = go_on(page, code(krate));
    let page = go_on(page, code("::InputValueType::parse(value); value })"@));
    assert(page.labels[0].0 == "params.get("@);
    assert(page.labels[1].0 == ").and_then(|value| { let value: Option<"@);
}

/// What the holes of [`find_code`] are filled with, in order.
pub open spec fn find_holes(
    krate: Seq<char>,
    ty: Seq<TokenView>,
    guard: Option<TokenStream>,
    ps: Seq<ParamView>,
    ident: Seq<TokenView>,
) -> Seq<Seq<TokenView>> {
    seq![
        ty,
        code(krate),
        key_patterns(ps, ps.len()),
        key_getters(krate, ps, ps.len()),
        entity_guard(guard),
        code(krate),
        ident,
        idents(ps, ps.len()),
    ]
}

/// A lookup depends on the type that it answers to, its keys, the guard and the
/// method, each in its own place: the guard is checked once all keys are there.
pub proof fn law_lookups_differ_in_what_they_find(
    krate_a: Seq<char>,
    ty_a: Seq<TokenView>,
    guard_a: Option<TokenStream>,
    ps_a: Seq<ParamView>,
    ident_a: Seq<TokenView>,
    krate_b: Seq<char>,
    ty_b: Seq<TokenView>,
    guard_b: Option<TokenStream>,
    ps_b: Seq<ParamView>,
    ident_b: Seq<TokenView>,
)
    ensures
        same_template(
            find_code(krate_a, ty_a, guard_a, ps_a, ident_a),
            find_holes(krate_a, ty_a, guard_a, ps_a, ident_a),
            find_code(krate_b, ty_b, guard_b, ps_b, ident_b),
            find_holes(krate_b, ty_b, guard_b, ps_b, ident_b),
        ),
{
    let d = begin(code("if typename == &<"@));
    let d = hole(d, ty_a, ty_b);
    let d = text(d, code("as"@));
    let d = hole(d, code(krate_a), code(krate_b));
    let d = text(d, code("::Type>::type_name() { if let ("@));
    let d = hole(d, key_patterns(ps_a, ps_a.len()), key_patterns(ps_b, ps_b.len()));
    let d = text(d, code(") = ("@));
    let d = hole(d, key_getters(krate_a, ps_a, ps_a.len()), key_getters(krate_b, ps_b, ps_b.len()));
    let d = text(d, code(") {"@));
    let d = hole(d, entity_guard(guard_a), entity_guard(guard_b));
    let d = text(d, code("let ctx_obj = ctx.with_selection_set(&ctx.selection_set); return"@));
    let d = hole(d, code(krate_a), code(krate_b));
    let d = text(d, code("::OutputValueType::resolve(&self."@));
    let d = hole(d, ident_a, ident_b);
    let d = text(d, code("(ctx,"@));
    let d = hole(d, idents(ps_a, ps_a.len()), idents(ps_b, ps_b.len()));
    let d = text(
        d,
        code(").await.map_err(|err| err.into_error(pos))?, &ctx_obj, pos).await; } }"@),
    );
    assert(d.holes_a =~= find_holes(krate_a, ty_a, guard_a, ps_a, ident_a));
    assert(d.holes_b =~= find_holes(krate_b, ty_b, guard_b, ps_b, ident_b));
}

/// A lookup compares the type that is asked for with that of the entity, matches
/// all its keys, and calls the method of the entity with them.
pub proof fn law_lookup_labels(
    krate: Seq<char>,
    ty: Seq<TokenView>,
    guard: Option<TokenStream>,
    ps: Seq<ParamView>,
    ident: Seq<TokenView>,
)
    ensures
        labelled(find_code(krate, ty, guard, ps, ident), "if typename == &<"@, ty),
        labelled(
            find_code(krate, ty, guard, ps, ident),
            "::Type>::type_name() { if let ("@,
            key_patterns(ps, ps.len()),
        ),
        labelled(
            find_code(krate, ty, guard, ps, ident),
            ") = ("@,
            key_getters(krate, ps, ps.len()),
        ),
        labelled(find_code(krate, ty, guard, ps, ident), ") {"@, entity_guard(guard)),
        labelled(
            find_code(krate, ty, guard, ps, ident),
            "::OutputValueType::resolve(&self."@,
            ident,
        ),
        labelled(find_code(krate, ty, guard, ps, ident), "(ctx,"@, idents(ps, ps.len())),
{
    let page = begin_entry("if typename == &<"@, ty);
    let page = go_on(page, code("as"@));
    let page = go_on(page, code(krate));
    let page = entry(page, "::Type>::type_name() { if let ("@, key_patterns(ps, ps.len()));
    let page = entry(page, ") = ("@, key_getters(krate, ps, ps.len()));
    let page = entry(page, ") {"@, entity_guard(guard));
    let page = go_on(
        page,
        code("let ctx_obj = ctx.with_selection_set(&ctx.selection_set); return"@),
    );
    let page = go_on(page, code(krate));
    let page = entry(page, "::OutputValueType::resolve(&self."@, ident);
    let page = entry(page, "(ctx,"@, idents(ps, ps.len()));
    let page = go_on(
        page,
        code(").await.map_err(|err| err.into_error(pos))?, &ctx_obj, pos).await; } }"@),
    );
    assert(page.labels[0].0 == "if typename == &<"@);
    assert(page.labels[1].0 == "::Type>::type_name() { if let ("@);
    assert(page.labels[2].0 == ") = ("@);
    assert(page.labels[3].0 == ") {"@);
    assert(page.labels[4].0 == "::OutputValueType::resolve(&self."@);
    assert(page.labels[5].0 == "(ctx,"@);
}

/// What the holes of [`wrapped_stmts`] are filled with, in order.
pub open spec fn wrapped_stmts_holes(
    inner: Seq<TokenView>,
    stmts: Seq<TokenView>,
) -> Seq<Seq<TokenView>> {
    seq![
        inner,
        stmts,
    ]
}

/// A wrapped body holds the value type and the statements of the body as it was
/// written, and depends on nothing else.
pub proof fn law_wrapped_bodies_keep_their_statements(
    inner_a: Seq<TokenView>,
    stmts_a: Seq<TokenView>,
    inner_b: Seq<TokenView>,
    stmts_b: Seq<TokenView>,
)
    ensures
        same_template(
            wrapped_stmts(inner_a, stmts_a),
            wrapped_stmts_holes(inner_a, stmts_a),
            wrapped_stmts(inner_b, stmts_b),
            wrapped_stmts_holes(inner_b, stmts_b),
        ),
{
    let d = begin(code("{ let value:"@));
    let d = hole(d, inner_a, inner_b);
    let d = text(d, code("= async move {"@));
    let d = hole(d, stmts_a, stmts_b);
    let d = text(d, code("}.await; Ok(value) }"@));
    assert(d.holes_a =~= wrapped_stmts_holes(inner_a, stmts_a));
    assert(d.holes_b =~= wrapped_stmts_holes(inner_b, stmts_b));
}

/// What the holes of [`result_type`] are filled with, in order.
pub open spec fn result_type_holes(krate: Seq<char>, inner: Seq<TokenView>) -> Seq<Seq<TokenView>> {
    seq![
        code(krate),
        inner,
    ]
}

/// The result type holds the value type.
pub proof fn law_result_types_keep_their_value(
    krate_a: Seq<char>,
    inner_a: Seq<TokenView>,
    krate_b: Seq<char>,
    inner_b: Seq<TokenView>,
)
    ensures
        same_template(
            result_type(krate_a, inner_a),
            result_type_holes(krate_a, inner_a),
            result_type(krate_b, inner_b),
            result_type_holes(krate_b, inner_b),
        ),
{
    let d = begin_hole(code(krate_a), code(krate_b));
    let d = text(d, code("::FieldResult<"@));
    let d = hole(d, inner_a, inner_b);
    let d = text(d, code(">"@));
    assert(d.holes_a =~= result_type_holes(krate_a, inner_a));
    assert(d.holes_b =~= result_type_holes(krate_b, inner_b));
}

/// What the holes of [`type_impl_code`] are filled with, in order.
pub open spec fn type_impl_holes(
    krate: Seq<char>,
    name: Seq<char>,
    object_args: Object,
    block: ItemImpl,
    parts: PartsView,
) -> Seq<Seq<TokenView>> {
    seq![
        block.generics@,
        code(krate),
        block.self_ty.printed(),
        block.where_clause@,
        string(name),
        code(krate),
        code(krate),
        string(name),
        optional_string(object_args.desc),
        parts.schema_fields,
        cache_code(krate, object_args.cache_control),
        flag(object_args.extends),
        parts.create_types,
        parts.add_keys,
    ]
}

/// The impl that registers an object shows its name twice, its description, its
/// fields, its cache policy and whether it extends another one, and then registers
/// the types and the keys of its entities; it depends on nothing else but the crate
/// and the header of the block. So two attributes that differ in one of these give
/// impls that differ in that place alone.
pub proof fn law_registrations_differ_in_what_they_show(
    krate_a: Seq<char>,
    name_a: Seq<char>,
    object_args_a: Object,
    block_a: ItemImpl,
    parts_a: PartsView,
    krate_b: Seq<char>,
    name_b: Seq<char>,
    object_args_b: Object,
    block_b: ItemImpl,
    parts_b: PartsView,
)
    ensures
        same_template(
            type_impl_code(krate_a, name_a, object_args_a, block_a, parts_a),
            type_impl_holes(krate_a, name_a, object_args_a, block_a, parts_a),
            type_impl_code(krate_b, name_b, object_args_b, block_b, parts_b),
            type_impl_holes(krate_b, name_b, object_args_b, block_b, parts_b),
        ),
{
    let d = begin(code("impl"@));
    let d = hole(d, block_a.generics@, block_b.generics@);
    let d = hole(d, code(krate_a), code(krate_b));
    let d = text(d, code("::Type for"@));
    let d = hole(d, block_a.self_ty.printed(), block_b.self_ty.printed());
    let d = hole(d, block_a.where_clause@, block_b.where_clause@);
    let d = text(
        d,
        code("{ fn type_name() -> std::borrow::Cow<'static, str> { std::borrow::Cow::Borrowed("@),
    );
    let d = hole(d, string(name_a), string(name_b));
    let d = text(d, code(") } fn create_type_info(registry: &mut"@));
    let d = hole(d, code(krate_a), code(krate_b));
    let d = text(
        d,
        code("::registry::Registry) -> String { let ty = registry.create_type::<Self, _>(|registry|"@),
    );
    let d = hole(d, code(krate_a), code(krate_b));
    let d = text(d, code("::registry::Type::Object { name:"@));
    let d = hole(d, string(name_a), string(name_b));
    let d = text(d, code(".to_string()"@));
    let d = text(d, code(", description:"@));
    let d = hole(d, optional_string(object_args_a.desc), optional_string(object_args_b.desc));
    let d = text(d, code(", fields: { let mut fields = std::collections::HashMap::new();"@));
    let d = hole(d, parts_a.schema_fields, parts_b.schema_fields);
    let d = text(d, code("fields }"@));
    let d = text(d, code(", cache_control:"@));
    let d = hole(
        d,
        cache_code(krate_a, object_args_a.cache_control),
        cache_code(krate_b, object_args_b.cache_control),
    );
    let d = text(d, code(", extends:"@));
    let d = hole(d, flag(object_args_a.extends), flag(object_args_b.extends));
    let d = text(d, code(", keys: None, });"@));
    let d = hole(d, parts_a.create_types, parts_b.create_types);
    let d = hole(d, parts_a.add_keys, parts_b.add_keys);
    let d = text(d, code("ty } }"@));
    assert(d.holes_a =~= type_impl_holes(krate_a, name_a, object_args_a, block_a, parts_a));
    assert(d.holes_b =~= type_impl_holes(krate_b, name_b, object_args_b, block_b, parts_b));
}

/// In the registered object each label is followed by its own value.
pub proof fn law_registration_labels(
    krate: Seq<char>,
    name: Seq<char>,
    object_args: Object,
    block: ItemImpl,
    parts: PartsView,
)
    ensures
        labelled(
            type_impl_code(krate, name, object_args, block, parts),
            "{ fn type_name() -> std::borrow::Cow<'static, str> { std::borrow::Cow::Borrowed("@,
            string(name),
        ),
        labelled(
            type_impl_code(krate, name, object_args, block, parts),
            "::registry::Type::Object { name:"@,
            string(name),
        ),
        labelled(
            type_impl_code(krate, name, object_args, block, parts),
            ", description:"@,
            optional_string(object_args.desc),
        ),
        labelled(
            type_impl_code(krate, name, object_args, block, parts),
            ", fields: { let mut fields = std::collections::HashMap::new();"@,
            parts.schema_fields,
        ),
        labelled(
            type_impl_code(krate, name, object_args, block, parts),
            ", cache_control:"@,
            cache_code(krate, object_args.cache_control),
        ),
        labelled(
            type_impl_code(krate, name, object_args, block, parts),
            ", extends:"@,
            seq![TokenView::Code(if object_args.extends { "true"@ } else { "false"@ })],
        ),
        labelled(
            type_impl_code(krate, name, object_args, block, parts),
            ", keys: None, });"@,
            parts.create_types,
        ),
{
    let page = begin_page(code("impl"@));
    let page = go_on(page, block.generics@);
    let page = go_on(page, code(krate));
    let page = go_on(page, code("::Type for"@));
    let page = go_on(page, block.self_ty.printed());
    let page = go_on(page, block.where_clause@);
    let page = entry(
        page,
        "{ fn type_name() -> std::borrow::Cow<'static, str> { std::borrow::Cow::Borrowed("@,
        string(name),
    );
    let page = go_on(page, code(") } fn create_type_info(registry: &mut"@));
    let page = go_on(page, code(krate));
    let page = go_on(
        page,
        code("::registry::Registry) -> String { let ty = registry.create_type::<Self, _>(|registry|"@),
    );
    let page = go_on(page, code(krate));
    let page = entry(page, "::registry::Type::Object { name:"@, string(name));
    let page = go_on(page, code(".to_string()"@));
    let page = entry(page, ", description:"@, optional_string(object_args.desc));
    let page = entry(
        page,
        ", fields: { let mut fields = std::collections::HashMap::new();"@,
        parts.schema_fields,
    );
    let page = go_on(page, code("fields }"@));
    let page = entry(page, ", cache_control:"@, cache_code(krate, object_args.cache_control));
    let page = entry(page, ", extends:"@, flag(object_args.extends));
    let page = entry(page, ", keys: None, });"@, parts.create_types);
    let page = go_on(page, parts.add_keys);
    let page = go_on(page, code("ty } }"@));
    assert(page.labels[0].0
        == "{ fn type_name() -> std::borrow::Cow<'static, str> { std::borrow::Cow::Borrowed("@);
    assert(page.labels[1].0 == "::registry::Type::Object { name:"@);
    assert(page.labels[2].0 == ", description:"@);
    assert(page.labels[3].0 == ", fields: { let mut fields = std::collections::HashMap::new();"@);
    assert(page.labels[4].0 == ", cache_control:"@);
    assert(page.labels[5].0 == ", extends:"@);
    assert(page.labels[6].0 == ", keys: None, });"@);
}

/// What the holes of [`object_impl_code`] are filled with, in order.
pub open spec fn object_impl_holes(
    krate: Seq<char>,
    name: Seq<char>,
    block: ItemImpl,
    resolvers: Seq<TokenView>,
    finders: Seq<FinderView>,
) -> Seq<Seq<TokenView>> {
    seq![
        code(krate),
        block.generics@,
        code(krate),
        block.self_ty.printed(),
        block.where_clause@,
        code(krate),
        code(krate),
        code(krate),
        resolvers,
        code(krate),
        string(name),
        code(krate),
        code(krate),
        code(krate),
        code(krate),
        code(krate),
        code(krate),
        code(krate),
        code(krate),
        code(krate),
        codes(search_order(finders)).flatten(),
        code(krate),
    ]
}

/// The impl that dispatches holds all resolvers, the name of the object for what is
/// not found, and the code of every lookup in search order; it depends on nothing
/// else but the crate and the header of the block.
#[verifier::rlimit(80)]
pub proof fn law_dispatch_holds_all_resolvers_and_lookups(
    krate_a: Seq<char>,
    name_a: Seq<char>,
    block_a: ItemImpl,
    resolvers_a: Seq<TokenView>,
    finders_a: Seq<FinderView>,
    krate_b: Seq<char>,
    name_b: Seq<char>,
    block_b: ItemImpl,
    resolvers_b: Seq<TokenView>,
    finders_b: Seq<FinderView>,
)
    ensures
        same_template(
            object_impl_code(krate_a, name_a, block_a, resolvers_a, finders_a),
            object_impl_holes(krate_a, name_a, block_a, resolvers_a, finders_a),
            object_impl_code(krate_b, name_b, block_b, resolvers_b, finders_b),
            object_impl_holes(krate_b, name_b, block_b, resolvers_b, finders_b),
        ),
{
    law_every_lookup_is_printed(search_order(finders_a), search_order(finders_a).len());
    law_every_lookup_is_printed(search_order(finders_b), search_order(finders_b).len());
    let d = begin(code("#["@));
    let d = hole(d, code(krate_a), code(krate_b));
    let d = text(d, code("::async_trait::async_trait] impl"@));
    let d = hole(d, block_a.generics@, block_b.generics@);
    let d = hole(d, code(krate_a), code(krate_b));
    let d = text(d, code("::ObjectType for"@));
    let d = hole(d, block_a.self_ty.printed(), block_b.self_ty.printed());
    let d = hole(d, block_a.where_clause@, block_b.where_clause@);
    let d = text(d, code("{ async fn resolve_field(&self, ctx: &"@));
    let d = hole(d, code(krate_a), code(krate_b));
    let d = text(d, code("::Context<'_>) ->"@));
    let d = hole(d, code(krate_a), code(krate_b));
    let d = text(d, code("::Result<"@));
    let d = hole(d, code(krate_a), code(krate_b));
    let d = text(d, code("::serde_json::Value> {"@));
    let d = hole(d, resolvers_a, resolvers_b);
    let d = text(d, code("Err("@));
    let d = hole(d, code(krate_a), code(krate_b));
    let d = text(d, code("::QueryError::FieldNotFound { field_name: ctx.name.clone(), object:"@));
    let d = hole(d, string(name_a), string(name_b));
    let d = text(
        d,
        code(".to_string(), }.into_error(ctx.position)) } async fn find_entity(&self, ctx: &"@),
    );
    let d = hole(d, code(krate_a), code(krate_b));
    let d = text(d, code("::Context<'_>, pos:"@));
    let d = hole(d, code(krate_a), code(krate_b));
    let d = text(d, code("::Pos, params: &"@));
    let d = hole(d, code(krate_a), code(krate_b));
    let d = text(d, code("::Value) ->"@));
    let d = hole(d, code(krate_a), code(krate_b));
    let d = text(d, code("::Result<"@));
    let d = hole(d, code(krate_a), code(krate_b));
    let d = text(d, code("::serde_json::Value> { let params = match params {"@));
    let d = hole(d, code(krate_a), code(krate_b));
    let d = text(d, code("::Value::Object(params) => params, _ => return Err("@));
    let d = hole(d, code(krate_a), code(krate_b));
    let d = text(
        d,
        code("::QueryError::EntityNotFound.into_error(pos)), }; let typename = if let Some("@),
    );
    let d = hole(d, code(krate_a), code(krate_b));
    let d = text(d, code("::Value::String(typename)) = params.get("@));
    let d = text(d, string("__typename"@));
    let d = text(d, code(") { typename } else { return Err("@));
    let d = hole(d, code(krate_a), code(krate_b));
    let d = text(d, code("::QueryError::TypeNameNotExists.into_error(pos)); };"@));
    let d = hole(
        d,
        lookups(search_order(finders_a), search_order(finders_a).len()),
        lookups(search_order(finders_b), search_order(finders_b).len()),
    );
    let d = text(d, code("Err("@));
    let d = hole(d, code(krate_a), code(krate_b));
    let d = text(d, code("::QueryError::EntityNotFound.into_error(pos)) } }"@));
    assert(d.holes_a =~= object_impl_holes(krate_a, name_a, block_a, resolvers_a, finders_a));
    assert(d.holes_b =~= object_impl_holes(krate_b, name_b, block_b, resolvers_b, finders_b));
}

/// The impl that dispatches tries the resolvers, and what is not found is reported
/// under the name of the object; once the type that is asked for is known, it tries
/// every lookup in search order.
pub proof fn law_dispatch_labels(
    krate: Seq<char>,
    name: Seq<char>,
    block: ItemImpl,
    resolvers: Seq<TokenView>,
    finders: Seq<FinderView>,
)
    ensures
        labelled(
            object_impl_code(krate, name, block, resolvers, finders),
            "::ObjectType for"@,
            block.self_ty.printed(),
        ),
        labelled(
            object_impl_code(krate, name, block, resolvers, finders),
            "::serde_json::Value> {"@,
            resolvers,
        ),
        labelled(
            object_impl_code(krate, name, block, resolvers, finders),
            "::QueryError::FieldNotFound { field_name: ctx.name.clone(), object:"@,
            string(name),
        ),
        labelled(
            object_impl_code(krate, name, block, resolvers, finders),
            "::QueryError::TypeNameNotExists.into_error(pos)); };"@,
            codes(search_order(finders)).flatten(),
        ),
{
    law_every_lookup_is_printed(search_order(finders), search_order(finders).len());
    let page = begin_page(code("#["@));
    let page = go_on(page, code(krate));
    let page = go_on(page, code("::async_trait::async_trait] impl"@));
    let page = go_on(page, block.generics@);
    let page = go_on(page, code(krate));
    let page = entry(page, "::ObjectType for"@, block.self_ty.printed());
    let page = go_on(page, block.where_clause@);
    let page = go_on(page, code("{ async fn resolve_field(&self, ctx: &"@));
    let page = go_on(page, code(krate));
    let page = go_on(page, code("::Context<'_>) ->"@));
    let page = go_on(page, code(krate));
    let page = go_on(page, code("::Result<"@));
    let page = go_on(page, code(krate));
    let page = entry(page, "::serde_json::Value> {"@, resolvers);
    let page = go_on(page, code("Err("@));
    let page = go_on(page, code(krate));
    let page = entry(
        page,
        "::QueryError::FieldNotFound { field_name: ctx.name.clone(), object:"@,
        string(name),
    );
    let page = go_on(
        page,
        code(".to_string(), }.into_error(ctx.position)) } async fn find_entity(&self, ctx: &"@),
    );
    let page = go_on(page, code(krate));
    let page = go_on(page, code("::Context<'_>, pos:"@));
    let page = go_on(page, code(krate));
    let page = go_on(page, code("::Pos, params: &"@));
    let page = go_on(page, code(krate));
    let page = go_on(page, code("::Value) ->"@));
    let page = go_on(page, code(krate));
    let page = go_on(page, code("::Result<"@));
    let page = go_on(page, code(krate));
    let page = go_on(page, code("::serde_json::Value> { let params = match params {"@));
    let page = go_on(page, code(krate));
    let page = go_on(page, code("::Value::Object(params) => params, _ => return Err("@));
    let page = go_on(page, code(krate));
    let page = go_on(
        page,
        code("::QueryError::EntityNotFound.into_error(pos)), }; let typename = if let Some("@),
    );
    let page = go_on(page, code(krate));
    let page = go_on(page, code("::Value::String(typename)) = params.get("@));
    let page = go_on(page, string("__typename"@));
    let page = go_on(page, code(") { typename } else { return Err("@));
    let page = go_on(page, code(krate));
    let page = entry(
        page,
        "::QueryError::TypeNameNotExists.into_error(pos)); };"@,
        lookups(search_order(finders), search_order(finders).len()),
    );
    let page = go_on(page, code("Err("@));
    let page = go_on(page, code(krate));
    let page = go_on(page, code("::QueryError::EntityNotFound.into_error(pos)) } }"@));
    assert(page.labels[0].0 == "::ObjectType for"@);
    assert(page.labels[1].0 == "::serde_json::Value> {"@);
    assert(page.labels[2].0
        == "::QueryError::FieldNotFound { field_name: ctx.name.clone(), object:"@);
    assert(page.labels[3].0 == "::QueryError::TypeNameNotExists.into_error(pos)); };"@);
}

/// What the holes of [`output_impl_code`] are filled with, in order.
pub open spec fn output_impl_holes(krate: Seq<char>, block: ItemImpl) -> Seq<Seq<TokenView>> {
    seq![
        code(krate),
        block.generics@,
        code(krate),
        block.self_ty.printed(),
        block.where_clause@,
        code(krate),
        code(krate),
        code(krate),
        code(krate),
        code(krate),
    ]
}

/// The impl that resolves the object as a value depends on the crate and the header
/// of the block.
pub proof fn law_value_impls_differ_in_their_type(
    krate_a: Seq<char>,
    block_a: ItemImpl,
    krate_b: Seq<char>,
    block_b: ItemImpl,
)
    ensures
        same_template(
            output_impl_code(krate_a, block_a),
            output_impl_holes(krate_a, block_a),
            output_impl_code(krate_b, block_b),
            output_impl_holes(krate_b, block_b),
        ),
{
    let d = begin(code("#["@));
    let d = hole(d, code(krate_a), code(krate_b));
    let d = text(d, code("::async_trait::async_trait] impl"@));
    let d = hole(d, block_a.generics@, block_b.generics@);
    let d = hole(d, code(krate_a), code(krate_b));
    let d = text(d, code("::OutputValueType for"@));
    let d = hole(d, block_a.self_ty.printed(), block_b.self_ty.printed());
    let d = hole(d, block_a.where_clause@, block_b.where_clause@);
    let d = text(d, code("{ async fn resolve(&self, ctx: &"@));
    let d = hole(d, code(krate_a), code(krate_b));
    let d = text(d, code("::ContextSelectionSet<'_>, pos:"@));
    let d = hole(d, code(krate_a), code(krate_b));
    let d = text(d, code("::Pos) ->"@));
    let d = hole(d, code(krate_a), code(krate_b));
    let d = text(d, code("::Result<"@));
    let d = hole(d, code(krate_a), code(krate_b));
    let d = text(d, code("::serde_json::Value> {"@));
    let d = hole(d, code(krate_a), code(krate_b));
    let d = text(d, code("::do_resolve(ctx, self).await } }"@));
    assert(d.holes_a =~= output_impl_holes(krate_a, block_a));
    assert(d.holes_b =~= output_impl_holes(krate_b, block_b));
}

} // verus!
