//! The code behind a field: its entry in the schema and its resolver.

use vstd::prelude::*;

use crate::args::{CacheControl, Field};
use crate::params::{views, DefaultView, Param, ParamView};
use crate::tokens::{code, flag, nothing, number, optional_string, string, TokenStream, TokenView};

verus! {

/// An expression for a cache policy.
pub open spec fn cache_code(krate: Seq<char>, cache: CacheControl) -> Seq<TokenView> {
    code(krate) + code("::CacheControl { public:"@) + flag(cache.public) + code(", max_age:"@)
        + number(cache.max_age) + code(", }"@)
}

/// An expression for a cache policy.
pub fn cache_control(krate: &str, cache: &CacheControl) -> (r: TokenStream)
    ensures
        r@ == cache_code(krate@, *cache),
{
    TokenStream::of(krate).code("::CacheControl { public:").flag(cache.public).code(
        ", max_age:",
    ).number(cache.max_age).code(", }")
}

/// An expression for the default that the schema shows.
pub open spec fn default_text(default: Option<DefaultView>) -> Seq<TokenView> {
    match default {
        Some(value) => code("Some("@) + string(value.text) + code(")"@),
        None => code("None"@),
    }
}

/// The statement that enters an argument into the schema.
pub open spec fn schema_arg(krate: Seq<char>, p: ParamView) -> Seq<TokenView> {
    code("args.insert("@) + string(p.name) + code(","@) + code(krate) + code(
        "::registry::InputValue { name:"@,
    ) + string(p.name) + code(", description:"@) + optional_string(p.desc) + code(", ty: <"@) + p.ty
        + code("as"@) + code(krate) + code("::Type>::create_type_info(registry)"@) + code(
        ", default_value:"@,
    ) + default_text(p.default) + code(", validator:"@) + p.validator + code(", });"@)
}

/// The statements that enter the first `n` arguments into the schema.
pub open spec fn schema_args(krate: Seq<char>, ps: Seq<ParamView>, n: nat) -> Seq<TokenView>
    decreases n,
{
    if n == 0 {
        nothing()
    } else {
        schema_args(krate, ps, (n - 1) as nat) + schema_arg(krate, ps[n - 1])
    }
}

fn print_schema_arg(krate: &str, p: &Param) -> (r: TokenStream)
    ensures
        r@ == schema_arg(krate@, p@),
{
    let default = match &p.default {
        Some(value) => TokenStream::of("Some(").string(value.text.as_str()).code(")"),
        None => TokenStream::of("None"),
    };
    TokenStream::of("args.insert(").string(p.name.as_str()).code(",").code(krate).code(
        "::registry::InputValue { name:",
    ).string(p.name.as_str()).code(", description:").optional_string(&p.desc).code(
        ", ty: <",
    ).stream(&p.ty).code("as").code(krate).code(
        "::Type>::create_type_info(registry)",
    ).code(", default_value:").stream(&default).code(", validator:").stream(&p.validator).code(
        ", });",
    )
}

fn print_schema_args(krate: &str, ps: &Vec<Param>) -> (r: TokenStream)
    ensures
        r@ == schema_args(krate@, views(ps@), ps@.len()),
{
    let mut r = TokenStream::new();
    let mut i: usize = 0;
    while i < ps.len()
        invariant
            i <= ps.len(),
            r@ == schema_args(krate@, views(ps@), i as nat),
        decreases ps.len() - i,
    {
        r = r.stream(&print_schema_arg(krate, &ps[i]));
        i += 1;
    }
    r
}

/// The statement that enters a field into the schema.
pub open spec fn schema_field_code(
    krate: Seq<char>,
    name: Seq<char>,
    field: Field,
    ps: Seq<ParamView>,
    ty: Seq<TokenView>,
) -> Seq<TokenView> {
    code("fields.insert("@) + string(name) + code(".to_string(),"@) + code(krate) + code(
        "::registry::Field { name:"@,
    ) + string(name) + code(".to_string()"@) + code(", description:"@) + optional_string(
        field.desc,
    ) + code(", args: { let mut args = std::collections::HashMap::new();"@) + schema_args(
        krate,
        ps,
        ps.len(),
    ) + code("args }"@) + code(", ty: <"@) + ty + code("as"@) + code(krate) + code(
        "::Type>::create_type_info(registry)"@,
    ) + code(", deprecation:"@) + optional_string(
        field.deprecation,
    ) + code(", cache_control:"@) + cache_code(krate, field.cache_control) + code(", external:"@)
        + flag(field.external) + code(", provides:"@) + optional_string(field.provides) + code(
        ", requires:"@,
    ) + optional_string(field.requires_) + code(", });"@)
}

/// The statement that enters a field of the given name into the schema.
pub fn schema_field(
    krate: &str,
    name: &str,
    field: &Field,
    ps: &Vec<Param>,
    ty: &TokenStream,
) -> (r: TokenStream)
    ensures
        r@ == schema_field_code(krate@, name@, *field, views(ps@), ty@),
{
    TokenStream::of("fields.insert(").string(name).code(".to_string(),").code(krate).code(
        "::registry::Field { name:",
    ).string(name).code(".to_string()").code(", description:").optional_string(&field.desc).code(
        ", args: { let mut args = std::collections::HashMap::new();",
    ).stream(&print_schema_args(krate, ps)).code("args }").code(", ty: <").stream(ty).code(
        "as",
    ).code(krate).code("::Type>::create_type_info(registry)").code(", deprecation:").optional_string(
        &field.deprecation,
    ).code(", cache_control:").stream(&cache_control(krate, &field.cache_control)).code(
        ", external:",
    ).flag(field.external).code(", provides:").optional_string(&field.provides).code(
        ", requires:",
    ).optional_string(&field.requires_).code(", });")
}

/// An expression for the value of an argument that is not given.
pub open spec fn missing_value(krate: Seq<char>, default: Option<DefaultView>) -> Seq<TokenView> {
    match default {
        Some(value) => value.repr,
        None => code(krate) + code("::Value::Null"@),
    }
}

/// The statement that takes an argument out of the query.
pub open spec fn get_param(krate: Seq<char>, p: ParamView) -> Seq<TokenView> {
    code("let"@) + p.ident + code(":"@) + p.ty + code("= ctx.param_value("@) + string(p.name)
        + code(", ctx.position, ||"@) + missing_value(krate, p.default) + code(")?;"@)
}

/// The statements that take the first `n` arguments out of the query.
pub open spec fn get_params(krate: Seq<char>, ps: Seq<ParamView>, n: nat) -> Seq<TokenView>
    decreases n,
{
    if n == 0 {
        nothing()
    } else {
        get_params(krate, ps, (n - 1) as nat) + get_param(krate, ps[n - 1])
    }
}

fn print_get_param(krate: &str, p: &Param) -> (r: TokenStream)
    ensures
        r@ == get_param(krate@, p@),
{
    let missing = match &p.default {
        Some(value) => value.repr.copy(),
        None => TokenStream::of(krate).code("::Value::Null"),
    };
    TokenStream::of("let").stream(&p.ident).code(":").stream(&p.ty).code(
        "= ctx.param_value(",
    ).string(p.name.as_str()).code(", ctx.position, ||").stream(&missing).code(")?;")
}

fn print_get_params(krate: &str, ps: &Vec<Param>) -> (r: TokenStream)
    ensures
        r@ == get_params(krate@, views(ps@), ps@.len()),
{
    let mut r = TokenStream::new();
    let mut i: usize = 0;
    while i < ps.len()
        invariant
            i <= ps.len(),
            r@ == get_params(krate@, views(ps@), i as nat),
        decreases ps.len() - i,
    {
        r = r.stream(&print_get_param(krate, &ps[i]));
        i += 1;
    }
    r
}

/// The first `n` parameters as they are handed on, with commas between them.
pub open spec fn idents(ps: Seq<ParamView>, n: nat) -> Seq<TokenView>
    decreases n,
{
    if n == 0 {
        nothing()
    } else if n == 1 {
        ps[0].ident
    } else {
        idents(ps, (n - 1) as nat) + code(","@) + ps[n - 1].ident
    }
}

/// The parameters as they are handed on, with commas between them.
pub fn print_idents(ps: &Vec<Param>) -> (r: TokenStream)
    ensures
        r@ == idents(views(ps@), ps@.len()),
{
    if ps.len() == 0 {
        return TokenStream::new();
    }
    let mut r = ps[0].ident.copy();
    let mut i: usize = 1;
    while i < ps.len()
        invariant
            1 <= i <= ps.len(),
            r@ == idents(views(ps@), i as nat),
        decreases ps.len() - i,
    {
        r = r.code(",").stream(&ps[i].ident);
        i += 1;
    }
    r
}

/// The statement that checks the guard of a field, where it has one.
pub open spec fn field_guard(guard: Option<TokenStream>) -> Seq<TokenView> {
    match guard {
        Some(guard) => guard@ + code(
            ".check(ctx).await.map_err(|err| err.into_error_with_path(ctx.position, ctx.path_node.as_ref().unwrap().to_json()))?;"@,
        ),
        None => nothing(),
    }
}

/// The statement that resolves a field, if it is the one that is asked for.
pub open spec fn resolver_code(
    krate: Seq<char>,
    name: Seq<char>,
    guard: Option<TokenStream>,
    ps: Seq<ParamView>,
    ident: Seq<TokenView>,
) -> Seq<TokenView> {
    code("if ctx.name.as_str() =="@) + string(name) + code("{ use"@) + code(krate) + code(
        "::OutputValueType;"@,
    ) + field_guard(guard) + get_params(krate, ps, ps.len()) + code(
        "let ctx_obj = ctx.with_selection_set(&ctx.selection_set); return OutputValueType::resolve(&{ let res = self."@,
    ) + ident + code("(ctx,"@) + idents(ps, ps.len()) + code(
        ").await; res.map_err(|err| err.into_error_with_path(ctx.position, ctx.path_node.as_ref().unwrap().to_json()))? }, &ctx_obj, ctx.position).await; }"@,
    )
}

/// The statement that resolves a field of the given name, if it is the one that
/// is asked for.
pub fn resolver(
    krate: &str,
    name: &str,
    guard: &Option<TokenStream>,
    ps: &Vec<Param>,
    ident: &TokenStream,
) -> (r: TokenStream)
    ensures
        r@ == resolver_code(krate@, name@, *guard, views(ps@), ident@),
{
    let check = match guard {
        Some(guard) => guard.copy().code(
            ".check(ctx).await.map_err(|err| err.into_error_with_path(ctx.position, ctx.path_node.as_ref().unwrap().to_json()))?;",
        ),
        None => TokenStream::new(),
    };
    TokenStream::of("if ctx.name.as_str() ==").string(name).code("{ use").code(krate).code(
        "::OutputValueType;",
    ).stream(&check).stream(&print_get_params(krate, ps)).code(
        "let ctx_obj = ctx.with_selection_set(&ctx.selection_set); return OutputValueType::resolve(&{ let res = self.",
    ).stream(ident).code("(ctx,").stream(&print_idents(ps)).code(
        ").await; res.map_err(|err| err.into_error_with_path(ctx.position, ctx.path_node.as_ref().unwrap().to_json()))? }, &ctx_obj, ctx.position).await; }",
    )
}

} // verus!
