use object_derive::args::{CacheControl, DefaultValue, Field};
use object_derive::field::{cache_control, print_idents, resolver, schema_field};
use object_derive::params::Param;
use object_derive::tokens::{Token, TokenStream};

fn text(stream: &TokenStream) -> String {
    let mut out = String::new();
    for token in &stream.tokens {
        out.push_str(&match token {
            Token::Code(code) => code.clone(),
            Token::Str(value) => proc_macro2::Literal::string(value).to_string(),
            Token::Usize(value) => format!("{}usize", value),
        });
        out.push(' ');
    }
    norm(&out)
}

fn flatten(stream: proc_macro2::TokenStream, out: &mut Vec<String>) {
    for tree in stream {
        match tree {
            proc_macro2::TokenTree::Group(group) => {
                out.push(format!("{:?}", group.delimiter()));
                flatten(group.stream(), out);
                out.push("End".to_string());
            }
            other => out.push(other.to_string()),
        }
    }
}

fn norm(source: &str) -> String {
    let mut out = Vec::new();
    flatten(source.parse().unwrap(), &mut out);
    out.join(" ")
}

fn params() -> Vec<Param> {
    vec![
        Param {
            name: "first".to_string(),
            ident: TokenStream::of("first"),
            ty: TokenStream::of("i32"),
            desc: Some("how \"many\"".to_string()),
            default: Some(DefaultValue {
                text: "10".to_string(),
                repr: TokenStream::of("gql::Value::Int(10)"),
            }),
            validator: TokenStream::of("Some(max)"),
        },
        Param {
            name: "afterId".to_string(),
            ident: TokenStream::of("after_id"),
            ty: TokenStream::of("Option<ID>"),
            desc: None,
            default: None,
            validator: TokenStream::of("None"),
        },
    ]
}

fn field() -> Field {
    Field {
        name: None,
        desc: Some("all of them".to_string()),
        deprecation: None,
        external: true,
        provides: Some("a".to_string()),
        requires_: None,
        cache_control: CacheControl {
            public: false,
            max_age: 30,
        },
        guard: None,
    }
}

#[test]
fn a_cache_policy_is_an_expression() {
    let cache = CacheControl {
        public: true,
        max_age: 60,
    };
    assert_eq!(
        text(&cache_control("gql", &cache)),
        norm("gql::CacheControl { public: true, max_age: 60usize, }")
    );
}

#[test]
fn a_field_is_entered_into_the_schema() {
    let code = schema_field("gql", "allUsers", &field(), &params(), &TokenStream::of("Vec<User>"));
    assert_eq!(
        text(&code),
        norm(
            r#"
            fields.insert("allUsers".to_string(), gql::registry::Field {
                name: "allUsers".to_string(),
                description: Some("all of them"),
                args: {
                    let mut args = std::collections::HashMap::new();
                    args.insert("first", gql::registry::InputValue {
                        name: "first",
                        description: Some("how \"many\""),
                        ty: <i32 as gql::Type>::create_type_info(registry),
                        default_value: Some("10"),
                        validator: Some(max),
                    });
                    args.insert("afterId", gql::registry::InputValue {
                        name: "afterId",
                        description: None,
                        ty: <Option<ID> as gql::Type>::create_type_info(registry),
                        default_value: None,
                        validator: None,
                    });
                    args
                },
                ty: <Vec<User> as gql::Type>::create_type_info(registry),
                deprecation: None,
                cache_control: gql::CacheControl { public: false, max_age: 30usize, },
                external: true,
                provides: Some("a"),
                requires: None,
            });
            "#
        )
    );
}

#[test]
fn a_field_is_resolved() {
    let code = resolver(
        "gql",
        "allUsers",
        &Some(TokenStream::of("Guard")),
        &params(),
        &TokenStream::of("all_users"),
    );
    assert_eq!(
        text(&code),
        norm(
            r#"
            if ctx.name.as_str() == "allUsers" {
                use gql::OutputValueType;
                Guard.check(ctx).await
                    .map_err(|err| err.into_error_with_path(ctx.position, ctx.path_node.as_ref().unwrap().to_json()))?;
                let first: i32 = ctx.param_value("first", ctx.position, || gql::Value::Int(10))?;
                let after_id: Option<ID> = ctx.param_value("afterId", ctx.position, || gql::Value::Null)?;
                let ctx_obj = ctx.with_selection_set(&ctx.selection_set);
                return OutputValueType::resolve(&{
                    let res = self.all_users(ctx, first, after_id).await;
                    res.map_err(|err| err.into_error_with_path(ctx.position, ctx.path_node.as_ref().unwrap().to_json()))?
                }, &ctx_obj, ctx.position).await;
            }
            "#
        )
    );
}

#[test]
fn parameters_are_handed_on_with_commas() {
    assert_eq!(text(&print_idents(&params())), norm("first, after_id"));
    assert_eq!(text(&print_idents(&vec![])), "");
}
