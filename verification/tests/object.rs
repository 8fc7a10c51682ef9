use object_derive::args::{Argument, CacheControl, Entity, Field, MethodArgs, Object};
use object_derive::error::Error;
use object_derive::method::{expand_method, is_refused, is_sound, remove_first, Parts};
use object_derive::object::{check_block, generate, gql_typename};
use object_derive::output_type::OutputType;
use object_derive::syntax::{
    Attribute, Block, FnArg, Ident, ImplItem, ItemImpl, Method, Pat, PatIdent, PatType, Path,
    PathSegment, ReturnType, Signature, Type, TypePath, TypeReference,
};
use object_derive::tokens::{Token, TokenStream};
use syn::punctuated::Punctuated;
use syn::token::Comma;

fn source(stream: &TokenStream) -> String {
    let mut out = String::new();
    for token in &stream.tokens {
        out.push_str(&match token {
            Token::Code(code) => code.clone(),
            Token::Str(value) => proc_macro2::Literal::string(value).to_string(),
            Token::Usize(value) => format!("{}usize", value),
        });
        out.push(' ');
    }
    out
}

fn text(stream: &TokenStream) -> String {
    norm(&source(stream))
}

fn flatten(stream: proc_macro2::TokenStream, out: &mut Vec<String>) {
    for tree in stream {
        match tree {
            proc_macro2::TokenTree::Group(group) => {
                out.push(format!("{:?}", group.delimiter()));
                flatten(group.stream(), out);
                out.push("End".to_string());
            }
            other => out.push(other.to_string()),
        }
    }
}

fn norm(source: &str) -> String {
    let mut out = Vec::new();
    flatten(source.parse().unwrap(), &mut out);
    out.join(" ")
}

fn nothing() -> TokenStream {
    TokenStream::new()
}

fn path(segments: &[&str]) -> Path {
    let mut all = Punctuated::new();
    for segment in segments {
        all.push(PathSegment {
            ident: segment.to_string(),
            arguments: false,
        });
    }
    Path {
        leading_colon: false,
        segments: all,
    }
}

fn path_type(segments: &[&str]) -> Type {
    Type::Path(TypePath {
        path: path(segments),
        tokens: TokenStream::of(&segments.join("::")),
    })
}

fn attribute(name: &str, source: &str, inner: bool) -> Attribute {
    Attribute {
        path: path(&[name]),
        inner,
        tokens: TokenStream::of(source),
    }
}

fn receiver() -> FnArg {
    FnArg::Receiver(TokenStream::of("&self"))
}

fn arg(name: &str, ty: &str) -> FnArg {
    FnArg::Typed(PatType {
        attrs: vec![attribute("arg", "#[arg]", false)],
        pat: Pat::Ident(PatIdent {
            ident: name.to_string(),
            tokens: TokenStream::of(name),
        }),
        ty: path_type(&[ty]),
    })
}

fn context() -> FnArg {
    FnArg::Typed(PatType {
        attrs: vec![],
        pat: Pat::Ident(PatIdent {
            ident: "ctx".to_string(),
            tokens: TokenStream::of("ctx"),
        }),
        ty: Type::Reference(TypeReference {
            elem: Box::new(path_type(&["Context"])),
            tokens: TokenStream::of("&Context<'_>"),
        }),
    })
}

fn cache() -> CacheControl {
    CacheControl {
        public: true,
        max_age: 0,
    }
}

fn a_field() -> Field {
    Field {
        name: None,
        desc: None,
        deprecation: None,
        external: false,
        provides: None,
        requires_: None,
        cache_control: cache(),
        guard: None,
    }
}

fn error(message: &str) -> Error {
    Error::new_spanned(TokenStream::of("here"), message)
}

fn method(name: &str, inputs: Vec<FnArg>, output: &str) -> Method {
    let arguments = inputs
        .iter()
        .map(|_| {
            Ok(Argument {
                name: None,
                desc: None,
                default: None,
                validator: TokenStream::of("None"),
            })
        })
        .collect();
    let inputs: Punctuated<FnArg, Comma> = inputs.into_iter().collect();
    Method {
        attrs: vec![],
        vis: nothing(),
        defaultness: nothing(),
        sig: Signature {
            constness: nothing(),
            asyncness: Some(TokenStream::of("async")),
            unsafety: nothing(),
            abi: nothing(),
            ident: Ident {
                name: name.to_string(),
                tokens: TokenStream::of(name),
            },
            generics: nothing(),
            inputs,
            variadic: None,
            output: ReturnType::Type(TokenStream::of(output)),
            where_clause: nothing(),
        },
        block: Block {
            stmts: TokenStream::of("body()"),
            bodiless: false,
        },
        args: MethodArgs {
            entity: Ok(None),
            field: Ok(None),
            output: Ok(OutputType::Value {
                inner: TokenStream::of(output),
                value_type: TokenStream::of(output),
            }),
            arguments,
        },
    }
}

fn field(name: &str, inputs: Vec<FnArg>, output: &str) -> Method {
    let mut m = method(name, inputs, output);
    m.attrs.push(attribute("field", "#[field]", false));
    m.args.field = Ok(Some(a_field()));
    m
}

fn entity(name: &str, inputs: Vec<FnArg>, output: &str) -> Method {
    let mut m = method(name, inputs, output);
    m.attrs.push(attribute("entity", "#[entity]", false));
    m.args.entity = Ok(Some(Entity { guard: None }));
    m
}

fn object() -> Object {
    Object {
        internal: false,
        name: None,
        desc: None,
        cache_control: cache(),
        extends: false,
    }
}

fn block(items: Vec<ImplItem>) -> ItemImpl {
    ItemImpl {
        attrs: vec![],
        defaultness: nothing(),
        unsafety: nothing(),
        generics: nothing(),
        trait_: nothing(),
        self_ty: path_type(&["schema", "Query"]),
        where_clause: nothing(),
        items,
    }
}

fn expand(m: &mut Method) -> Result<Parts, Error> {
    assert!(is_sound(m));
    let mut parts = Parts::new();
    match expand_method("gql", m, &mut parts) {
        Ok(()) => Ok(parts),
        Err(e) => Err(e),
    }
}

fn message(result: Result<Parts, Error>) -> String {
    match result {
        Ok(_) => panic!("accepted"),
        Err(e) => e.message,
    }
}

#[test]
fn a_field_is_rewritten() {
    let mut m = field("user_name", vec![receiver(), arg("user_id", "ID")], "String");
    m.attrs.insert(0, attribute("doc", "#[doc = \"x\"]", false));
    m.attrs.push(attribute("allow", "#![allow(unused)]", true));
    m.vis = TokenStream::of("pub");
    let parts = expand(&mut m).ok().unwrap();
    assert_eq!(
        text(&m.print()),
        norm(
            r#"
            #[doc = "x"]
            pub async fn user_name(&self, _: &gql::Context<'_>, user_id: ID) -> gql::FieldResult<String> {
                #![allow(unused)]
                {
                    let value: String = async move { body() }.await;
                    Ok(value)
                }
            }
            "#
        )
    );
    assert!(text(&parts.resolvers).contains("\"userName\""));
    assert!(text(&parts.schema_fields).contains("\"userId\""));
    assert!(parts.finders.is_empty());
}

#[test]
fn a_result_is_left_as_it_is() {
    let mut m = field("name", vec![receiver(), context()], "FieldResult<String>");
    m.args.output = Ok(OutputType::Result {
        value_type: TokenStream::of("String"),
    });
    let parts = expand(&mut m).ok().unwrap();
    assert_eq!(
        text(&m.print()),
        norm("async fn name(&self, ctx: &Context<'_>) -> FieldResult<String> { body() }")
    );
    assert!(text(&parts.schema_fields).contains(&norm("<String as gql::Type>")));
}

#[test]
fn a_given_field_name_is_shown() {
    let mut m = field("user_name", vec![receiver()], "String");
    m.args.field = Ok(Some(Field {
        name: Some("given_name".to_string()),
        ..a_field()
    }));
    let parts = expand(&mut m).ok().unwrap();
    assert!(text(&parts.resolvers).contains("\"given_name\""));
    assert!(!text(&parts.resolvers).contains("\"userName\""));
}

#[test]
fn an_entity_wins_over_a_field() {
    let mut m = entity("find", vec![receiver(), arg("a", "ID"), arg("b_c", "ID")], "User");
    m.args.field = Ok(Some(a_field()));
    m.attrs.push(attribute("field", "#[field]", false));
    let parts = expand(&mut m).ok().unwrap();
    assert_eq!(parts.finders.len(), 1);
    assert_eq!(parts.finders[0].keys, 2);
    assert_eq!(text(&parts.resolvers), "");
    assert_eq!(
        text(&parts.add_keys),
        norm("registry.add_keys(&<User as gql::Type>::type_name(), \"a bC\");")
    );
    assert_eq!(
        text(&parts.create_types),
        norm("<User as gql::Type>::create_type_info(registry);")
    );
    assert_eq!(m.attrs.len(), 1);
    assert!(m.attrs[0].path.is_ident("field"));
}

#[test]
fn an_entity_need_not_be_asynchronous() {
    let mut m = entity("find", vec![receiver()], "User");
    m.sig.asyncness = None;
    assert!(expand(&mut m).is_ok());
}

#[test]
fn a_plain_method_loses_the_first_field_attribute_only() {
    let mut m = method("helper", vec![receiver(), arg("a", "i32")], "i32");
    m.attrs.push(attribute("entity", "#[entity]", false));
    m.attrs.push(attribute("field", "#[field(skip)]", false));
    m.attrs.push(attribute("field", "#[field]", false));
    let parts = expand(&mut m).ok().unwrap();
    assert_eq!(
        text(&m.print()),
        norm("#[entity] #[field] async fn helper(&self, #[arg] a: i32) -> i32 { body() }")
    );
    assert_eq!(text(&parts.resolvers), "");
    assert!(parts.finders.is_empty());
}

#[test]
fn errors_of_the_readings_come_first() {
    let mut m = field("f", vec![receiver(), receiver()], "i32");
    m.args.entity = Err(error("bad entity"));
    m.args.field = Err(error("bad field"));
    m.args.output = Err(error("bad output"));
    m.sig.asyncness = None;
    assert!(is_refused(&m));
    assert_eq!(message(expand(&mut m)), "bad entity");
    m.args.entity = Ok(None);
    assert_eq!(message(expand(&mut m)), "bad field");
    m.args.field = Ok(Some(a_field()));
    assert_eq!(message(expand(&mut m)), "Must be asynchronous");
    m.sig.asyncness = Some(TokenStream::of("async"));
    assert_eq!(message(expand(&mut m)), "bad output");
    m.args.output = Ok(OutputType::Result {
        value_type: TokenStream::of("i32"),
    });
    assert_eq!(
        message(expand(&mut m)),
        "The self receiver must be the first parameter."
    );
}

#[test]
fn a_synchronous_field_is_shown_as_a_whole() {
    let mut m = field("f", vec![receiver()], "i32");
    m.sig.asyncness = None;
    match expand(&mut m) {
        Ok(_) => panic!("accepted"),
        Err(e) => assert_eq!(text(&e.tokens), norm("#[field] fn f(&self) -> i32 { body() }")),
    }
}

#[test]
fn a_missing_return_type_is_refused() {
    let mut m = field("f", vec![receiver()], "i32");
    m.sig.output = ReturnType::Default;
    match expand(&mut m) {
        Ok(_) => panic!("accepted"),
        Err(e) => {
            assert_eq!(e.message, "Missing type");
            assert_eq!(text(&e.tokens), "");
        }
    }
    let mut m = entity("f", vec![receiver()], "i32");
    m.sig.output = ReturnType::Default;
    assert_eq!(message(expand(&mut m)), "Missing type");
}

#[test]
fn a_refused_method_keeps_all_but_the_attributes_that_were_read() {
    let mut m = field("f", vec![receiver(), arg("a", "i32"), receiver(), arg("b", "i32")], "i32");
    assert!(expand(&mut m).is_err());
    assert_eq!(
        text(&m.print()),
        norm("#[field] async fn f(&self, a: i32, &self, #[arg] b: i32) -> i32 { body() }")
    );
}

#[test]
fn a_resolver_without_parameters_is_not_sound() {
    let m = field("f", vec![], "i32");
    assert!(!is_sound(&m));
    assert!(!is_refused(&m));
    let mut m = entity("f", vec![receiver()], "i32");
    m.attrs.clear();
    assert!(!is_sound(&m));
    let m = method("f", vec![], "i32");
    assert!(is_sound(&m));
}

#[test]
fn a_body_that_is_left_out_is_printed_as_a_semicolon() {
    let mut m = method("f", vec![receiver()], "i32");
    m.block = Block {
        stmts: TokenStream::of(";"),
        bodiless: true,
    };
    assert_eq!(text(&m.print()), norm("async fn f(&self) -> i32;"));
}

#[test]
fn a_trailing_comma_is_printed() {
    let mut m = method("f", vec![receiver()], "i32");
    m.sig.inputs.push_punct(Comma::default());
    assert_eq!(text(&m.print()), norm("async fn f(&self,) -> i32 { body() }"));
}

fn dots(pat: Pat) -> FnArg {
    FnArg::Typed(PatType {
        attrs: vec![attribute("arg", "#[arg]", false)],
        pat,
        ty: Type::Dots(TokenStream::of("...")),
    })
}

#[test]
fn dots_behind_the_parameters_are_printed() {
    let mut m = method("f", vec![receiver()], "i32");
    m.sig.variadic = Some(TokenStream::of("..."));
    assert_eq!(text(&m.print()), norm("async fn f(&self, ...) -> i32 { body() }"));
    m.sig.inputs.push_punct(Comma::default());
    assert_eq!(text(&m.print()), norm("async fn f(&self, ...) -> i32 { body() }"));
    let mut m = method("f", vec![], "i32");
    m.sig.variadic = Some(TokenStream::of("..."));
    assert_eq!(text(&m.print()), norm("async fn f(...) -> i32 { body() }"));
}

#[test]
fn dots_among_the_parameters_are_printed_once() {
    let mut m = method("f", vec![receiver(), dots(Pat::Dots(TokenStream::of("...")))], "i32");
    m.sig.inputs.push_punct(Comma::default());
    m.sig.variadic = Some(TokenStream::of("..."));
    assert_eq!(text(&m.print()), norm("async fn f(&self, #[arg] ...,) -> i32 { body() }"));
    let name = Pat::Ident(PatIdent {
        ident: "rest".to_string(),
        tokens: TokenStream::of("rest"),
    });
    let mut m = method("f", vec![receiver(), dots(name)], "i32");
    m.sig.variadic = Some(TokenStream::of("..."));
    assert_eq!(text(&m.print()), norm("async fn f(&self, #[arg] rest: ...) -> i32 { body() }"));
}

#[test]
fn the_context_stands_in_front_of_the_dots() {
    let mut m = field("f", vec![receiver()], "i32");
    m.sig.variadic = Some(TokenStream::of("..."));
    assert!(expand(&mut m).is_ok());
    assert!(text(&m.print()).contains(&norm("(&self, _: &gql::Context<'_>, ...)")));
}

#[test]
fn dots_are_no_argument() {
    let mut m = field("f", vec![receiver(), dots(Pat::Dots(TokenStream::of("...")))], "i32");
    match expand(&mut m) {
        Ok(_) => panic!("accepted"),
        Err(e) => {
            assert_eq!(e.message, "Invalid argument type.");
            assert_eq!(text(&e.tokens), norm("#[arg] ...: ..."));
        }
    }
}

#[test]
fn attributes_are_found_by_a_bare_name() {
    let mut attrs = vec![
        attribute("a", "#[a]", false),
        Attribute {
            path: path(&["x", "field"]),
            inner: false,
            tokens: TokenStream::of("#[x::field]"),
        },
        Attribute {
            path: Path {
                leading_colon: true,
                ..path(&["field"])
            },
            inner: false,
            tokens: TokenStream::of("#[::field]"),
        },
        attribute("field", "#[field]", false),
        attribute("field", "#[field(name = \"x\")]", false),
    ];
    remove_first(&mut attrs, "field");
    assert_eq!(attrs.len(), 4);
    assert_eq!(text(&attrs[3].tokens), norm("#[field(name = \"x\")]"));
    remove_first(&mut attrs, "field");
    assert_eq!(attrs.len(), 3);
    remove_first(&mut attrs, "field");
    assert_eq!(attrs.len(), 3);
}

#[test]
fn the_name_is_given_or_that_of_the_type() {
    let b = block(vec![]);
    assert_eq!(gql_typename(&object(), &b).ok().unwrap(), "Query");
    let named = Object {
        name: Some("Root".to_string()),
        ..object()
    };
    assert_eq!(gql_typename(&named, &b).ok().unwrap(), "Root");
}

#[test]
fn a_block_on_no_path_is_refused() {
    let mut b = block(vec![ImplItem::Method(field("f", vec![], "i32"))]);
    b.self_ty = Type::Other(TokenStream::of("(i32, i32)"));
    assert!(check_block(&object(), &b, &None));
    match generate(&object(), &mut b, "gql", Some(error("reserved"))) {
        Ok(_) => panic!("accepted"),
        Err(e) => {
            assert_eq!(e.message, "Invalid type");
            assert_eq!(text(&e.tokens), norm("(i32, i32)"));
        }
    }
}

#[test]
fn a_reserved_name_is_refused() {
    let mut b = block(vec![ImplItem::Method(field("f", vec![receiver()], "i32"))]);
    let before = text(&b.print());
    match generate(&object(), &mut b, "gql", Some(error("reserved"))) {
        Ok(_) => panic!("accepted"),
        Err(e) => assert_eq!(e.message, "reserved"),
    }
    assert_eq!(text(&b.print()), before);
}

#[test]
fn blocks_that_cannot_be_expanded_are_found() {
    let b = block(vec![ImplItem::Method(field("f", vec![], "i32"))]);
    assert!(!check_block(&object(), &b, &None));
    assert!(check_block(&object(), &b, &Some(error("reserved"))));
    let mut first = field("g", vec![receiver()], "i32");
    first.sig.asyncness = None;
    let b = block(vec![
        ImplItem::Method(first),
        ImplItem::Method(field("f", vec![], "i32")),
    ]);
    assert!(check_block(&object(), &b, &None));
    let mut b = block(vec![]);
    b.self_ty = path_type(&[]);
    assert!(!check_block(&object(), &b, &None));
    let mut m = field("f", vec![receiver()], "i32");
    m.args.arguments.clear();
    let b = block(vec![ImplItem::Method(m)]);
    assert!(!check_block(&object(), &b, &None));
}

#[test]
fn the_first_refused_method_decides() {
    let mut bad = field("bad", vec![receiver()], "i32");
    bad.sig.asyncness = None;
    let mut worse = field("worse", vec![receiver()], "i32");
    worse.args.field = Err(error("unread"));
    let mut b = block(vec![
        ImplItem::Method(field("good", vec![receiver()], "i32")),
        ImplItem::Method(bad),
        ImplItem::Method(worse),
        ImplItem::Method(field("last", vec![receiver()], "i32")),
    ]);
    assert!(check_block(&object(), &b, &None));
    match generate(&object(), &mut b, "gql", None) {
        Ok(_) => panic!("accepted"),
        Err(e) => assert_eq!(e.message, "Must be asynchronous"),
    }
    assert_eq!(
        text(&b.items[0].print()),
        norm(
            "async fn good(&self, _: &gql::Context<'_>) -> gql::FieldResult<i32> \
             { { let value: i32 = async move { body() }.await; Ok(value) } }"
        )
    );
    assert_eq!(
        text(&b.items[1].print()),
        norm("#[field] fn bad(&self) -> i32 { body() }")
    );
    assert_eq!(
        text(&b.items[3].print()),
        norm("#[field] async fn last(&self) -> i32 { body() }")
    );
}

#[test]
fn a_block_is_expanded() {
    let mut b = block(vec![
        ImplItem::Other(TokenStream::of("const LIMIT: i32 = 3;")),
        ImplItem::Method(entity("find_by_id", vec![receiver(), arg("id", "ID")], "User")),
        ImplItem::Method(field("user_count", vec![receiver(), context()], "i32")),
        ImplItem::Method(entity(
            "find_by_both",
            vec![receiver(), arg("id", "ID"), arg("name", "String")],
            "User",
        )),
        ImplItem::Method(method("helper", vec![receiver()], "i32")),
    ]);
    b.attrs.push(attribute("cfg", "#[cfg(test)]", false));
    b.generics = TokenStream::of("<T: Send>");
    b.self_ty = Type::Path(TypePath {
        path: path(&["schema", "Query"]),
        tokens: TokenStream::of("schema::Query<T>"),
    });
    b.where_clause = TokenStream::of("where T: Sync");
    let args = Object {
        desc: Some("the root".to_string()),
        extends: true,
        cache_control: CacheControl {
            public: false,
            max_age: 5,
        },
        ..object()
    };
    assert!(check_block(&args, &b, &None));
    let expanded = generate(&args, &mut b, "gql", None).ok().unwrap();
    let expected = norm(
        r#"
        #[cfg(test)]
        impl<T: Send> schema::Query<T> where T: Sync {
            const LIMIT: i32 = 3;
            async fn find_by_id(&self, _: &gql::Context<'_>, id: ID) -> gql::FieldResult<User> {
                {
                    let value: User = async move { body() }.await;
                    Ok(value)
                }
            }
            async fn user_count(&self, ctx: &Context<'_>) -> gql::FieldResult<i32> {
                {
                    let value: i32 = async move { body() }.await;
                    Ok(value)
                }
            }
            async fn find_by_both(&self, _: &gql::Context<'_>, id: ID, name: String) -> gql::FieldResult<User> {
                {
                    let value: User = async move { body() }.await;
                    Ok(value)
                }
            }
            async fn helper(&self) -> i32 { body() }
        }

        impl<T: Send> gql::Type for schema::Query<T> where T: Sync {
            fn type_name() -> std::borrow::Cow<'static, str> {
                std::borrow::Cow::Borrowed("Query")
            }

            fn create_type_info(registry: &mut gql::registry::Registry) -> String {
                let ty = registry.create_type::<Self, _>(|registry| gql::registry::Type::Object {
                    name: "Query".to_string(),
                    description: Some("the root"),
                    fields: {
                        let mut fields = std::collections::HashMap::new();
                        fields.insert("userCount".to_string(), gql::registry::Field {
                            name: "userCount".to_string(),
                            description: None,
                            args: {
                                let mut args = std::collections::HashMap::new();
                                args
                            },
                            ty: <i32 as gql::Type>::create_type_info(registry),
                            deprecation: None,
                            cache_control: gql::CacheControl {
                                public: true,
                                max_age: 0usize,
                            },
                            external: false,
                            provides: None,
                            requires: None,
                        });
                        fields
                    },
                    cache_control: gql::CacheControl {
                        public: false,
                        max_age: 5usize,
                    },
                    extends: true,
                    keys: None,
                });
                <User as gql::Type>::create_type_info(registry);
                <User as gql::Type>::create_type_info(registry);
                registry.add_keys(&<User as gql::Type>::type_name(), "id");
                registry.add_keys(&<User as gql::Type>::type_name(), "id name");
                ty
            }
        }

        #[gql::async_trait::async_trait]
        impl<T: Send> gql::ObjectType for schema::Query<T> where T: Sync {
            async fn resolve_field(&self, ctx: &gql::Context<'_>) -> gql::Result<gql::serde_json::Value> {
                if ctx.name.as_str() == "userCount" {
                    use gql::OutputValueType;
                    let ctx_obj = ctx.with_selection_set(&ctx.selection_set);
                    return OutputValueType::resolve(&{
                        let res = self.user_count(ctx, ).await;
                        res.map_err(|err| err.into_error_with_path(ctx.position, ctx.path_node.as_ref().unwrap().to_json()))?
                    }, &ctx_obj, ctx.position).await;
                }
                Err(gql::QueryError::FieldNotFound {
                    field_name: ctx.name.clone(),
                    object: "Query".to_string(),
                }.into_error(ctx.position))
            }

            async fn find_entity(&self, ctx: &gql::Context<'_>, pos: gql::Pos, params: &gql::Value) -> gql::Result<gql::serde_json::Value> {
                let params = match params {
                    gql::Value::Object(params) => params,
                    _ => return Err(gql::QueryError::EntityNotFound.into_error(pos)),
                };
                let typename = if let Some(gql::Value::String(typename)) = params.get("__typename") {
                    typename
                } else {
                    return Err(gql::QueryError::TypeNameNotExists.into_error(pos));
                };
                if typename == &<User as gql::Type>::type_name() {
                    if let (Some(id), Some(name)) = (
                        params.get("id").and_then(|value| {
                            let value: Option<ID> = gql::InputValueType::parse(value);
                            value
                        }),
                        params.get("name").and_then(|value| {
                            let value: Option<String> = gql::InputValueType::parse(value);
                            value
                        })
                    ) {
                        let ctx_obj = ctx.with_selection_set(&ctx.selection_set);
                        return gql::OutputValueType::resolve(&self.find_by_both(ctx, id, name).await.map_err(|err| err.into_error(pos))?, &ctx_obj, pos).await;
                    }
                }
                if typename == &<User as gql::Type>::type_name() {
                    if let (Some(id)) = (
                        params.get("id").and_then(|value| {
                            let value: Option<ID> = gql::InputValueType::parse(value);
                            value
                        })
                    ) {
                        let ctx_obj = ctx.with_selection_set(&ctx.selection_set);
                        return gql::OutputValueType::resolve(&self.find_by_id(ctx, id).await.map_err(|err| err.into_error(pos))?, &ctx_obj, pos).await;
                    }
                }
                Err(gql::QueryError::EntityNotFound.into_error(pos))
            }
        }

        #[gql::async_trait::async_trait]
        impl<T: Send> gql::OutputValueType for schema::Query<T> where T: Sync {
            async fn resolve(&self, ctx: &gql::ContextSelectionSet<'_>, pos: gql::Pos) -> gql::Result<gql::serde_json::Value> {
                gql::do_resolve(ctx, self).await
            }
        }
        "#,
    );
    assert_eq!(text(&expanded), expected);
    let file = syn::parse_file(&source(&expanded)).unwrap();
    assert_eq!(file.items.len(), 4);
}
