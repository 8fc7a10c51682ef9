use object_derive::entity::{add_keys, create_type, find, join_names, sort_finders, Finder};
use object_derive::params::Param;
use object_derive::tokens::{Token, TokenStream};

fn text(stream: &TokenStream) -> String {
    let mut out = String::new();
    for token in &stream.tokens {
        out.push_str(&match token {
            Token::Code(code) => code.clone(),
            Token::Str(value) => proc_macro2::Literal::string(value).to_string(),
            Token::Usize(value) => format!("{}usize", value),
        });
        out.push(' ');
    }
    norm(&out)
}

fn flatten(stream: proc_macro2::TokenStream, out: &mut Vec<String>) {
    for tree in stream {
        match tree {
            proc_macro2::TokenTree::Group(group) => {
                out.push(format!("{:?}", group.delimiter()));
                flatten(group.stream(), out);
                out.push("End".to_string());
            }
            other => out.push(other.to_string()),
        }
    }
}

fn norm(source: &str) -> String {
    let mut out = Vec::new();
    flatten(source.parse().unwrap(), &mut out);
    out.join(" ")
}

fn param(name: &str, ident: &str, ty: &str) -> Param {
    Param {
        name: name.to_string(),
        ident: TokenStream::of(ident),
        ty: TokenStream::of(ty),
        desc: None,
        default: None,
        validator: TokenStream::of("None"),
    }
}

#[test]
fn key_names_are_spaced() {
    assert_eq!(join_names(&vec![]), "");
    assert_eq!(join_names(&vec![param("id", "id", "i32")]), "id");
    assert_eq!(
        join_names(&vec![param("id", "id", "i32"), param("userName", "user_name", "String")]),
        "id userName"
    );
}

#[test]
fn an_empty_first_name_takes_no_space() {
    assert_eq!(join_names(&vec![param("", "a", "i32"), param("b", "b", "i32")]), "b");
    assert_eq!(join_names(&vec![param("a", "a", "i32"), param("", "b", "i32")]), "a ");
}

#[test]
fn keys_and_type_are_registered() {
    let ty = TokenStream::of("User");
    assert_eq!(
        text(&add_keys("gql", &ty, "id name")),
        norm("registry.add_keys(&<User as gql::Type>::type_name(), \"id name\");")
    );
    assert_eq!(
        text(&create_type("gql", &ty)),
        norm("<User as gql::Type>::create_type_info(registry);")
    );
}

#[test]
fn a_lookup_takes_all_keys() {
    let params = vec![param("id", "id", "ID"), param("userName", "user_name", "String")];
    let code = find(
        "gql",
        &TokenStream::of("User"),
        &Some(TokenStream::of("Guard")),
        &params,
        &TokenStream::of("find_user"),
    );
    assert_eq!(
        text(&code),
        norm(
            r#"
            if typename == &<User as gql::Type>::type_name() {
                if let (Some(id), Some(user_name)) = (
                    params.get("id").and_then(|value| {
                        let value: Option<ID> = gql::InputValueType::parse(value);
                        value
                    }),
                    params.get("userName").and_then(|value| {
                        let value: Option<String> = gql::InputValueType::parse(value);
                        value
                    })
                ) {
                    Guard.check(ctx).await.map_err(|err| err.into_error(pos))?;
                    let ctx_obj = ctx.with_selection_set(&ctx.selection_set);
                    return gql::OutputValueType::resolve(
                        &self.find_user(ctx, id, user_name).await.map_err(|err| err.into_error(pos))?,
                        &ctx_obj, pos).await;
                }
            }
            "#
        )
    );
}

#[test]
fn a_lookup_without_keys_or_guard() {
    let code = find(
        "gql",
        &TokenStream::of("User"),
        &None,
        &vec![],
        &TokenStream::of("find_user"),
    );
    assert_eq!(
        text(&code),
        norm(
            r#"
            if typename == &<User as gql::Type>::type_name() {
                if let () = () {
                    let ctx_obj = ctx.with_selection_set(&ctx.selection_set);
                    return gql::OutputValueType::resolve(
                        &self.find_user(ctx, ).await.map_err(|err| err.into_error(pos))?,
                        &ctx_obj, pos).await;
                }
            }
            "#
        )
    );
}

fn finder(keys: usize, name: &str) -> Finder {
    Finder {
        keys,
        code: TokenStream::of(name),
    }
}

#[test]
fn lookups_are_tried_from_most_keys_to_fewest() {
    let sorted = sort_finders(vec![
        finder(1, "a"),
        finder(2, "b"),
        finder(0, "c"),
        finder(2, "d"),
        finder(1, "e"),
        finder(3, "f"),
    ]);
    let order: Vec<String> = sorted.iter().map(|f| text(&f.code)).collect();
    assert_eq!(order, vec!["f", "b", "d", "a", "e", "c"]);
    assert_eq!(sorted.iter().map(|f| f.keys).collect::<Vec<_>>(), vec![3, 2, 2, 1, 1, 0]);
    assert_eq!(sort_finders(vec![]).len(), 0);
}
