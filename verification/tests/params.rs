use object_derive::args::{Argument, DefaultValue};
use object_derive::error::Error;
use object_derive::params::{
    check_inputs, clear_attrs, context_param, names_context, read_inputs, rewrite_inputs,
    schema_name, Param, Refusal,
};
use object_derive::syntax::{
    Attribute, FnArg, Pat, PatIdent, PatType, Path, PathSegment, Type, TypePath, TypeReference,
};
use object_derive::tokens::{Token, TokenStream};
use syn::punctuated::Punctuated;
use syn::token::Comma;

fn text(stream: &TokenStream) -> String {
    let mut out = String::new();
    for token in &stream.tokens {
        out.push_str(&match token {
            Token::Code(code) => code.clone(),
            Token::Str(value) => proc_macro2::Literal::string(value).to_string(),
            Token::Usize(value) => format!("{}usize", value),
        });
        out.push(' ');
    }
    norm(&out)
}

fn flatten(stream: proc_macro2::TokenStream, out: &mut Vec<String>) {
    for tree in stream {
        match tree {
            proc_macro2::TokenTree::Group(group) => {
                out.push(format!("{:?}", group.delimiter()));
                flatten(group.stream(), out);
                out.push("End".to_string());
            }
            other => out.push(other.to_string()),
        }
    }
}

fn norm(source: &str) -> String {
    let mut out = Vec::new();
    flatten(source.parse().unwrap(), &mut out);
    out.join(" ")
}

fn path(segments: &[&str]) -> Path {
    let mut all = Punctuated::new();
    for segment in segments {
        all.push(PathSegment {
            ident: segment.to_string(),
            arguments: false,
        });
    }
    Path {
        leading_colon: false,
        segments: all,
    }
}

fn path_type(segments: &[&str]) -> Type {
    Type::Path(TypePath {
        path: path(segments),
        tokens: TokenStream::of(&segments.join("::")),
    })
}

fn reference(elem: Type) -> Type {
    let tokens = TokenStream::of("&").stream(elem.print());
    Type::Reference(TypeReference {
        elem: Box::new(elem),
        tokens,
    })
}

fn attribute(name: &str) -> Attribute {
    Attribute {
        path: path(&[name]),
        inner: false,
        tokens: TokenStream::of(&format!("#[{}]", name)),
    }
}

fn bind(name: &str) -> Pat {
    Pat::Ident(PatIdent {
        ident: name.to_string(),
        tokens: TokenStream::of(name),
    })
}

fn typed(pat: Pat, ty: Type) -> FnArg {
    FnArg::Typed(PatType {
        attrs: vec![attribute("arg")],
        pat,
        ty,
    })
}

fn receiver() -> FnArg {
    FnArg::Receiver(TokenStream::of("&self"))
}

fn argument(name: Option<&str>) -> Result<Argument, Error> {
    Ok(Argument {
        name: name.map(|n| n.to_string()),
        desc: None,
        default: None,
        validator: TokenStream::of("None"),
    })
}

fn list(args: Vec<FnArg>) -> Punctuated<FnArg, Comma> {
    args.into_iter().collect()
}

fn plain(args: Vec<FnArg>) -> (Punctuated<FnArg, Comma>, Vec<Result<Argument, Error>>) {
    let arguments = args.iter().map(|_| argument(None)).collect();
    (list(args), arguments)
}

fn refuse(args: Vec<FnArg>) -> Refusal {
    let (inputs, arguments) = plain(args);
    assert!(check_inputs(&inputs, &arguments));
    match read_inputs(&inputs, &arguments) {
        Ok(_) => panic!("accepted"),
        Err(refusal) => refusal,
    }
}

fn accept(args: Vec<FnArg>) -> Vec<Param> {
    let (inputs, arguments) = plain(args);
    assert!(check_inputs(&inputs, &arguments));
    match read_inputs(&inputs, &arguments) {
        Ok(params) => params,
        Err(refusal) => panic!("{}", refusal.error.message),
    }
}

#[test]
fn names_are_camel_cased_unless_given() {
    assert_eq!(schema_name(&None, "user_name"), "userName");
    assert_eq!(schema_name(&None, "id"), "id");
    assert_eq!(schema_name(&Some("user_name".to_string()), "other"), "user_name");
}

#[test]
fn arguments_are_read_in_order() {
    let params = accept(vec![
        receiver(),
        typed(bind("ctx"), reference(path_type(&["gql", "Context"]))),
        typed(bind("first_name"), path_type(&["String"])),
        typed(bind("age"), path_type(&["i32"])),
    ]);
    assert_eq!(params.len(), 2);
    assert_eq!(params[0].name, "firstName");
    assert_eq!(text(&params[0].ident), "first_name");
    assert_eq!(text(&params[0].ty), "String");
    assert_eq!(params[1].name, "age");
}

#[test]
fn attributes_of_an_argument_are_carried_over() {
    let inputs = list(vec![receiver(), typed(bind("a_b"), path_type(&["i32"]))]);
    let arguments = vec![
        argument(None),
        Ok(Argument {
            name: Some("given".to_string()),
            desc: Some("what".to_string()),
            default: Some(DefaultValue {
                text: "7".to_string(),
                repr: TokenStream::of("Value::Int(7)"),
            }),
            validator: TokenStream::of("Some(v)"),
        }),
    ];
    let params = match read_inputs(&inputs, &arguments) {
        Ok(params) => params,
        Err(_) => panic!("refused"),
    };
    assert_eq!(params[0].name, "given");
    assert_eq!(params[0].desc.as_deref(), Some("what"));
    assert_eq!(params[0].default.as_ref().unwrap().text, "7");
    assert_eq!(text(&params[0].default.as_ref().unwrap().repr), norm("Value::Int(7)"));
    assert_eq!(text(&params[0].validator), norm("Some(v)"));
}

#[test]
fn a_late_receiver_is_refused() {
    let refusal = refuse(vec![receiver(), receiver()]);
    assert_eq!(refusal.index, 1);
    assert_eq!(
        refusal.error.message,
        "The self receiver must be the first parameter."
    );
    assert_eq!(text(&refusal.error.tokens), norm("&self"));
}

#[test]
fn a_missing_receiver_is_refused() {
    let refusal = refuse(vec![typed(bind("a"), path_type(&["i32"]))]);
    assert_eq!(refusal.index, 0);
    assert_eq!(
        refusal.error.message,
        "The self receiver must be the first parameter."
    );
    assert_eq!(text(&refusal.error.tokens), norm("#[arg] a: i32"));
}

#[test]
fn a_late_context_is_refused() {
    let refusal = refuse(vec![
        receiver(),
        typed(bind("a"), path_type(&["i32"])),
        typed(bind("ctx"), reference(path_type(&["Context"]))),
    ]);
    assert_eq!(refusal.index, 2);
    assert_eq!(refusal.error.message, "The Context must be the second argument.");
    assert_eq!(text(&refusal.error.tokens), "ctx");
}

#[test]
fn a_reference_to_another_path_is_refused() {
    let refusal = refuse(vec![
        receiver(),
        typed(bind("a"), reference(path_type(&["Context", "Inner"]))),
    ]);
    assert_eq!(refusal.index, 1);
    assert_eq!(refusal.error.message, "The Context must be the second argument.");
}

#[test]
fn a_reference_to_no_path_is_passed_over() {
    let params = accept(vec![
        receiver(),
        typed(bind("a"), reference(Type::Other(TokenStream::of("[u8]")))),
        typed(bind("b"), path_type(&["i32"])),
    ]);
    assert_eq!(params.len(), 1);
    assert_eq!(params[0].name, "b");
}

#[test]
fn other_types_and_patterns_are_refused() {
    let refusal = refuse(vec![
        receiver(),
        typed(bind("a"), Type::Other(TokenStream::of("(i32, i32)"))),
    ]);
    assert_eq!(refusal.error.message, "Invalid argument type.");
    assert_eq!(text(&refusal.error.tokens), norm("#[arg] a: (i32, i32)"));
    let refusal = refuse(vec![
        receiver(),
        typed(Pat::Other(TokenStream::of("Point { x, y }")), path_type(&["Point"])),
    ]);
    assert_eq!(refusal.error.message, "Invalid argument type.");
}

#[test]
fn an_unreadable_argument_is_refused_with_its_own_error() {
    let inputs = list(vec![receiver(), typed(bind("a"), path_type(&["i32"]))]);
    let arguments = vec![
        argument(None),
        Err(Error::new_spanned(TokenStream::of("arg"), "Invalid value")),
    ];
    match read_inputs(&inputs, &arguments) {
        Ok(_) => panic!("accepted"),
        Err(refusal) => {
            assert_eq!(refusal.index, 1);
            assert_eq!(refusal.error.message, "Invalid value");
            assert_eq!(text(&refusal.error.tokens), "arg");
        }
    }
}

#[test]
fn the_first_refused_parameter_decides() {
    let refusal = refuse(vec![
        receiver(),
        typed(bind("a"), Type::Other(TokenStream::of("!"))),
        receiver(),
    ]);
    assert_eq!(refusal.index, 1);
    assert_eq!(refusal.error.message, "Invalid argument type.");
}

fn attrs_of(arg: &FnArg) -> usize {
    match arg {
        FnArg::Receiver(_) => 0,
        FnArg::Typed(pat) => pat.attrs.len(),
    }
}

#[test]
fn only_arguments_in_front_lose_their_attributes() {
    let mut inputs = list(vec![
        receiver(),
        typed(bind("ctx"), reference(path_type(&["Context"]))),
        typed(bind("a"), path_type(&["i32"])),
        typed(bind("b"), path_type(&["i32"])),
    ]);
    clear_attrs(&mut inputs, 3);
    assert_eq!(inputs.iter().map(attrs_of).collect::<Vec<_>>(), vec![0, 1, 0, 1]);
}

#[test]
fn the_context_is_put_in_where_it_is_not_named() {
    let mut inputs = list(vec![receiver(), typed(bind("a"), path_type(&["i32"]))]);
    assert!(!names_context(&inputs));
    rewrite_inputs("gql", &mut inputs);
    assert_eq!(inputs.len(), 3);
    assert_eq!(text(&inputs[0].print()), norm("&self"));
    assert_eq!(text(&inputs[1].print()), norm("_: &gql::Context<'_>"));
    assert_eq!(text(&inputs[2].print()), norm("a: i32"));
    assert!(names_context(&inputs));
    rewrite_inputs("gql", &mut inputs);
    assert_eq!(inputs.len(), 3);
}

#[test]
fn a_named_context_stays() {
    let mut inputs = list(vec![
        receiver(),
        typed(bind("ctx"), reference(path_type(&["Context"]))),
    ]);
    rewrite_inputs("gql", &mut inputs);
    assert_eq!(inputs.len(), 2);
    assert_eq!(text(&inputs[1].print()), norm("#[arg] ctx: &Context"));
}

#[test]
fn a_trailing_comma_moves_in_front_of_the_context() {
    let mut inputs = list(vec![receiver()]);
    inputs.push_punct(Comma::default());
    assert!(inputs.trailing_punct());
    rewrite_inputs("gql", &mut inputs);
    assert!(!inputs.trailing_punct());
    let mut inputs = list(vec![receiver(), typed(bind("a"), path_type(&["i32"]))]);
    inputs.push_punct(Comma::default());
    rewrite_inputs("gql", &mut inputs);
    assert!(inputs.trailing_punct());
}

#[test]
fn the_context_parameter_is_a_reference_to_the_context() {
    match context_param("gql") {
        FnArg::Typed(PatType {
            ty: Type::Reference(reference),
            ..
        }) => match *reference.elem {
            Type::Path(ty) => {
                assert_eq!(ty.path.last(), "Context");
                assert!(!ty.path.is_ident("Context"));
            }
            _ => panic!("no path"),
        },
        _ => panic!("no reference"),
    }
}

#[test]
fn lists_without_readings_or_paths_are_not_well_formed() {
    let inputs = list(vec![receiver()]);
    assert!(!check_inputs(&inputs, &vec![]));
    let inputs = list(vec![typed(bind("a"), reference(path_type(&[])))]);
    assert!(!check_inputs(&inputs, &vec![argument(None)]));
}
