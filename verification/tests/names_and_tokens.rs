use pin_project::model::{GenericParam, Vis};
use pin_project::names::{determine_lifetime_name, determine_visibility, proj_ident, vis_to_text, Mutability};
use pin_project::tokens::{contains_fn, fold_token_stream, stream_to_text, Delimiter, TokenTree};

fn ident(name: &str) -> TokenTree {
    TokenTree::Ident { name: name.to_string(), loc: 0 }
}

fn lt(name: &str) -> GenericParam {
    GenericParam::Lifetime { name: name.to_string(), bounds: String::new() }
}

#[test]
fn projected_type_names() {
    assert_eq!(proj_ident(&"Foo".to_string(), Mutability::Mutable), "__FooProjection");
    assert_eq!(proj_ident(&"Foo".to_string(), Mutability::Immutable), "__FooProjectionRef");
    assert_eq!(proj_ident(&"Foo".to_string(), Mutability::Owned), "__FooProjectionOwned");
    assert_eq!(Mutability::Owned.method_name(), "project_replace");
}

#[test]
fn lifetime_name_avoids_existing_lifetimes() {
    let mut name = "'pin".to_string();
    determine_lifetime_name(&mut name, &vec![lt("'a")]);
    assert_eq!(name, "'pin");
    let mut name = "'pin".to_string();
    determine_lifetime_name(&mut name, &vec![lt("'pin"), lt("'pin_x")]);
    assert_eq!(name, "'pin__");
}

#[test]
fn public_types_get_crate_visible_projections() {
    assert_eq!(vis_to_text(&determine_visibility(&Vis::Public)), "pub(crate)");
    assert_eq!(vis_to_text(&determine_visibility(&Vis::Inherited)), "");
    assert_eq!(vis_to_text(&determine_visibility(&Vis::Restricted("pub(super)".to_string()))), "pub(super)");
}

#[test]
fn self_in_macro_tokens() {
    let toks = vec![ident("self"), TokenTree::Punct { ch: '.', joint: false, loc: 0 }, ident("x"),
        TokenTree::Group { delim: Delimiter::Parenthesis, stream: vec![ident("self")], loc: 0 }];
    assert!(!contains_fn(&toks));
    let folded = fold_token_stream(toks);
    assert_eq!(stream_to_text(&folded), "__self . x (__self)");
    let with_fn = vec![TokenTree::Group { delim: Delimiter::Brace, stream: vec![ident("fn"), ident("f")], loc: 0 }];
    assert!(contains_fn(&with_fn));
}
