use pin_project::args::{parse_args, Dialect};
use pin_project::attrs::{find_remove, position_exact};
use pin_project::model::{Attr, Field, Fields, GenericParam, Generics, Item, ItemStruct, Vis};
use pin_project::tokens::TokenTree;
use pin_project::unsafe_project::unsafe_project;

fn ident(name: &str, loc: usize) -> TokenTree {
    TokenTree::Ident { name: name.to_string(), loc }
}

fn comma(loc: usize) -> TokenTree {
    TokenTree::Punct { ch: ',', joint: false, loc }
}

fn attr(name: &str, tokens: Vec<TokenTree>, loc: usize) -> Attr {
    Attr { name: Some(name.to_string()), tokens, loc }
}

#[test]
fn readme_unsafe_project_example() {
    // #[unsafe_project]
    // struct Foo<T, U> { #[pin] future: T, field: U }
    let field = |name: &str, ty: &str, pinned: bool, loc: usize| Field {
        attrs: if pinned { vec![attr("pin", vec![], loc + 100)] } else { vec![] },
        vis: String::new(),
        ident: Some(name.to_string()),
        ty: ty.to_string(),
        loc,
    };
    let tparam = |n: &str| GenericParam::Type { name: n.to_string(), bounds: String::new(), default: String::new() };
    let item = Item::Struct(ItemStruct {
        attrs: vec![],
        vis: Vis::Inherited,
        ident: "Foo".to_string(),
        ident_loc: 1,
        generics: Generics { params: vec![tparam("T"), tparam("U")], where_clause: None },
        fields: Fields::Named(vec![field("future", "T", true, 10), field("field", "U", false, 11)]),
        fields_loc: 2,
    });
    let out = unsafe_project(&vec![], &item).ok().expect("accepted");
    assert!(out.starts_with("struct __FooProjection<'__a, T, U>  { future: ::core::pin::Pin<&'__a mut T>, field: &'__a mut U, }"));
    assert!(out.contains("fn project<'__a>(self: ::core::pin::Pin<&'__a mut Self>) -> __FooProjection<'__a, T, U>"));
    // The user writes the conditional `Unpin` impl.
    assert!(!out.contains("Unpin"));
}

#[test]
fn attribute_utilities() {
    let attrs = vec![attr("doc", vec![], 1), attr("pin", vec![], 2)];
    assert_eq!(position_exact(&attrs, "pin").ok(), Some(Some(1)));
    let twice = vec![attr("pin", vec![], 1), attr("pin", vec![], 2)];
    let e = position_exact(&twice, "pin").err().expect("refused");
    assert_eq!((e.loc, e.msg.as_str()), (2, "duplicate #[pin] attribute"));
    let with_args = vec![attr("pin", vec![ident("x", 5)], 3)];
    let e = position_exact(&with_args, "pin").err().expect("refused");
    assert_eq!((e.loc, e.msg.as_str()), (5, "unexpected token: x"));
    let mut attrs = attrs;
    let removed = find_remove(&mut attrs, "pin").ok().flatten().expect("found");
    assert_eq!(removed.loc, 2);
    assert_eq!(attrs.len(), 1);
    assert_eq!(attrs[0].loc, 1);
}

#[test]
fn derive_arguments() {
    let a = parse_args(&vec![ident("Replace", 1), comma(2), ident("UnsafeUnpin", 3)], Dialect::Derive).ok().expect("accepted");
    assert_eq!((a.replace, a.unsafe_unpin, a.pinned_drop), (Some(1), Some(3), None));
    let e = parse_args(&vec![ident("Replace", 1), comma(2), ident("PinnedDrop", 3)], Dialect::Derive).err().expect("refused");
    assert_eq!((e.loc, e.msg.as_str()), (3, "arguments `PinnedDrop` and `Replace` are mutually exclusive"));
    let e = parse_args(&vec![ident("PinnedDrop", 1), ident("UnsafeUnpin", 2)], Dialect::Attribute).err().expect("refused");
    assert_eq!((e.loc, e.msg.as_str()), (2, "expected `,`"));
    let a = parse_args(&vec![ident("Replace", 1)], Dialect::Attribute).ok().expect("accepted");
    assert_eq!((a.replace, a.unsafe_unpin, a.pinned_drop, a.not_unpin), (Some(1), None, None, None));
    let e = parse_args(&vec![ident("Other", 1)], Dialect::Attribute).err().expect("refused");
    assert_eq!(e.msg, "an invalid argument was passed to #[pin_project] attribute");
    let e = parse_args(&vec![ident("Other", 1)], Dialect::Derive).err().expect("refused");
    assert_eq!(e.msg, "unexpected argument: Other");
}

#[test]
fn keywords_are_not_arguments() {
    assert!(pin_project::args::reserved(&"fn".to_string()));
    assert!(pin_project::args::reserved(&"_".to_string()));
    assert!(pin_project::args::reserved(&"Self".to_string()));
    assert!(!pin_project::args::reserved(&"PinnedDrop".to_string()));
    let e = parse_args(&vec![ident("fn", 7)], Dialect::Attribute).err().expect("refused");
    assert_eq!((e.loc, e.msg.as_str()), (7, "expected identifier"));
}
