use pin_project::model::{Attr, Field, Fields, GenericParam, Generics, Item, ItemEnum, ItemStruct, Variant, Vis};
use pin_project::tokens::TokenTree;
use pin_project::unsafe_project::{unsafe_fields, unsafe_project, unsafe_variants};

fn ident(name: &str, loc: usize) -> TokenTree {
    TokenTree::Ident { name: name.to_string(), loc }
}

fn attr(name: &str, loc: usize) -> Attr {
    Attr { name: Some(name.to_string()), tokens: vec![], loc }
}

fn field(name: Option<&str>, ty: &str, attrs: Vec<Attr>, loc: usize) -> Field {
    Field { attrs, vis: String::new(), ident: name.map(|s| s.to_string()), ty: ty.to_string(), loc }
}

fn generics_t() -> Generics {
    Generics {
        params: vec![GenericParam::Type { name: "T".to_string(), bounds: String::new(), default: String::new() }],
        where_clause: None,
    }
}

fn strukt(fields: Fields) -> Item {
    Item::Struct(ItemStruct { attrs: vec![], vis: Vis::Inherited, ident: "Foo".to_string(), ident_loc: 1, generics: generics_t(), fields, fields_loc: 2 })
}

fn enm(variants: Vec<Variant>) -> Item {
    Item::Enum(ItemEnum { attrs: vec![], vis: Vis::Inherited, ident: "Foo".to_string(), ident_loc: 1, generics: generics_t(), variants, brace_loc: 3, variants_loc: 4 })
}

#[test]
fn unsafe_project_makes_unpin_only_when_asked() {
    let item = strukt(Fields::Named(vec![field(Some("a"), "T", vec![attr("pin", 5)], 10)]));
    let plain = unsafe_project(&vec![], &item).ok().expect("accepted");
    assert!(!plain.contains("Unpin"));
    assert!(plain.contains("let this = ::core::pin::Pin::get_unchecked_mut(self); __FooProjection{ a: ::core::pin::Pin::new_unchecked(&mut this.a), }"));
    let with = unsafe_project(&vec![ident("Unpin", 6)], &item).ok().expect("accepted");
    assert!(with.contains("impl<T> ::core::marker::Unpin for Foo<T> where T: ::core::marker::Unpin {}"));
    let e = unsafe_project(&vec![ident("Other", 7)], &item).err().expect("refused");
    assert_eq!((e.loc, e.msg.as_str()), (7, "an invalid argument was passed"));
    let e = unsafe_project(&vec![], &strukt(Fields::Unit)).err().expect("refused");
    assert_eq!((e.loc, e.msg.as_str()), (0, "`unsafe_project` cannot be implemented for structs with units"));
}

#[test]
fn unsafe_project_on_enums() {
    let v = Variant { attrs: vec![], ident: "A".to_string(), fields: Fields::Unnamed(vec![field(None, "T", vec![attr("pin", 5)], 10)]), discriminant: None, loc: 11 };
    let out = unsafe_project(&vec![], &enm(vec![v])).ok().expect("accepted");
    assert!(out.contains("Foo::A(_x0) => __FooProjection::A(::core::pin::Pin::new_unchecked(_x0)), "));
    let e = unsafe_project(&vec![], &enm(vec![])).err().expect("refused");
    assert_eq!(e.msg, "`unsafe_project` cannot be implemented for enums without variants");
}

#[test]
fn unsafe_fields_methods() {
    let item = strukt(Fields::Named(vec![
        field(Some("a"), "T", vec![attr("pin", 5)], 10),
        field(Some("b"), "u8", vec![], 11),
        field(Some("c"), "u16", vec![attr("skip", 6)], 12),
    ]));
    let out = unsafe_fields(&vec![], &item).ok().expect("accepted");
    assert!(out.contains("fn a<'__a>(self: ::core::pin::Pin<&'__a mut Self>) -> ::core::pin::Pin<&'__a mut T> { unsafe { ::core::pin::Pin::map_unchecked_mut(self, |x| &mut x.a) } }"));
    assert!(out.contains("fn b<'__a>(self: ::core::pin::Pin<&'__a mut Self>) -> &'__a mut u8 { unsafe { &mut ::core::pin::Pin::get_unchecked_mut(self).b } }"));
    assert!(!out.contains("fn c<"));
    let e = unsafe_fields(&vec![], &strukt(Fields::Unnamed(vec![field(None, "T", vec![], 10)]))).err().expect("refused");
    assert_eq!(e.msg, "`unsafe_fields` cannot be implemented for structs with unnamed fields");
    let e = unsafe_fields(&vec![], &enm(vec![])).err().expect("refused");
    assert_eq!(e.msg, "`unsafe_fields` may only be used on structs");
}

#[test]
fn unsafe_variants_methods() {
    let vs = vec![
        Variant { attrs: vec![], ident: "Both".to_string(), fields: Fields::Unnamed(vec![field(None, "T", vec![attr("pin", 5)], 10), field(None, "u8", vec![], 11)]), discriminant: None, loc: 12 },
        Variant { attrs: vec![], ident: "One".to_string(), fields: Fields::Unnamed(vec![field(None, "T", vec![attr("skip", 6)], 13), field(None, "u8", vec![], 14)]), discriminant: None, loc: 15 },
        Variant { attrs: vec![attr("skip", 7)], ident: "Skipped".to_string(), fields: Fields::Unnamed(vec![field(None, "T", vec![], 16)]), discriminant: None, loc: 17 },
        Variant { attrs: vec![], ident: "Unit".to_string(), fields: Fields::Unit, discriminant: None, loc: 18 },
    ];
    let out = unsafe_variants(&vec![ident("Unpin", 8)], &enm(vs)).ok().expect("accepted");
    assert!(out.contains("fn both<'__a>(self: ::core::pin::Pin<&'__a mut Self>) -> ::core::option::Option<(::core::pin::Pin<&'__a mut T>, &'__a mut u8)>"));
    assert!(out.contains("Foo::Both(_x0, _x1) => ::core::option::Option::Some((::core::pin::Pin::new_unchecked(_x0), _x1))"));
    assert!(out.contains("fn one<'__a>(self: ::core::pin::Pin<&'__a mut Self>) -> ::core::option::Option<&'__a mut u8>"));
    assert!(out.contains("Foo::One(_, _x1) => ::core::option::Option::Some(_x1)"));
    assert!(!out.contains("fn skipped"));
    assert!(!out.contains("fn unit"));
    assert!(out.contains("where T: ::core::marker::Unpin {}"));
    let named = Variant { attrs: vec![], ident: "N".to_string(), fields: Fields::Named(vec![field(Some("x"), "T", vec![], 20)]), discriminant: None, loc: 21 };
    let e = unsafe_variants(&vec![], &enm(vec![named])).err().expect("refused");
    assert_eq!(e.msg, "`unsafe_variants` cannot be implemented for enums with named fields");
}
