use pin_project::model::{Attr, Field, Fields, GenericParam, Generics, Item, ItemEnum, ItemStruct, Variant, Vis};
use pin_project::pin_projectable::{pin_project_block, pin_projectable, BlockItem};
use pin_project::tokens::{Delimiter, TokenTree};

fn ident(name: &str, loc: usize) -> TokenTree {
    TokenTree::Ident { name: name.to_string(), loc }
}

fn field(name: Option<&str>, ty: &str, pinned: bool, loc: usize) -> Field {
    let attrs = if pinned { vec![Attr { name: Some("pin".to_string()), tokens: vec![], loc: loc + 1000 }] } else { vec![] };
    Field { attrs, vis: String::new(), ident: name.map(|s| s.to_string()), ty: ty.to_string(), loc }
}

fn generics_t() -> Generics {
    Generics {
        params: vec![GenericParam::Type { name: "T".to_string(), bounds: String::new(), default: String::new() }],
        where_clause: None,
    }
}

fn item_struct(attrs: Vec<Attr>, fields: Fields) -> ItemStruct {
    ItemStruct { attrs, vis: Vis::Inherited, ident: "Foo".to_string(), ident_loc: 1, generics: generics_t(), fields, fields_loc: 2 }
}

fn item_enum(variants: Vec<Variant>) -> ItemEnum {
    ItemEnum { attrs: vec![], vis: Vis::Inherited, ident: "E".to_string(), ident_loc: 1, generics: generics_t(), variants, brace_loc: 3, variants_loc: 4 }
}

#[test]
fn automatic_unpin_depends_on_pinned_fields() {
    let item = Item::Struct(item_struct(vec![], Fields::Named(vec![field(Some("a"), "T", true, 10), field(Some("b"), "u8", false, 11)])));
    let out = pin_projectable(&vec![], &item).ok().expect("accepted");
    assert!(out.contains("impl<T> ::core::marker::Unpin for Foo<T> where T: ::core::marker::Unpin {}"));
    assert!(out.contains("a: ::core::pin::Pin::new_unchecked(&mut this.a), b: &mut this.b, "));
    assert!(out.contains("impl<T> ::core::ops::Drop for Foo<T>  { fn drop(&mut self) { } }"));
    assert!(out.contains("fn __pin_project_assert_not_repr_packed_Foo<T>(val: Foo<T>)  { &val.a; &val.b; }"));
}

#[test]
fn tuple_struct_projection() {
    let item = Item::Struct(item_struct(vec![], Fields::Unnamed(vec![field(None, "T", true, 10), field(None, "u8", false, 11)])));
    let out = pin_projectable(&vec![], &item).ok().expect("accepted");
    assert!(out.starts_with("struct __FooProjection<'__a, T>  (::core::pin::Pin<&'__a mut T>, &'__a mut u8, );"));
    assert!(out.contains("__FooProjection(::core::pin::Pin::new_unchecked(&mut this.0), &mut this.1, )"));
}

#[test]
fn pin_projectable_errors() {
    let item = Item::Struct(item_struct(vec![], Fields::Named(vec![field(Some("a"), "T", true, 10)])));
    let e = pin_projectable(&vec![ident("Unpin", 20)], &item).err().expect("refused");
    assert_eq!((e.loc, e.msg.as_str()), (20, "an invalid argument was passed"));
    let packed = Attr {
        name: Some("repr".to_string()),
        tokens: vec![TokenTree::Group { delim: Delimiter::Parenthesis, stream: vec![ident("C", 30), TokenTree::Punct { ch: ',', joint: false, loc: 31 }, ident("packed", 32)], loc: 33 }],
        loc: 34,
    };
    let item = Item::Struct(item_struct(vec![packed], Fields::Named(vec![field(Some("a"), "T", true, 10)])));
    let e = pin_projectable(&vec![], &item).err().expect("refused");
    assert_eq!((e.loc, e.msg.as_str()), (32, "pin_projectable may not be used on #[repr(packed)] types"));
    let e = pin_projectable(&vec![], &Item::Enum(item_enum(vec![]))).err().expect("refused");
    assert_eq!((e.loc, e.msg.as_str()), (1, "cannot be implemented for enums without variants"));
    let v = Variant { attrs: vec![], ident: "A".to_string(), fields: Fields::Unit, discriminant: Some(40), loc: 41 };
    let e = pin_projectable(&vec![], &Item::Enum(item_enum(vec![v]))).err().expect("refused");
    assert_eq!((e.loc, e.msg.as_str()), (40, "cannot be implemented for enums with discriminants"));
    let e = pin_projectable(&vec![], &Item::Other { loc: 50 }).err().expect("refused");
    assert_eq!((e.loc, e.msg.as_str()), (50, "may only be used on structs or enums"));
}

#[test]
fn packed_enum_is_refused() {
    // #[repr(packed, C)] enum Blah { Tuple(#[pin] u8) }
    let comma = TokenTree::Punct { ch: ',', joint: false, loc: 31 };
    let packed = Attr {
        name: Some("repr".to_string()),
        tokens: vec![TokenTree::Group { delim: Delimiter::Parenthesis, stream: vec![ident("packed", 30), comma, ident("C", 32)], loc: 33 }],
        loc: 34,
    };
    let v = Variant { attrs: vec![], ident: "Tuple".to_string(), fields: Fields::Unnamed(vec![field(None, "u8", true, 10)]), discriminant: None, loc: 11 };
    let mut e = item_enum(vec![v]);
    e.attrs = vec![packed];
    let err = pin_projectable(&vec![], &Item::Enum(e)).err().expect("refused");
    assert_eq!(err.loc, 30);
    assert!(err.msg.contains("may not be used on #[repr(packed)] type"));
}

#[test]
fn enum_projection() {
    let vs = vec![
        Variant { attrs: vec![], ident: "A".to_string(), fields: Fields::Named(vec![field(Some("x"), "T", true, 10), field(Some("y"), "u8", false, 11)]), discriminant: None, loc: 12 },
        Variant { attrs: vec![], ident: "B".to_string(), fields: Fields::Unnamed(vec![field(None, "T", false, 13)]), discriminant: None, loc: 14 },
        Variant { attrs: vec![], ident: "C".to_string(), fields: Fields::Unit, discriminant: None, loc: 15 },
    ];
    let out = pin_projectable(&vec![ident("unsafe_Unpin", 20)], &Item::Enum(item_enum(vs))).ok().expect("accepted");
    assert!(out.contains("A { x: ::core::pin::Pin<&'__a mut T>, y: &'__a mut u8 }, B(&'__a mut T), C, "));
    assert!(out.contains("E::A { x, y } => __EProjection::A { x: ::core::pin::Pin::new_unchecked(x), y: y }, "));
    assert!(out.contains("E::B(_x0) => __EProjection::B(_x0), E::C => __EProjection::C, "));
    assert!(out.contains("where ::pin_project::Wrapper<E<T>>: ::pin_project::UnsafeUnpin {}"));
}

#[test]
fn pin_project_block_with_pinned_drop() {
    let ty = item_struct(
        vec![Attr { name: Some("pin_projectable".to_string()), tokens: vec![], loc: 60 }],
        Fields::Named(vec![field(Some("a"), "T", true, 10)]),
    );
    let f = BlockItem::Fn {
        attrs: vec![Attr { name: Some("pinned_drop".to_string()), tokens: vec![], loc: 61 }],
        attr_texts: vec!["#[pinned_drop]".to_string()],
        rest: "fn my_drop<T>(foo: Pin<&mut Foo<T>>) {}".to_string(),
        name: "my_drop".to_string(),
        output: None,
        loc: 62,
    };
    let x = pin_project_block(&vec![BlockItem::Struct(ty), f], 0).ok().expect("accepted");
    assert_eq!((x.ty, x.attr), (0, 0));
    assert!(x.text.contains("fn drop(&mut self) { fn my_drop<T>(foo: Pin<&mut Foo<T>>) {} let pinned_self = unsafe { ::core::pin::Pin::new_unchecked(self) }; my_drop(pinned_self); } }"));
}

#[test]
fn pin_project_block_errors() {
    let e = pin_project_block(&vec![], 99).err().expect("refused");
    assert_eq!((e.loc, e.msg.as_str()), (99, "No #[pin_projectable] type found!"));
    let ty = item_struct(vec![], Fields::Named(vec![field(Some("a"), "T", true, 10)]));
    let e = pin_project_block(&vec![BlockItem::Struct(ty)], 99).err().expect("refused");
    assert_eq!((e.loc, e.msg.as_str()), (1, "type declared in pin_project! must have pin_projectable attribute"));
    let e = pin_project_block(&vec![BlockItem::Other { loc: 70 }], 99).err().expect("refused");
    assert_eq!((e.loc, e.msg.as_str()), (70, "pin_project! block may only contain a struct/enum with an optional #[pinned_drop] function"));
    let f = BlockItem::Fn { attrs: vec![], attr_texts: vec![], rest: String::new(), name: "f".to_string(), output: None, loc: 71 };
    let e = pin_project_block(&vec![f], 99).err().expect("refused");
    assert_eq!((e.loc, e.msg.as_str()), (71, "only #[pinned_drop] functions can be declared within a pin_project! block"));
}
