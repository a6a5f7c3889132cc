use pin_project::derive::parse_derive;
use pin_project::model::{Attr, Field, Fields, GenericParam, Generics, Item, ItemEnum, ItemStruct, Variant, Vis};
use pin_project::tokens::{Delimiter, TokenTree};

fn ident(name: &str, loc: usize) -> TokenTree {
    TokenTree::Ident { name: name.to_string(), loc }
}

fn group(stream: Vec<TokenTree>, loc: usize) -> TokenTree {
    TokenTree::Group { delim: Delimiter::Parenthesis, stream, loc }
}

/// `#[pin(__private(args))]`
fn private_pin(args: Vec<TokenTree>) -> Attr {
    Attr { name: Some("pin".to_string()), tokens: vec![group(vec![ident("__private", 90), group(args, 91)], 92)], loc: 93 }
}

fn field(name: Option<&str>, ty: &str, pinned: bool, loc: usize) -> Field {
    let attrs = if pinned { vec![Attr { name: Some("pin".to_string()), tokens: vec![], loc: loc + 1000 }] } else { vec![] };
    Field { attrs, vis: String::new(), ident: name.map(|s| s.to_string()), ty: ty.to_string(), loc }
}

fn generics_t() -> Generics {
    Generics {
        params: vec![GenericParam::Type { name: "T".to_string(), bounds: String::new(), default: String::new() }],
        where_clause: None,
    }
}

fn strukt(attrs: Vec<Attr>, fields: Fields) -> Item {
    Item::Struct(ItemStruct {
        attrs,
        vis: Vis::Public,
        ident: "Foo".to_string(),
        ident_loc: 1,
        generics: generics_t(),
        fields,
        fields_loc: 2,
    })
}

#[test]
fn derive_struct_projection() {
    let item = strukt(
        vec![private_pin(vec![])],
        Fields::Named(vec![field(Some("future"), "T", true, 10), field(Some("field"), "u8", false, 11)]),
    );
    let out = parse_derive(&item).ok().expect("accepted");
    assert!(out.contains("pub(crate) struct __FooProjection<'pin, T>"));
    assert!(out.contains("future: ::core::pin::Pin<&'pin mut (T)>"));
    assert!(out.contains("field: &'pin mut (u8)"));
    assert!(out.contains("pub(crate) struct __FooProjectionRef<'pin, T>"));
    assert!(out.contains("fn project<'pin>(self: ::core::pin::Pin<&'pin mut Self>) -> __FooProjection<'pin, T>"));
    assert!(out.contains("const __SCOPE_Foo: () = {"));
    // The automatic `Unpin` impl depends on the pinned field only.
    assert!(out.contains("__field0: T"));
    assert!(!out.contains("__field1: u8"));
    assert!(!out.contains("project_replace"));
}

#[test]
fn derive_with_replace_argument() {
    let item = strukt(vec![private_pin(vec![ident("Replace", 95)])], Fields::Unnamed(vec![field(None, "T", true, 10)]));
    let out = parse_derive(&item).ok().expect("accepted");
    assert!(out.contains("fn project_replace(self: ::core::pin::Pin<&mut Self>, __replacement: Self) -> __FooProjectionOwned<T>"));
    assert!(out.contains("::core::marker::PhantomData<T>"));
}

#[test]
fn derive_with_not_unpin_argument() {
    let bang = TokenTree::Punct { ch: '!', joint: false, loc: 96 };
    let item = strukt(vec![private_pin(vec![bang, ident("Unpin", 97)])], Fields::Named(vec![field(Some("a"), "T", true, 10)]));
    let out = parse_derive(&item).ok().expect("accepted");
    assert!(out.contains(
        "impl<'pin, T> ::core::marker::Unpin for Foo<T> where ::pin_project::__private::Wrapper<'pin, ::core::marker::PhantomPinned>: ::core::marker::Unpin {}"
    ));
    assert!(!out.contains("struct __Foo<"));
    assert!(out.contains("impl<T> ::pin_project::UnsafeUnpin for Foo<T>  {}"));
}

#[test]
fn derive_rejects_repr_packed() {
    let packed = Attr {
        name: Some("repr".to_string()),
        tokens: vec![group(vec![ident("packed", 60)], 61)],
        loc: 62,
    };
    let item = strukt(vec![private_pin(vec![]), packed], Fields::Named(vec![field(Some("a"), "T", true, 10)]));
    let e = parse_derive(&item).err().expect("refused");
    assert_eq!(e.loc, 60);
    assert_eq!(e.msg, "#[pin_project] attribute may not be used on #[repr(packed)] types");
}

#[test]
fn derive_passes_over_a_repr_that_is_no_meta() {
    // #[repr(packed, 1 + 1)] does not read as a `Meta`, so it is not looked into.
    let lit = |t: &str, loc: usize| TokenTree::Literal { text: t.to_string(), loc };
    let punct = |ch: char, loc: usize| TokenTree::Punct { ch, joint: false, loc };
    let repr = Attr {
        name: Some("repr".to_string()),
        tokens: vec![group(vec![ident("packed", 60), punct(',', 61), lit("1", 62), punct('+', 63), lit("1", 64)], 65)],
        loc: 66,
    };
    let item = strukt(vec![private_pin(vec![]), repr], Fields::Named(vec![field(Some("a"), "T", true, 10)]));
    assert!(parse_derive(&item).is_ok());
}

#[test]
fn derive_rejects_two_pins_on_a_field() {
    let mut f = field(Some("a"), "T", true, 10);
    f.attrs.push(Attr { name: Some("pin".to_string()), tokens: vec![], loc: 70 });
    let item = strukt(vec![private_pin(vec![])], Fields::Named(vec![f]));
    let e = parse_derive(&item).err().expect("refused");
    assert_eq!(e.loc, 70);
    assert_eq!(e.msg, "duplicate #[pin] attribute");
}

#[test]
fn derive_rejects_unexpected_argument() {
    let item = strukt(vec![private_pin(vec![ident("Foo", 96)])], Fields::Named(vec![field(Some("a"), "T", true, 10)]));
    let e = parse_derive(&item).err().expect("refused");
    assert_eq!(e.loc, 96);
    assert_eq!(e.msg, "unexpected argument: Foo");
}

#[test]
fn derive_enum_projection() {
    let v1 = Variant {
        attrs: vec![],
        ident: "Pinned".to_string(),
        fields: Fields::Unnamed(vec![field(None, "T", true, 20)]),
        discriminant: None,
        loc: 21,
    };
    let v2 = Variant { attrs: vec![], ident: "None".to_string(), fields: Fields::Unit, discriminant: None, loc: 22 };
    let item = Item::Enum(ItemEnum {
        attrs: vec![private_pin(vec![])],
        vis: Vis::Inherited,
        ident: "E".to_string(),
        ident_loc: 1,
        generics: generics_t(),
        variants: vec![v1, v2],
        brace_loc: 3,
        variants_loc: 4,
    });
    let out = parse_derive(&item).ok().expect("accepted");
    assert!(out.contains("enum __EProjection<'pin, T>"));
    assert!(out.contains("Pinned ( ::core::pin::Pin<&'pin mut (T)>), "));
    assert!(out.contains("E::None  => { __EProjection::None  } "));
}

#[test]
fn attribute_output_is_read_by_the_derive() {
    // #[pin_project(!Unpin)] writes #[pin(__private(! Unpin))]; the derive reads it back.
    let bang = |loc: usize| TokenTree::Punct { ch: '!', joint: false, loc };
    let fields = || Fields::Named(vec![field(Some("a"), "T", true, 10)]);
    let x = pin_project::attribute::parse_attribute(&vec![bang(1), ident("Unpin", 2)], &strukt(vec![], fields()))
        .ok()
        .expect("accepted");
    assert_eq!(x.new_attrs[1], "#[pin(__private(! Unpin))]");
    let item = strukt(vec![private_pin(vec![bang(3), ident("Unpin", 4)])], fields());
    let out = parse_derive(&item).ok().expect("accepted");
    assert!(out.contains("::core::marker::PhantomPinned"));
}
