use pin_project::attribute::parse_attribute;
use pin_project::model::{Attr, Field, Fields, GenericParam, Generics, Item, ItemEnum, ItemStruct, Variant, Vis};
use pin_project::tokens::TokenTree;

fn ident(name: &str, loc: usize) -> TokenTree {
    TokenTree::Ident { name: name.to_string(), loc }
}

fn bang(loc: usize) -> TokenTree {
    TokenTree::Punct { ch: '!', joint: false, loc }
}

fn comma(loc: usize) -> TokenTree {
    TokenTree::Punct { ch: ',', joint: false, loc }
}

fn field(name: Option<&str>, ty: &str, pinned: bool, loc: usize) -> Field {
    let attrs = if pinned { vec![Attr { name: Some("pin".to_string()), tokens: vec![], loc: loc + 1000 }] } else { vec![] };
    Field { attrs, vis: String::new(), ident: name.map(|s| s.to_string()), ty: ty.to_string(), loc }
}

fn generics_t() -> Generics {
    Generics {
        params: vec![GenericParam::Type { name: "T".to_string(), bounds: String::new(), default: String::new() }],
        where_clause: None,
    }
}

fn strukt(fields: Fields) -> Item {
    Item::Struct(ItemStruct {
        attrs: vec![],
        vis: Vis::Inherited,
        ident: "Foo".to_string(),
        ident_loc: 1,
        generics: generics_t(),
        fields,
        fields_loc: 2,
    })
}

fn message(r: Result<pin_project::attribute::AttributeExpansion, pin_project::error::Error>) -> (usize, String) {
    match r {
        Err(e) => (e.loc, e.msg),
        Ok(_) => panic!("expected an error"),
    }
}

#[test]
fn attribute_marks_the_item_for_the_derive() {
    let item = strukt(Fields::Named(vec![field(Some("a"), "T", true, 10), field(Some("b"), "u8", false, 11)]));
    let x = parse_attribute(&vec![], &item).ok().expect("accepted");
    assert_eq!(
        x.new_attrs,
        vec![
            "#[derive(::pin_project::__private::__PinProjectInternalDerive)]".to_string(),
            "#[pin(__private())]".to_string()
        ]
    );
    assert_eq!(
        x.drop_impl,
        "trait FooMustNotImplDrop {} #[allow(clippy::drop_bounds)] impl<T: ::core::ops::Drop> FooMustNotImplDrop for T {} #[allow(single_use_lifetimes)] impl<T> FooMustNotImplDrop for Foo<T>  {}"
    );
}

#[test]
fn attribute_with_pinned_drop_and_unsafe_unpin() {
    let item = strukt(Fields::Named(vec![field(Some("a"), "T", true, 10)]));
    let args = vec![ident("PinnedDrop", 20), comma(21), ident("UnsafeUnpin", 22)];
    let x = parse_attribute(&args, &item).ok().expect("accepted");
    assert_eq!(x.new_attrs[1], "#[pin(__private(PinnedDrop , UnsafeUnpin))]");
    assert!(x.drop_impl.starts_with("#[allow(single_use_lifetimes)] impl<T> ::core::ops::Drop for Foo<T>"));
    assert!(x.drop_impl.contains("::pin_project::__private::PinnedDrop::drop(pinned_self)"));
}

#[test]
fn attribute_rejects_invalid_argument() {
    let item = strukt(Fields::Named(vec![field(Some("a"), "T", true, 10)]));
    let (loc, msg) = message(parse_attribute(&vec![ident("Unknown", 30)], &item));
    assert_eq!(loc, 30);
    assert_eq!(msg, "an invalid argument was passed to #[pin_project] attribute");
}

#[test]
fn attribute_hands_replace_on_to_the_derive() {
    let item = strukt(Fields::Named(vec![field(Some("a"), "T", true, 10)]));
    let x = parse_attribute(&vec![ident("Replace", 30)], &item).ok().expect("accepted");
    assert_eq!(x.new_attrs[1], "#[pin(__private(Replace))]");
    let (loc, msg) = message(parse_attribute(&vec![ident("Replace", 30), comma(31), ident("PinnedDrop", 32)], &item));
    assert_eq!((loc, msg.as_str()), (32, "arguments `PinnedDrop` and `Replace` are mutually exclusive"));
}

#[test]
fn attribute_hands_not_unpin_on_to_the_derive() {
    let item = strukt(Fields::Named(vec![field(Some("a"), "T", true, 10)]));
    let x = parse_attribute(&vec![bang(40), ident("Unpin", 41)], &item).ok().expect("accepted");
    assert_eq!(x.new_attrs[1], "#[pin(__private(! Unpin))]");
    let args = vec![bang(40), ident("Unpin", 41), comma(42), ident("UnsafeUnpin", 43)];
    let (loc, msg) = message(parse_attribute(&args, &item));
    assert_eq!((loc, msg.as_str()), (43, "arguments `UnsafeUnpin` and `!Unpin` are mutually exclusive"));
    let args = vec![bang(40), ident("Unpin", 41), comma(42), bang(40), ident("Unpin", 44)];
    let (loc, msg) = message(parse_attribute(&args, &item));
    assert_eq!((loc, msg.as_str()), (40, "duplicate `!Unpin` argument"));
    let (loc, msg) = message(parse_attribute(&vec![bang(40), ident("Send", 45)], &item));
    assert_eq!((loc, msg.as_str()), (45, "expected `Unpin`"));
}

#[test]
fn attribute_rejects_duplicate_argument() {
    let item = strukt(Fields::Named(vec![field(Some("a"), "T", true, 10)]));
    let args = vec![ident("PinnedDrop", 20), comma(21), ident("PinnedDrop", 22)];
    let (loc, msg) = message(parse_attribute(&args, &item));
    assert_eq!(loc, 22);
    assert_eq!(msg, "duplicate `PinnedDrop` argument");
}

#[test]
fn attribute_rejects_struct_without_fields() {
    let (loc, msg) = message(parse_attribute(&vec![], &strukt(Fields::Named(vec![]))));
    assert_eq!(loc, 2);
    assert_eq!(msg, "#[pin_project] attribute may not be used on structs with zero fields");
    let (loc, msg) = message(parse_attribute(&vec![], &strukt(Fields::Unit)));
    assert_eq!(loc, 1);
    assert_eq!(msg, "#[pin_project] attribute may not be used on structs with units");
}

#[test]
fn attribute_rejects_pin_on_the_item() {
    let item = Item::Struct(ItemStruct {
        attrs: vec![Attr { name: Some("pin".to_string()), tokens: vec![], loc: 40 }],
        vis: Vis::Inherited,
        ident: "Foo".to_string(),
        ident_loc: 1,
        generics: generics_t(),
        fields: Fields::Named(vec![field(Some("a"), "T", false, 10)]),
        fields_loc: 2,
    });
    let (loc, msg) = message(parse_attribute(&vec![], &item));
    assert_eq!(loc, 40);
    assert_eq!(msg, "#[pin] attribute may only be used on fields of structs or variants");
}

#[test]
fn attribute_rejects_enums_without_variants_or_with_discriminants() {
    let mk = |variants: Vec<Variant>| {
        Item::Enum(ItemEnum {
            attrs: vec![],
            vis: Vis::Inherited,
            ident: "E".to_string(),
            ident_loc: 1,
            generics: generics_t(),
            variants,
            brace_loc: 3,
            variants_loc: 4,
        })
    };
    let (loc, msg) = message(parse_attribute(&vec![], &mk(vec![])));
    assert_eq!(loc, 3);
    assert_eq!(msg, "#[pin_project] attribute may not be used on enums without variants");
    let v = Variant { attrs: vec![], ident: "A".to_string(), fields: Fields::Unit, discriminant: Some(50), loc: 51 };
    let (loc, msg) = message(parse_attribute(&vec![], &mk(vec![v])));
    assert_eq!(loc, 50);
    assert_eq!(msg, "#[pin_project] attribute may not be used on enums with discriminants");
}

#[test]
fn attribute_rejects_other_items() {
    let (loc, msg) = message(parse_attribute(&vec![], &Item::Other { loc: 7 }));
    assert_eq!(loc, 7);
    assert_eq!(msg, "#[pin_project] attribute may only be used on structs or enums");
}
