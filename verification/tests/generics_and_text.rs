use pin_project::generics::{params_to_text, where_clause_to_text, ParamStyle};
use pin_project::model::{Attr, Field, Fields, GenericParam, Generics, Variant};
use pin_project::names::{collect_lifetimes, insert_lifetime};
use pin_project::project_fields::visit_fields;
use pin_project::text::{decimal_text, join_strings, starts_with};
use pin_project::validate::{validate_enum, validate_struct};

fn params() -> Vec<GenericParam> {
    vec![
        GenericParam::Type { name: "T".to_string(), bounds: "Clone".to_string(), default: "u8".to_string() },
        GenericParam::Lifetime { name: "'a".to_string(), bounds: String::new() },
        GenericParam::Const { name: "N".to_string(), ty: "usize".to_string(), default: String::new() },
    ]
}

#[test]
fn parameter_lists_put_lifetimes_first() {
    assert_eq!(params_to_text(&params(), ParamStyle::Declaration), "<'a, T: Clone = u8, const N: usize>");
    assert_eq!(params_to_text(&params(), ParamStyle::Impl), "<'a, T: Clone, const N: usize>");
    assert_eq!(params_to_text(&params(), ParamStyle::Argument), "<'a, T, N>");
    assert_eq!(params_to_text(&vec![], ParamStyle::Argument), "");
    let g = Generics { params: params(), where_clause: Some(vec!["T: Send".to_string(), "T: Sync".to_string()]) };
    assert_eq!(where_clause_to_text(&g), "where T: Send, T: Sync");
    assert_eq!(collect_lifetimes(&params()), vec!["'a".to_string()]);
    let mut g = g;
    insert_lifetime(&mut g, "'pin".to_string());
    assert_eq!(params_to_text(&g.params, ParamStyle::Argument), "<'pin, 'a, T, N>");
}

#[test]
fn text_helpers() {
    assert_eq!(decimal_text(0), "0");
    assert_eq!(decimal_text(407), "407");
    assert_eq!(join_strings(&vec!["a".to_string(), "b".to_string()], ", "), "a, b");
    assert!(starts_with(&"'pin_".to_string(), &"'pin".to_string()));
    assert!(!starts_with(&"'pi".to_string(), &"'pin".to_string()));
}

#[test]
fn enums_need_a_field() {
    let unit = |name: &str, loc: usize| Variant { attrs: vec![], ident: name.to_string(), fields: Fields::Unit, discriminant: None, loc };
    let e = validate_enum(1, &vec![unit("A", 2), unit("B", 3)], 4, true).err().expect("refused");
    assert_eq!((e.loc, e.msg.as_str()), (4, "#[pin_project] attribute may not be used on enums that have no field"));
    let pinned_variant = Variant { attrs: vec![Attr { name: Some("pin".to_string()), tokens: vec![], loc: 9 }], ident: "A".to_string(), fields: Fields::Unit, discriminant: None, loc: 2 };
    let e = validate_enum(1, &vec![pinned_variant], 4, true).err().expect("refused");
    assert_eq!((e.loc, e.msg.as_str()), (9, "#[pin] attribute may only be used on fields of structs or variants"));
    assert!(validate_struct(1, &Fields::Unnamed(vec![Field { attrs: vec![], vis: String::new(), ident: None, ty: "u8".to_string(), loc: 5 }]), 2).is_ok());
}

#[test]
fn field_projections() {
    let fields = vec![
        Field { attrs: vec![Attr { name: Some("pin".to_string()), tokens: vec![], loc: 1 }], vis: "pub".to_string(), ident: Some("a".to_string()), ty: "T".to_string(), loc: 2 },
        Field { attrs: vec![], vis: String::new(), ident: Some("b".to_string()), ty: "U".to_string(), loc: 3 },
    ];
    let mut pinned: Vec<String> = Vec::new();
    let p = visit_fields(&fields, true, &"'pin".to_string(), &mut pinned).ok().expect("accepted");
    assert_eq!(pinned, vec!["T".to_string()]);
    assert_eq!(p.proj_pat, "{ a, b }");
    assert_eq!(p.proj_body, "{ a: ::core::pin::Pin::new_unchecked(a), b }");
    assert_eq!(p.proj_fields, "{ pub a: ::core::pin::Pin<&'pin mut (T)>,  b: &'pin mut (U) }");
    assert_eq!(p.proj_move, "{ a: ::core::marker::PhantomData, b: ::core::ptr::read(b) }");
}
