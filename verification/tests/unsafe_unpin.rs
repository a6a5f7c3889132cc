use pin_project::model::{Attr, Field, Fields, GenericParam, Generics, Item, ItemStruct, Vis};
use pin_project::pin_projectable::pin_projectable;
use pin_project::tokens::TokenTree;

fn ident(name: &str, loc: usize) -> TokenTree {
    TokenTree::Ident { name: name.to_string(), loc }
}

fn field(name: &str, ty: &str, pinned: bool, loc: usize) -> Field {
    let attrs = if pinned {
        vec![Attr { name: Some("pin".to_string()), tokens: vec![], loc: loc + 100 }]
    } else {
        vec![]
    };
    Field { attrs, vis: String::new(), ident: Some(name.to_string()), ty: ty.to_string(), loc }
}

#[test]
fn unsafe_unpin() {
    // #[pin_projectable(unsafe_Unpin)]
    // pub struct Blah<T> {
    //     field_1: u8,
    //     #[pin]
    //     field_2: Option<T>,
    // }
    let item = Item::Struct(ItemStruct {
        attrs: vec![],
        vis: Vis::Public,
        ident: "Blah".to_string(),
        ident_loc: 1,
        generics: Generics {
            params: vec![GenericParam::Type { name: "T".to_string(), bounds: String::new(), default: String::new() }],
            where_clause: None,
        },
        fields: Fields::Named(vec![field("field_1", "u8", false, 2), field("field_2", "Option<T>", true, 3)]),
        fields_loc: 4,
    });
    let args = vec![ident("unsafe_Unpin", 5)];
    let out = pin_projectable(&args, &item).ok().expect("the struct is accepted");
    assert!(out.contains("struct __BlahProjection<'__a, T>"));
    assert!(out.contains("field_1: &'__a mut u8"));
    assert!(out.contains("field_2: ::core::pin::Pin<&'__a mut Option<T>>"));
    assert!(out.contains(
        "impl<T> ::core::marker::Unpin for Blah<T> where ::pin_project::Wrapper<Blah<T>>: ::pin_project::UnsafeUnpin {}"
    ));
    assert!(!out.contains("Option<T>: ::core::marker::Unpin"));
}
