use pin_project::model::Generics;
use pin_project::pinned_drop::{
    attribute, FnInput, GenericArgShape, ImplItemShape, ImplShape, MethodSig, PathShape, TypeShape,
};
use pin_project::tokens::TokenTree;

fn pinned_self(loc: usize) -> FnInput {
    FnInput::Typed {
        pat_ident: Some("self".to_string()),
        ty: TypeShape { path_last: Some(("Pin".to_string(), Some(vec![GenericArgShape::MutRefToSelf]))) },
        loc,
    }
}

fn drop_sig(inputs: Vec<FnInput>) -> MethodSig {
    MethodSig {
        ident: "drop".to_string(),
        ident_loc: 10,
        unsafety: None,
        output: None,
        inputs,
        paren_loc: 11,
        inputs_loc: 12,
    }
}

fn impl_of(trait_name: Option<&str>, items: Vec<ImplItemShape>) -> ImplShape {
    ImplShape {
        trait_: Some((trait_name.map(|s| s.to_string()), 2)),
        self_ty_loc: 3,
        unsafety: None,
        items,
        loc: 4,
    }
}

fn no_generics() -> Generics {
    Generics { params: vec![], where_clause: None }
}

fn run(item: &ImplShape) -> Result<(), (usize, String, String)> {
    attribute(&vec![], item, &no_generics(), &"Foo".to_string()).map_err(|(e, d)| (e.loc, e.msg, d))
}

#[test]
fn pinned_drop_accepts_drop_with_pinned_self() {
    let item = impl_of(Some("PinnedDrop"), vec![ImplItemShape::Method { sig: drop_sig(vec![pinned_self(13)]), loc: 14 }]);
    assert!(run(&item).is_ok());
}

#[test]
fn pinned_drop_rejects_other_traits() {
    let item = impl_of(Some("Drop"), vec![ImplItemShape::Method { sig: drop_sig(vec![pinned_self(13)]), loc: 14 }]);
    let (loc, msg, dummy) = run(&item).err().expect("refused");
    assert_eq!(loc, 2);
    assert_eq!(msg, "#[pinned_drop] may only be used on implementation for the `PinnedDrop` trait");
    assert_eq!(dummy, "impl ::pin_project::__private::PinnedDrop for Foo  { unsafe fn drop(self: ::core::pin::Pin<&mut Self>) {} }");
}

#[test]
fn pinned_drop_rejects_missing_and_wrong_methods() {
    let (loc, msg, _) = run(&impl_of(Some("PinnedDrop"), vec![])).err().expect("refused");
    assert_eq!((loc, msg.as_str()), (4, "not all trait items implemented, missing: `drop`"));

    let mut sig = drop_sig(vec![pinned_self(13)]);
    sig.ident = "dropp".to_string();
    let (loc, msg, _) = run(&impl_of(Some("PinnedDrop"), vec![ImplItemShape::Method { sig, loc: 14 }])).err().expect("refused");
    assert_eq!((loc, msg.as_str()), (10, "method `dropp` is not a member of trait `PinnedDrop"));

    let (loc, msg, _) =
        run(&impl_of(Some("PinnedDrop"), vec![ImplItemShape::Method { sig: drop_sig(vec![]), loc: 14 }])).err().expect("refused");
    assert_eq!((loc, msg.as_str()), (11, "method `drop` must take an argument `self: Pin<&mut Self>`"));

    let mut sig = drop_sig(vec![pinned_self(13)]);
    sig.unsafety = Some(15);
    let (loc, msg, _) = run(&impl_of(Some("PinnedDrop"), vec![ImplItemShape::Method { sig, loc: 14 }])).err().expect("refused");
    assert_eq!((loc, msg.as_str()), (15, "implementing the method `drop` is not unsafe"));

    let mut sig = drop_sig(vec![pinned_self(13)]);
    sig.output = Some((false, 16));
    let (loc, msg, _) = run(&impl_of(Some("PinnedDrop"), vec![ImplItemShape::Method { sig, loc: 14 }])).err().expect("refused");
    assert_eq!((loc, msg.as_str()), (16, "method `drop` must return the unit type"));
}

#[test]
fn pinned_drop_rejects_duplicate_drop_and_consts() {
    let m = || ImplItemShape::Method { sig: drop_sig(vec![pinned_self(13)]), loc: 14 };
    let (loc, msg, _) = run(&impl_of(Some("PinnedDrop"), vec![m(), m()])).err().expect("refused");
    assert_eq!((loc, msg.as_str()), (14, "duplicate definitions with name `drop`"));
    let c = ImplItemShape::Const { ident: "A".to_string(), loc: 17 };
    let (loc, msg, _) = run(&impl_of(Some("PinnedDrop"), vec![c])).err().expect("refused");
    assert_eq!((loc, msg.as_str()), (17, "const `A` is not a member of trait `PinnedDrop`"));
}

#[test]
fn pinned_drop_rejects_arguments() {
    let item = impl_of(Some("PinnedDrop"), vec![ImplItemShape::Method { sig: drop_sig(vec![pinned_self(13)]), loc: 14 }]);
    let args = vec![TokenTree::Ident { name: "foo".to_string(), loc: 30 }];
    let (e, _) = attribute(&args, &item, &no_generics(), &"Foo".to_string()).err().expect("refused");
    assert_eq!(e.loc, 30);
    assert_eq!(e.msg, "unexpected token: foo");
}

#[test]
fn self_paths_become_qualified() {
    let mut p = PathShape { leading_colon: false, segments: vec![("Self".to_string(), false), ("Assoc".to_string(), false)] };
    assert!(pin_project::pinned_drop::self_to_qself(&mut p));
    assert!(p.leading_colon);
    assert_eq!(p.segments, vec![("Assoc".to_string(), false)]);
    let mut alone = PathShape { leading_colon: false, segments: vec![("Self".to_string(), false)] };
    assert!(!pin_project::pinned_drop::self_to_qself(&mut alone));
    assert!(pin_project::pinned_drop::self_path(&alone));
    let mut name = "self".to_string();
    pin_project::pinned_drop::rename_receiver(&mut name);
    assert_eq!(name, "__self");
}

#[test]
fn accepted_drop_method_is_rewritten() {
    let parts = pin_project::pinned_drop::DropMethodParts {
        head: String::new(),
        generics: String::new(),
        receiver_mut: true,
        receiver_ty: "Pin<&mut Self>".to_string(),
        output: String::new(),
        where_clause: String::new(),
        impl_generics: "<T>".to_string(),
        impl_where: String::new(),
        inner_receiver_ty: "Pin<&mut Foo<T>>".to_string(),
        inner_output: String::new(),
        inner_block: "{ __self.x(); }".to_string(),
    };
    assert_eq!(
        pin_project::pinned_drop::expand_method(&parts),
        " unsafe fn drop(self: Pin<&mut Self>)   {  fn __drop_inner<T>(mut __self: Pin<&mut Foo<T>>)   { __self.x(); } __drop_inner(self); }"
    );
}
