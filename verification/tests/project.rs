use pin_project::model::{Attr, GenericParam, Generics};
use pin_project::names::Mutability;
use pin_project::pinned_drop::PathShape;
use pin_project::project::{Context, LocalShape, Pat};
use pin_project::project_fn::{select_mutability, visit_expr, visit_local, walk, ExprShape, WalkNode};
use pin_project::project_items::{attribute, ImplTarget, PathArgs, StmtShape, UseTreeShape};

fn path(segs: &[&str]) -> PathShape {
    PathShape { leading_colon: false, segments: segs.iter().map(|s| (s.to_string(), false)).collect() }
}

fn first(p: &Pat) -> String {
    match p {
        Pat::Struct(p) | Pat::TupleStruct(p) | Pat::Path { path: p, .. } => p.segments[0].0.clone(),
        _ => panic!("not a path pattern"),
    }
}

fn attr(name: &str, loc: usize) -> Attr {
    Attr { name: Some(name.to_string()), tokens: vec![], loc }
}

#[test]
fn match_arms_of_one_enum_are_replaced() {
    let arms = vec![
        Pat::TupleStruct(path(&["Foo", "Variant1"])),
        Pat::Struct(path(&["Foo", "Variant2"])),
        Pat::TupleStruct(path(&["Bar", "Other"])),
        Pat::Path { qself: false, path: path(&["Foo", "Unit"]) },
    ];
    let mut cx = Context::new(Mutability::Mutable);
    let out = cx.replace_expr_match(arms);
    assert_eq!(first(&out[0]), "__FooProjection");
    assert_eq!(first(&out[1]), "__FooProjection");
    assert_eq!(first(&out[2]), "Bar");
    assert_eq!(first(&out[3]), "__FooProjection");
    assert!(cx.replaced);
}

#[test]
fn project_ref_and_replace_names() {
    let mut cx = Context::new(Mutability::Immutable);
    let out = cx.replace_pat(Pat::Struct(path(&["Foo"])), false);
    assert_eq!(first(&out), "__FooProjectionRef");
    let mut cx = Context::new(Mutability::Owned);
    let out = cx.replace_pat(Pat::Struct(path(&["Foo"])), false);
    assert_eq!(first(&out), "__FooProjectionOwned");
}

#[test]
fn let_with_struct_pattern_is_replaced() {
    let local = LocalShape { attrs: vec![], pat: Pat::Struct(path(&["Foo"])), pat_loc: 5, init_match: None };
    let out = attribute(&vec![], StmtShape::Local(local), Mutability::Mutable).ok().expect("accepted");
    match out {
        StmtShape::Local(l) => assert_eq!(first(&l.pat), "__FooProjection"),
        _ => panic!("a let stays a let"),
    }
}

#[test]
fn let_with_both_sides_replaceable_is_ambiguous() {
    let local = LocalShape {
        attrs: vec![],
        pat: Pat::Struct(path(&["A"])),
        pat_loc: 5,
        init_match: Some(vec![Pat::TupleStruct(path(&["Foo", "V"]))]),
    };
    let e = attribute(&vec![], StmtShape::Local(local), Mutability::Mutable).err().expect("refused");
    assert_eq!(e.loc, 5);
    assert_eq!(
        e.msg,
        "Both initializer expression and pattern are replaceable, you need to split the initializer expression into separate let bindings to avoid ambiguity"
    );
}

#[test]
fn duplicate_project_attribute_is_refused() {
    let local = LocalShape { attrs: vec![attr("project", 8)], pat: Pat::Other, pat_loc: 5, init_match: None };
    let e = attribute(&vec![], StmtShape::Local(local), Mutability::Mutable).err().expect("refused");
    assert_eq!(e.loc, 8);
    assert_eq!(e.msg, "duplicate #[project] attribute");
}

#[test]
fn impl_block_names_the_projected_type() {
    let target = ImplTarget {
        attrs: vec![],
        self_last: Some(("Foo".to_string(), PathArgs::Angle(vec!["T".to_string()]))),
        generics: Generics {
            params: vec![
                GenericParam::Lifetime { name: "'pin".to_string(), bounds: String::new() },
                GenericParam::Type { name: "T".to_string(), bounds: String::new(), default: String::new() },
            ],
            where_clause: None,
        },
        method_params: vec![vec![GenericParam::Lifetime { name: "'pin_".to_string(), bounds: String::new() }]],
    };
    let out = attribute(&vec![], StmtShape::ItemImpl(target), Mutability::Mutable).ok().expect("accepted");
    match out {
        StmtShape::ItemImpl(t) => {
            match t.self_last {
                Some((name, PathArgs::Angle(args))) => {
                    assert_eq!(name, "__FooProjection");
                    assert_eq!(args, vec!["'pin__".to_string(), "T".to_string()]);
                }
                _ => panic!("the self type is a path"),
            }
            match &t.generics.params[0] {
                GenericParam::Lifetime { name, .. } => assert_eq!(name, "'pin__"),
                _ => panic!("the lifetime comes first"),
            }
            assert_eq!(t.generics.params.len(), 3);
        }
        _ => panic!("an impl stays an impl"),
    }
}

#[test]
fn use_items_are_renamed_and_globs_refused() {
    let tree = UseTreeShape::Path(Box::new(UseTreeShape::Group(vec![
        UseTreeShape::Name("Foo".to_string()),
        UseTreeShape::Name("Bar".to_string()),
    ])));
    let out = attribute(&vec![], StmtShape::ItemUse { attrs: vec![], tree }, Mutability::Immutable).ok().expect("accepted");
    match out {
        StmtShape::ItemUse { tree: UseTreeShape::Path(b), .. } => match *b {
            UseTreeShape::Group(v) => match (&v[0], &v[1]) {
                (UseTreeShape::Name(a), UseTreeShape::Name(b)) => {
                    assert_eq!(a, "__FooProjectionRef");
                    assert_eq!(b, "__BarProjectionRef");
                }
                _ => panic!("names stay names"),
            },
            _ => panic!("groups stay groups"),
        },
        _ => panic!("a use stays a use"),
    }
    let glob = UseTreeShape::Path(Box::new(UseTreeShape::Glob(9)));
    let e = attribute(&vec![], StmtShape::ItemUse { attrs: vec![], tree: glob }, Mutability::Mutable).err().expect("refused");
    assert_eq!((e.loc, e.msg.as_str()), (9, "#[project] attribute may not be used on glob imports"));
    let e = attribute(&vec![], StmtShape::ItemUse { attrs: vec![], tree: UseTreeShape::Rename(10) }, Mutability::Owned)
        .err()
        .expect("refused");
    assert_eq!((e.loc, e.msg.as_str()), (10, "#[project_replace] attribute may not be used on renamed imports"));
}

#[test]
fn attributes_in_a_function_body() {
    let mut local = LocalShape { attrs: vec![attr("project_ref", 3)], pat: Pat::Struct(path(&["Foo"])), pat_loc: 5, init_match: None };
    visit_local(&mut local).ok().expect("accepted");
    assert!(local.attrs.is_empty());
    assert_eq!(first(&local.pat), "__FooProjectionRef");

    let mut attrs = vec![attr("project", 3), attr("project_ref", 4)];
    let e = select_mutability(&mut attrs).err().expect("refused");
    assert_eq!((e.loc, e.msg.as_str()), (3, "attributes `project_ref` and `project` are mutually exclusive"));

    let mut attrs = vec![attr("project", 3)];
    let chain = ExprShape::IfLet(vec![Pat::TupleStruct(path(&["Foo", "A"])), Pat::TupleStruct(path(&["Bar", "B"]))]);
    let out = visit_expr(&mut attrs, chain).ok().expect("accepted");
    assert!(attrs.is_empty());
    match out {
        ExprShape::IfLet(p) => {
            // Each `let` of the chain has its own replacement.
            assert_eq!(first(&p[0]), "__FooProjection");
            assert_eq!(first(&p[1]), "__BarProjection");
        }
        _ => panic!("the chain stays a chain"),
    }
}

#[test]
fn project_takes_no_arguments() {
    let args = vec![pin_project::tokens::TokenTree::Ident { name: "x".to_string(), loc: 1 }];
    let e = attribute(&args, StmtShape::Other, Mutability::Mutable).err().expect("refused");
    assert_eq!((e.loc, e.msg.as_str()), (1, "unexpected token: x"));
}

#[test]
fn a_rewritten_let_is_left_alone_by_a_second_walk() {
    let mut local = LocalShape {
        attrs: vec![attr("doc", 1), attr("project", 2)],
        pat: Pat::Struct(path(&["Foo", "A"])),
        pat_loc: 3,
        init_match: None,
    };
    visit_local(&mut local).ok().expect("accepted");
    assert_eq!(local.attrs.len(), 1);
    assert_eq!(first(&local.pat), "__FooProjection");
    visit_local(&mut local).ok().expect("accepted again");
    assert_eq!(local.attrs.len(), 1);
    assert_eq!(first(&local.pat), "__FooProjection");
    let mut attrs = vec![attr("project_ref", 4)];
    assert_eq!(select_mutability(&mut attrs).ok().flatten().map(|m| m == Mutability::Immutable), Some(true));
    assert!(select_mutability(&mut attrs).ok().expect("accepted").is_none());
}

#[test]
fn walk_over_a_function_body_twice() {
    let node_let = || {
        WalkNode::Local(LocalShape {
            attrs: vec![attr("project", 2)],
            pat: Pat::Struct(path(&["Foo", "A"])),
            pat_loc: 3,
            init_match: None,
        })
    };
    let node_match = || WalkNode::Expr {
        attrs: vec![attr("project_ref", 4)],
        expr: ExprShape::Match(vec![Pat::TupleStruct(path(&["Foo", "B"]))]),
    };
    let mut nodes = vec![node_let(), node_match()];
    walk(&mut nodes).ok().expect("accepted");
    match &nodes[0] {
        WalkNode::Local(l) => {
            assert!(l.attrs.is_empty());
            assert_eq!(first(&l.pat), "__FooProjection");
        }
        _ => panic!("a let"),
    }
    match &nodes[1] {
        WalkNode::Expr { attrs, expr: ExprShape::Match(arms) } => {
            assert!(attrs.is_empty());
            assert_eq!(first(&arms[0]), "__FooProjectionRef");
        }
        _ => panic!("a match"),
    }
    // The second walk finds nothing to do.
    walk(&mut nodes).ok().expect("accepted again");
    match &nodes[0] {
        WalkNode::Local(l) => assert_eq!(first(&l.pat), "__FooProjection"),
        _ => panic!("a let"),
    }
    // The first error stops the walk.
    let bad = WalkNode::Expr { attrs: vec![attr("project", 5), attr("project_ref", 6)], expr: ExprShape::Match(vec![]) };
    let mut nodes = vec![node_let(), bad, node_match()];
    let e = walk(&mut nodes).err().expect("refused");
    assert_eq!(e.msg, "attributes `project_ref` and `project` are mutually exclusive");
}
