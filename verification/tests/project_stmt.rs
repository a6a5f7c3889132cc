use pin_project::model::Attr;
use pin_project::pinned_drop::PathShape;
use pin_project::project::Pat;
use pin_project::project_stmt::{replace_stmt, visit_stmt, RegExpr, RegStmt, Register};

fn path(segs: &[(&str, bool)]) -> PathShape {
    PathShape { leading_colon: false, segments: segs.iter().map(|(s, a)| (s.to_string(), *a)).collect() }
}

fn first_of(p: &PathShape) -> String {
    p.segments[0].0.clone()
}

#[test]
fn statement_project_replaces_paths_in_patterns_and_expressions() {
    let e = RegExpr::Match(vec![
        Pat::TupleStruct(path(&[("Foo", false), ("A", false)])),
        Pat::TupleStruct(path(&[("Foo", false), ("B", false)])),
        Pat::Struct(path(&[("Bar", false)])),
    ]);
    match replace_stmt(RegStmt::Expr(e)) {
        RegStmt::Expr(RegExpr::Match(p)) => {
            let names: Vec<String> = p
                .iter()
                .map(|x| match x {
                    Pat::TupleStruct(q) | Pat::Struct(q) => first_of(q),
                    _ => String::new(),
                })
                .collect();
            assert_eq!(names, vec!["__FooProjection", "__FooProjection", "Bar"]);
        }
        _ => panic!("a match stays a match"),
    }
}

#[test]
fn statement_project_skips_paths_with_arguments() {
    let mut reg = Register::default();
    let p = pin_project::project_stmt::replace_path(path(&[("Foo", true)]), &mut reg);
    assert_eq!(first_of(&p), "Foo");
    assert!(reg.0.is_none());
    let p = pin_project::project_stmt::replace_path(path(&[("Foo", false)]), &mut reg);
    assert_eq!(first_of(&p), "__FooProjection");
    assert!(reg.eq(&"Foo".to_string(), 1));
}

#[test]
fn statement_project_attribute_in_a_function() {
    let mut attrs = vec![Attr { name: Some("project".to_string()), tokens: vec![], loc: 1 }];
    let (found, done) = visit_stmt(&mut attrs, RegStmt::Local(vec![Pat::Struct(path(&[("Foo", false)]))]));
    assert!(found);
    assert!(attrs.is_empty());
    match done {
        RegStmt::Local(p) => match &p[0] {
            Pat::Struct(q) => assert_eq!(first_of(q), "__FooProjection"),
            _ => panic!("a struct pattern stays one"),
        },
        _ => panic!("a let stays a let"),
    }
    let mut none: Vec<Attr> = vec![];
    let (found, _) = visit_stmt(&mut none, RegStmt::Other);
    assert!(!found);
}

#[test]
fn statement_project_if_chains_share_the_register() {
    let e = RegExpr::If {
        cond: Box::new(RegExpr::Let(vec![Pat::TupleStruct(path(&[("Foo", false), ("A", false)]))])),
        else_if: Some(Box::new(RegExpr::If {
            cond: Box::new(RegExpr::Let(vec![Pat::TupleStruct(path(&[("Bar", false), ("B", false)]))])),
            else_if: None,
        })),
    };
    let mut reg = Register::default();
    match pin_project::project_stmt::replace_expr(e, &mut reg) {
        RegExpr::If { cond, else_if: Some(rest) } => {
            match *cond {
                RegExpr::Let(p) => match &p[0] {
                    Pat::TupleStruct(q) => assert_eq!(first_of(q), "__FooProjection"),
                    _ => panic!(),
                },
                _ => panic!(),
            }
            match *rest {
                RegExpr::If { cond, .. } => match *cond {
                    RegExpr::Let(p) => match &p[0] {
                        Pat::TupleStruct(q) => assert_eq!(first_of(q), "Bar"),
                        _ => panic!(),
                    },
                    _ => panic!(),
                },
                _ => panic!(),
            }
        }
        _ => panic!("an if stays an if"),
    }
}
