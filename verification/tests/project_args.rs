use pin_project::project_args::{parse_names, replace_item_fn, FnArg};
use pin_project::tokens::TokenTree;

fn ident(name: &str, loc: usize) -> TokenTree {
    TokenTree::Ident { name: name.to_string(), loc }
}

fn comma(loc: usize) -> TokenTree {
    TokenTree::Punct { ch: ',', joint: false, loc }
}

#[test]
fn names_of_the_attribute() {
    let names = parse_names(&vec![ident("self", 1), comma(2), ident("x", 3), comma(4), ident("x", 5), comma(6)]).ok().expect("accepted");
    assert_eq!(names, vec!["self".to_string(), "x".to_string()]);
    let e = parse_names(&vec![ident("x", 1), ident("y", 2)]).err().expect("refused");
    assert_eq!((e.loc, e.msg.as_str()), (2, "expected `,`"));
    let e = parse_names(&vec![ident("fn", 1)]).err().expect("refused");
    assert_eq!((e.loc, e.msg.as_str()), (1, "expected identifier, found keyword `fn`"));
    let e = parse_names(&vec![TokenTree::Literal { text: "1".to_string(), loc: 7 }]).err().expect("refused");
    assert_eq!((e.loc, e.msg.as_str()), (7, "expected identifier"));
}

#[test]
fn arguments_are_projected_at_the_start_of_the_body() {
    let names = vec!["self".to_string(), "y".to_string()];
    let mut inputs = vec![
        FnArg { ident: Some("self".to_string()), by_ref: false, mutability: true },
        FnArg { ident: Some("x".to_string()), by_ref: false, mutability: true },
        FnArg { ident: Some("y".to_string()), by_ref: true, mutability: true },
    ];
    let done = replace_item_fn(&names, &mut inputs);
    assert_eq!(done.stmts, vec!["let ref mut y = y.project();".to_string(), "let mut __self = self.project();".to_string()]);
    assert!(done.rename_self);
    assert!(!inputs[0].mutability && !inputs[0].by_ref);
    assert!(inputs[1].mutability);
    assert!(inputs[2].mutability && !inputs[2].by_ref);
}
