use pin_project::model::GenericParam;
use pin_project::names::{determine_lifetime_name, proj_ident, Mutability};
use pin_project::tokens::{contains_fn, fold_token_stream, stream_to_text, TokenTree};

#[test]
fn fresh_lifetime_is_none_of_the_existing_ones() {
    let params = vec![
        GenericParam::Lifetime { name: "'pin".to_string(), bounds: String::new() },
        GenericParam::Lifetime { name: "'pin_".to_string(), bounds: String::new() },
        GenericParam::Lifetime { name: "'pin__a".to_string(), bounds: String::new() },
    ];
    let mut name = "'pin".to_string();
    determine_lifetime_name(&mut name, &params);
    assert_eq!(name, "'pin___");
    for p in &params {
        if let GenericParam::Lifetime { name: existing, .. } = p {
            assert!(!existing.starts_with(name.as_str()));
        }
    }
}

#[test]
fn projected_names_are_distinct() {
    let all = [Mutability::Mutable, Mutability::Immutable, Mutability::Owned];
    let names: Vec<String> = all.iter().flat_map(|m| ["Foo", "FooProjection"].iter().map(move |t| proj_ident(&t.to_string(), *m))).collect();
    for i in 0..names.len() {
        for j in 0..names.len() {
            if i != j {
                assert_ne!(names[i], names[j]);
            }
        }
    }
}

#[test]
fn renaming_self_is_idempotent_and_keeps_fn() {
    let mk = || {
        vec![
            TokenTree::Ident { name: "self".to_string(), loc: 0 },
            TokenTree::Ident { name: "__self".to_string(), loc: 0 },
            TokenTree::Ident { name: "fn".to_string(), loc: 0 },
        ]
    };
    let once = fold_token_stream(mk());
    let twice = fold_token_stream(fold_token_stream(mk()));
    assert_eq!(stream_to_text(&once), stream_to_text(&twice));
    assert_eq!(stream_to_text(&once), "__self __self fn");
    assert!(contains_fn(&once));
}
