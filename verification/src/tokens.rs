use vstd::prelude::*;

use crate::text::text_is;
use crate::names::{prepend_underscore_to_self, underscore_self};

verus! {

broadcast use vstd::std_specs::vec::axiom_vec_decreases_to_view, vstd::std_specs::vec::axiom_vec_index_decreases;

pub enum Delimiter {
    Parenthesis,
    Brace,
    Bracket,
    Invisible,
}

pub enum TokenTree {
    Ident { name: String, loc: usize },
    Punct { ch: char, joint: bool, loc: usize },
    Literal { text: String, loc: usize },
    Group { delim: Delimiter, stream: Vec<TokenTree>, loc: usize },
}

pub open spec fn tree_contains_fn(tt: TokenTree) -> bool
    decreases tt, 0nat,
{
    match tt {
        TokenTree::Ident { name, .. } => name@ == "fn"@,
        TokenTree::Group { stream, .. } => stream_contains_fn(stream@),
        _ => false,
    }
}

pub open spec fn stream_contains_fn(s: Seq<TokenTree>) -> bool
    decreases s, s.len(),
{
    if s.len() == 0 {
        false
    } else {
        stream_contains_fn(s.subrange(0, s.len() - 1)) || tree_contains_fn(s[s.len() - 1])
    }
}


/// Whether the token tree holds the keyword `fn` anywhere.
pub fn tree_has_fn(tt: &TokenTree) -> (b: bool)
    ensures
        b == tree_contains_fn(*tt),
    decreases tt, 0nat,
{
    match tt {
        TokenTree::Ident { name, .. } => text_is(name, "fn"),
        TokenTree::Group { stream, .. } => contains_fn(stream),
        _ => false,
    }
}

/// Whether the token stream holds the keyword `fn` anywhere, groups included.
pub fn contains_fn(tokens: &Vec<TokenTree>) -> (b: bool)
    ensures
        b == stream_contains_fn(tokens@),
    decreases tokens@, tokens@.len() + 1,
{
    let mut i: usize = 0;
    let mut found = false;
    while i < tokens.len()
        invariant
            i <= tokens@.len(),
            found == stream_contains_fn(tokens@.subrange(0, i as int)),
        decreases tokens@.len() - i,
    {
        assert(tokens@.subrange(0, i + 1).subrange(0, i as int) =~= tokens@.subrange(0, i as int));
        let here = tree_has_fn(&tokens[i]);
        found = found || here;
        i = i + 1;
    }
    assert(tokens@.subrange(0, i as int) =~= tokens@);
    found
}


/// Where a token tree stands.
pub open spec fn tree_loc(tt: TokenTree) -> usize {
    match tt {
        TokenTree::Ident { loc, .. } => loc,
        TokenTree::Punct { loc, .. } => loc,
        TokenTree::Literal { loc, .. } => loc,
        TokenTree::Group { loc, .. } => loc,
    }
}

/// The opening and closing text of a delimiter.
pub open spec fn open_text(d: Delimiter) -> Seq<char> {
    match d {
        Delimiter::Parenthesis => "("@,
        Delimiter::Brace => "{"@,
        Delimiter::Bracket => "["@,
        Delimiter::Invisible => Seq::empty(),
    }
}

pub open spec fn close_text(d: Delimiter) -> Seq<char> {
    match d {
        Delimiter::Parenthesis => ")"@,
        Delimiter::Brace => "}"@,
        Delimiter::Bracket => "]"@,
        Delimiter::Invisible => Seq::empty(),
    }
}

/// A token tree written as text.
pub open spec fn tree_text(tt: TokenTree) -> Seq<char>
    decreases tt, 0nat,
{
    match tt {
        TokenTree::Ident { name, .. } => name@,
        TokenTree::Punct { ch, .. } => seq![ch],
        TokenTree::Literal { text, .. } => text@,
        TokenTree::Group { delim, stream, .. } => open_text(delim) + stream_text(stream@) + close_text(delim),
    }
}

/// Whether the token is a punctuation joined to the next one.
pub open spec fn is_joint(tt: TokenTree) -> bool {
    tt matches TokenTree::Punct { joint, .. } && joint
}

/// A token stream written as text: tokens separated by a space, except
/// after a punctuation joined to the next one.
pub open spec fn stream_text(s: Seq<TokenTree>) -> Seq<char>
    decreases s, s.len(),
{
    if s.len() == 0 {
        Seq::empty()
    } else if s.len() == 1 {
        tree_text(s[0])
    } else {
        let sep = if is_joint(s[s.len() - 2]) { Seq::empty() } else { " "@ };
        stream_text(s.subrange(0, s.len() - 1)) + sep + tree_text(s[s.len() - 1])
    }
}

/// Writes a token tree as text.
pub fn tree_to_text(tt: &TokenTree) -> (r: String)
    ensures
        r@ == tree_text(*tt),
    decreases tt, 0nat,
{
    match tt {
        TokenTree::Ident { name, .. } => name.clone(),
        TokenTree::Punct { ch, .. } => {
            let r = char_to_string(*ch);
            r
        },
        TokenTree::Literal { text, .. } => text.clone(),
        TokenTree::Group { delim, stream, .. } => {
            let mut r = match delim {
                Delimiter::Parenthesis => String::from_str("("),
                Delimiter::Brace => String::from_str("{"),
                Delimiter::Bracket => String::from_str("["),
                Delimiter::Invisible => String::new(),
            };
            let inner = stream_to_text(stream);
            r.append(inner.as_str());
            match delim {
                Delimiter::Parenthesis => r.append(")"),
                Delimiter::Brace => r.append("}"),
                Delimiter::Bracket => r.append("]"),
                Delimiter::Invisible => {},
            }
            proof {
                reveal_strlit("");
                assert(r@ =~= tree_text(*tt));
            }
            r
        },
    }
}

/// Writes a token stream as text.
pub fn stream_to_text(tokens: &Vec<TokenTree>) -> (r: String)
    ensures
        r@ == stream_text(tokens@),
    decreases tokens@, tokens@.len() + 1,
{
    let mut r = String::new();
    let mut i: usize = 0;
    while i < tokens.len()
        invariant
            i <= tokens@.len(),
            r@ == stream_text(tokens@.subrange(0, i as int)),
        decreases tokens@.len() - i,
    {
        assert(tokens@.subrange(0, i + 1).subrange(0, i as int) =~= tokens@.subrange(0, i as int));
        if i > 0 {
            let joint = match &tokens[i - 1] {
                TokenTree::Punct { joint, .. } => *joint,
                _ => false,
            };
            if !joint {
                r.append(" ");
            }
        }
        let t = tree_to_text(&tokens[i]);
        r.append(t.as_str());
        proof {
            reveal_strlit("");
            if i == 0 {
                assert(r@ =~= stream_text(tokens@.subrange(0, 1)));
            }
        }
        i = i + 1;
    }
    assert(tokens@.subrange(0, i as int) =~= tokens@);
    r
}

/// Calls `ToString::to_string` on a `char`, which std documents as the
/// string that holds that one character; the contract claims exactly that.
#[verifier::external_body]
fn char_to_string(c: char) -> (r: String)
    ensures
        r@ == seq![c],
{
    c.to_string()
}

/// A token tree after `self` was renamed to `__self` throughout.
pub open spec fn tree_folded(a: TokenTree, b: TokenTree) -> bool
    decreases a, 0nat,
{
    match a {
        TokenTree::Ident { name, loc } => b matches TokenTree::Ident { name: n2, loc: l2 }
            && n2@ == underscore_self(name@) && l2 == loc,
        TokenTree::Group { delim, stream, loc } => b matches TokenTree::Group { delim: d2, stream: s2, loc: l2 }
            && d2 == delim && l2 == loc && stream_folded(stream@, s2@),
        _ => b == a,
    }
}

/// A token stream after `self` was renamed to `__self` throughout.
pub open spec fn stream_folded(a: Seq<TokenTree>, b: Seq<TokenTree>) -> bool
    decreases a, a.len(),
{
    &&& a.len() == b.len()
    &&& if a.len() == 0 {
        true
    } else {
        stream_folded(a.subrange(0, a.len() - 1), b.subrange(0, b.len() - 1))
            && tree_folded(a[a.len() - 1], b[b.len() - 1])
    }
}

/// Renames every identifier `self` to `__self`, inside groups too.
pub fn fold_tree(tt: TokenTree) -> (r: TokenTree)
    ensures
        tree_folded(tt, r),
    decreases tt, 0nat,
{
    match tt {
        TokenTree::Ident { name, loc } => {
            let mut name = name;
            prepend_underscore_to_self(&mut name);
            TokenTree::Ident { name, loc }
        },
        TokenTree::Group { delim, stream, loc } => {
            let folded = fold_token_stream(stream);
            TokenTree::Group { delim, stream: folded, loc }
        },
        other => other,
    }
}

/// Renames every identifier `self` in the stream to `__self`, inside groups too.
pub fn fold_token_stream(tokens: Vec<TokenTree>) -> (r: Vec<TokenTree>)
    ensures
        stream_folded(tokens@, r@),
    decreases tokens@, tokens@.len() + 1,
{
    let ghost orig = tokens@;
    let mut rest = tokens;
    let mut out: Vec<TokenTree> = Vec::new();
    let ghost mut n: int = 0;
    while rest.len() > 0
        invariant
            orig == tokens@,
            0 <= n <= orig.len(),
            orig.len() == n + rest@.len(),
            rest@ == orig.subrange(n, orig.len() as int),
            stream_folded(orig.subrange(0, n), out@),
        decreases rest@.len(),
    {
        let tt = rest.remove(0);
        assert(tt == orig[n]);
        assert(decreases_to!(orig => tt));
        let f = fold_tree(tt);
        let ghost prev = out@;
        out.push(f);
        proof {
            let a = orig.subrange(0, n + 1);
            assert(a.subrange(0, a.len() - 1) =~= orig.subrange(0, n));
            assert(out@.subrange(0, out@.len() - 1) =~= prev);
            assert(a[a.len() - 1] == orig[n]);
            assert(stream_folded(a, out@));
            n = n + 1;
            assert(rest@ =~= orig.subrange(n, orig.len() as int));
        }
    }
    assert(orig.subrange(0, n) =~= orig);
    out
}

} // verus!
