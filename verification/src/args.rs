//! Arguments of the attributes.
use vstd::prelude::*;

use crate::attrs::is_ident;
use crate::error::{Diag, Error};
use crate::model::Attr;
use crate::text::text_is;
use crate::tokens::{tree_loc, Delimiter, TokenTree};

verus! {

/// Location standing for the macro call itself, used where the error has no
/// token of its own.
pub const CALL_SITE: usize = 0;

/// Whether `syn` reads the text `s` as one identifier: a word that is not
/// a keyword.
pub uninterp spec fn parses_as_ident(s: Seq<char>) -> bool;

/// A character that may start a word: an ASCII letter or `_`.
pub open spec fn is_word_start(c: char) -> bool {
    ('a' <= c && c <= 'z') || ('A' <= c && c <= 'Z') || c == '_'
}

/// A character that may go on a word: an ASCII letter, digit or `_`.
pub open spec fn is_word_char(c: char) -> bool {
    is_word_start(c) || ('0' <= c && c <= '9')
}

/// A single ASCII word, which the lexer reads as one identifier.
pub open spec fn is_ascii_word(s: Seq<char>) -> bool {
    &&& s.len() >= 1
    &&& is_word_start(s[0])
    &&& forall|i: int| 1 <= i < s.len() ==> is_word_char(#[trigger] s[i])
}

/// The words that `syn` does not take for an identifier: `_` and the
/// keywords, strict and reserved.
pub open spec fn is_keyword(s: Seq<char>) -> bool {
    s == "_"@ || s == "abstract"@ || s == "as"@ || s == "become"@ || s == "box"@ || s == "break"@
        || s == "const"@ || s == "continue"@ || s == "crate"@ || s == "do"@ || s == "else"@ || s == "enum"@
        || s == "extern"@ || s == "false"@ || s == "final"@ || s == "fn"@ || s == "for"@ || s == "if"@
        || s == "impl"@ || s == "in"@ || s == "let"@ || s == "loop"@ || s == "macro"@ || s == "match"@
        || s == "mod"@ || s == "move"@ || s == "mut"@ || s == "override"@ || s == "priv"@ || s == "pub"@
        || s == "ref"@ || s == "return"@ || s == "Self"@ || s == "self"@ || s == "static"@ || s == "struct"@
        || s == "super"@ || s == "trait"@ || s == "true"@ || s == "type"@ || s == "typeof"@ || s == "unsafe"@
        || s == "unsized"@ || s == "use"@ || s == "virtual"@ || s == "where"@ || s == "while"@ || s == "yield"@
}

/// Every keyword but `Self` starts with a lowercase letter or `_`: a word
/// that starts with an uppercase letter and is not `Self` is no keyword.
pub proof fn lemma_keywords_start_lowercase(s: Seq<char>)
    ensures
        is_keyword(s) ==> s == "Self"@ || s[0] == '_' || ('a' <= s[0] && s[0] <= 'z'),
{
    reveal_strlit("_");
    reveal_strlit("abstract");
    reveal_strlit("as");
    reveal_strlit("become");
    reveal_strlit("box");
    reveal_strlit("break");
    reveal_strlit("const");
    reveal_strlit("continue");
    reveal_strlit("crate");
    reveal_strlit("do");
    reveal_strlit("else");
    reveal_strlit("enum");
    reveal_strlit("extern");
    reveal_strlit("false");
    reveal_strlit("final");
    reveal_strlit("fn");
    reveal_strlit("for");
    reveal_strlit("if");
    reveal_strlit("impl");
    reveal_strlit("in");
    reveal_strlit("let");
    reveal_strlit("loop");
    reveal_strlit("macro");
    reveal_strlit("match");
    reveal_strlit("mod");
    reveal_strlit("move");
    reveal_strlit("mut");
    reveal_strlit("override");
    reveal_strlit("priv");
    reveal_strlit("pub");
    reveal_strlit("ref");
    reveal_strlit("return");
    reveal_strlit("Self");
    reveal_strlit("self");
    reveal_strlit("static");
    reveal_strlit("struct");
    reveal_strlit("super");
    reveal_strlit("trait");
    reveal_strlit("true");
    reveal_strlit("type");
    reveal_strlit("typeof");
    reveal_strlit("unsafe");
    reveal_strlit("unsized");
    reveal_strlit("use");
    reveal_strlit("virtual");
    reveal_strlit("where");
    reveal_strlit("while");
    reveal_strlit("yield");
}

/// The words that cannot be parsed as an identifier: for a single ASCII
/// word, the keywords; for any other text, what `syn` refuses.
pub open spec fn is_reserved(s: Seq<char>) -> bool {
    if is_ascii_word(s) { is_keyword(s) } else { !parses_as_ident(s) }
}

/// Calls `syn::parse_str::<syn::Ident>`, which succeeds when the whole text
/// is one identifier that is not a keyword (nor `_`). On a single ASCII
/// word the lexer gives one identifier, which `syn` refuses exactly when it
/// is in its keyword list; on other texts the contract names the outcome,
/// which depends on the text alone.
#[verifier::external_body]
fn ident_parses(s: &str) -> (b: bool)
    ensures
        b == parses_as_ident(s@),
        is_ascii_word(s@) ==> (b <==> !is_keyword(s@)),
{
    syn::parse_str::<syn::Ident>(s).is_ok()
}

/// Whether `s` is a word that cannot be parsed as an identifier.
pub fn reserved(s: &String) -> (b: bool)
    ensures
        b == is_reserved(s@),
{
    !ident_parses(s.as_str())
}

/// Which attribute the arguments belong to.
#[derive(Clone, Copy, PartialEq, Eq, Structural)]
pub enum Dialect {
    /// `#[pin_project(...)]`, written by the user.
    Attribute,
    /// `#[pin(__private(...))]`, the same arguments handed on to the derive.
    Derive,
}

/// The arguments that were given, each by where it was written.
#[derive(Clone, Copy, PartialEq, Eq, Structural)]
pub struct Args {
    pub pinned_drop: Option<usize>,
    pub unsafe_unpin: Option<usize>,
    pub replace: Option<usize>,
    /// `!Unpin`, by where its `!` was written.
    pub not_unpin: Option<usize>,
}

/// No argument given.
pub open spec fn no_args() -> Args {
    Args { pinned_drop: None, unsafe_unpin: None, replace: None, not_unpin: None }
}

/// The mathematical content of a parse result.
pub open spec fn args_view(r: Result<Args, Error>) -> Result<Args, Diag> {
    match r {
        Ok(a) => Ok(a),
        Err(e) => Err(e@),
    }
}

/// The token is the punctuation `,`.
pub open spec fn is_comma(tt: TokenTree) -> bool {
    tt matches TokenTree::Punct { ch, .. } && ch == ','
}

/// The token is the identifier `Unpin`.
pub open spec fn is_unpin_word(tt: TokenTree) -> bool {
    tt matches TokenTree::Ident { name, .. } && name@ == "Unpin"@
}

/// Whether the token is a comma.
pub fn is_comma_token(tt: &TokenTree) -> (b: bool)
    ensures
        b == is_comma(*tt),
{
    match tt {
        TokenTree::Punct { ch, .. } => *ch == ',',
        _ => false,
    }
}

/// Records the argument `name`, written at `loc`, in `acc`.
pub open spec fn accept_arg(acc: Args, name: Seq<char>, loc: usize, dialect: Dialect) -> Result<Args, Diag> {
    if name == "PinnedDrop"@ {
        if acc.pinned_drop is Some {
            Err(Diag { loc, msg: "duplicate `PinnedDrop` argument"@ })
        } else if acc.replace is Some {
            Err(Diag { loc, msg: "arguments `PinnedDrop` and `Replace` are mutually exclusive"@ })
        } else {
            Ok(Args { pinned_drop: Some(loc), ..acc })
        }
    } else if name == "Replace"@ {
        if acc.replace is Some {
            Err(Diag { loc, msg: "duplicate `Replace` argument"@ })
        } else if acc.pinned_drop is Some {
            Err(Diag { loc, msg: "arguments `PinnedDrop` and `Replace` are mutually exclusive"@ })
        } else {
            Ok(Args { replace: Some(loc), ..acc })
        }
    } else if name == "UnsafeUnpin"@ {
        if acc.unsafe_unpin is Some {
            Err(Diag { loc, msg: "duplicate `UnsafeUnpin` argument"@ })
        } else if acc.not_unpin is Some {
            Err(Diag { loc, msg: "arguments `UnsafeUnpin` and `!Unpin` are mutually exclusive"@ })
        } else {
            Ok(Args { unsafe_unpin: Some(loc), ..acc })
        }
    } else {
        match dialect {
            Dialect::Attribute => Err(Diag { loc, msg: "an invalid argument was passed to #[pin_project] attribute"@ }),
            Dialect::Derive => Err(Diag { loc, msg: "unexpected argument: "@ + name }),
        }
    }
}

/// Records the argument `!Unpin`, whose `!` was written at `loc`, in `acc`.
pub open spec fn accept_not_unpin(acc: Args, loc: usize) -> Result<Args, Diag> {
    if acc.not_unpin is Some {
        Err(Diag { loc, msg: "duplicate `!Unpin` argument"@ })
    } else if acc.unsafe_unpin is Some {
        Err(Diag { loc, msg: "arguments `UnsafeUnpin` and `!Unpin` are mutually exclusive"@ })
    } else {
        Ok(Args { not_unpin: Some(loc), ..acc })
    }
}

/// The argument that starts at position `i`: the arguments with it
/// recorded, and the position just after it.
pub open spec fn arg_at(toks: Seq<TokenTree>, i: int, acc: Args, dialect: Dialect) -> Result<(Args, int), Diag> {
    match toks[i] {
        TokenTree::Ident { name, loc } => if is_reserved(name@) {
            Err(Diag { loc, msg: "expected identifier"@ })
        } else {
            match accept_arg(acc, name@, loc, dialect) {
                Err(d) => Err(d),
                Ok(next) => Ok((next, i + 1)),
            }
        },
        TokenTree::Punct { ch, loc, .. } => if ch != '!' {
            Err(Diag { loc, msg: "expected identifier"@ })
        } else if i + 1 < toks.len() && is_unpin_word(toks[i + 1]) {
            match accept_not_unpin(acc, loc) {
                Err(d) => Err(d),
                Ok(next) => Ok((next, i + 2)),
            }
        } else {
            Err(Diag { loc: if i + 1 < toks.len() { tree_loc(toks[i + 1]) } else { loc }, msg: "expected `Unpin`"@ })
        },
        _ => Err(Diag { loc: tree_loc(toks[i]), msg: "expected identifier"@ }),
    }
}

/// Parses `arg, arg, ...` from position `i` on, with the arguments in `acc`
/// already given; an argument is a name or `!Unpin`.
pub open spec fn parse_args_from(toks: Seq<TokenTree>, i: int, acc: Args, dialect: Dialect) -> Result<Args, Diag>
    decreases toks.len() - i,
{
    if i < 0 || i >= toks.len() {
        Ok(acc)
    } else {
        match arg_at(toks, i, acc, dialect) {
            Err(d) => Err(d),
            Ok((next, j)) => if j >= toks.len() {
                Ok(next)
            } else if is_comma(toks[j]) {
                parse_args_from(toks, j + 1, next, dialect)
            } else {
                Err(Diag { loc: tree_loc(toks[j]), msg: "expected `,`"@ })
            },
        }
    }
}

/// Parses a comma-separated list of arguments.
pub open spec fn parse_args_spec(toks: Seq<TokenTree>, dialect: Dialect) -> Result<Args, Diag> {
    parse_args_from(toks, 0, no_args(), dialect)
}

fn diag(loc: usize, msg: &str) -> (e: Error)
    ensures
        e@ == (Diag { loc, msg: msg@ }),
{
    Error { loc, msg: String::from_str(msg) }
}

/// Records one argument.
fn accept(acc: Args, name: &String, loc: usize, dialect: Dialect) -> (r: Result<Args, Error>)
    ensures
        args_view(r) == accept_arg(acc, name@, loc, dialect),
{
    if text_is(name, "PinnedDrop") {
        if acc.pinned_drop.is_some() {
            Err(diag(loc, "duplicate `PinnedDrop` argument"))
        } else if acc.replace.is_some() {
            Err(diag(loc, "arguments `PinnedDrop` and `Replace` are mutually exclusive"))
        } else {
            Ok(Args { pinned_drop: Some(loc), ..acc })
        }
    } else if text_is(name, "Replace") {
        if acc.replace.is_some() {
            Err(diag(loc, "duplicate `Replace` argument"))
        } else if acc.pinned_drop.is_some() {
            Err(diag(loc, "arguments `PinnedDrop` and `Replace` are mutually exclusive"))
        } else {
            Ok(Args { replace: Some(loc), ..acc })
        }
    } else if text_is(name, "UnsafeUnpin") {
        if acc.unsafe_unpin.is_some() {
            Err(diag(loc, "duplicate `UnsafeUnpin` argument"))
        } else if acc.not_unpin.is_some() {
            Err(diag(loc, "arguments `UnsafeUnpin` and `!Unpin` are mutually exclusive"))
        } else {
            Ok(Args { unsafe_unpin: Some(loc), ..acc })
        }
    } else {
        match dialect {
            Dialect::Attribute => Err(diag(loc, "an invalid argument was passed to #[pin_project] attribute")),
            Dialect::Derive => {
                let mut msg = String::from_str("unexpected argument: ");
                msg.append(name.as_str());
                Err(Error { loc, msg })
            },
        }
    }
}

/// Location of a token.
pub fn token_loc(tt: &TokenTree) -> (l: usize)
    ensures
        l == tree_loc(*tt),
{
    match tt {
        TokenTree::Ident { loc, .. } => *loc,
        TokenTree::Punct { loc, .. } => *loc,
        TokenTree::Literal { loc, .. } => *loc,
        TokenTree::Group { loc, .. } => *loc,
    }
}

/// Reads the argument that starts at position `i`.
fn read_arg(toks: &Vec<TokenTree>, i: usize, acc: Args, dialect: Dialect) -> (r: Result<(Args, usize), Error>)
    requires
        i < toks.len(),
    ensures
        match arg_at(toks@, i as int, acc, dialect) {
            Err(d) => r matches Err(e) && e@ == d,
            Ok((a, j)) => r matches Ok((b, k)) && a == b && j == k as int,
        },
{
    match &toks[i] {
        TokenTree::Ident { name, loc } => {
            if reserved(name) {
                return Err(diag(*loc, "expected identifier"));
            }
            match accept(acc, name, *loc, dialect) {
                Err(e) => Err(e),
                Ok(next) => Ok((next, i + 1)),
            }
        },
        TokenTree::Punct { ch, loc, .. } => {
            if *ch != '!' {
                return Err(diag(*loc, "expected identifier"));
            }
            let unpin_follows = i + 1 < toks.len() && match &toks[i + 1] {
                TokenTree::Ident { name, .. } => text_is(name, "Unpin"),
                _ => false,
            };
            if !unpin_follows {
                let at = if i + 1 < toks.len() { token_loc(&toks[i + 1]) } else { *loc };
                return Err(diag(at, "expected `Unpin`"));
            }
            if acc.not_unpin.is_some() {
                Err(diag(*loc, "duplicate `!Unpin` argument"))
            } else if acc.unsafe_unpin.is_some() {
                Err(diag(*loc, "arguments `UnsafeUnpin` and `!Unpin` are mutually exclusive"))
            } else {
                Ok((Args { not_unpin: Some(*loc), ..acc }, i + 2))
            }
        },
        _ => Err(diag(token_loc(&toks[i]), "expected identifier")),
    }
}

/// Parses a comma-separated list of arguments: `PinnedDrop`, `Replace`,
/// `UnsafeUnpin` and `!Unpin`; each may be given once, `PinnedDrop`
/// excludes `Replace`, and `UnsafeUnpin` excludes `!Unpin`.
pub fn parse_args(toks: &Vec<TokenTree>, dialect: Dialect) -> (r: Result<Args, Error>)
    ensures
        args_view(r) == parse_args_spec(toks@, dialect),
{
    let mut acc = Args { pinned_drop: None, unsafe_unpin: None, replace: None, not_unpin: None };
    let mut i: usize = 0;
    while i < toks.len()
        invariant
            i <= toks@.len(),
            parse_args_from(toks@, i as int, acc, dialect) == parse_args_spec(toks@, dialect),
        decreases toks@.len() - i,
    {
        let (next, j) = match read_arg(toks, i, acc, dialect) {
            Err(e) => return Err(e),
            Ok(x) => x,
        };
        acc = next;
        if j >= toks.len() {
            i = toks.len();
        } else {
            if !is_comma_token(&toks[j]) {
                return Err(diag(token_loc(&toks[j]), "expected `,`"));
            }
            i = j + 1;
        }
    }
    Ok(acc)
}

/// The message of the error reported for a second `#[pin]` attribute or a
/// `#[pin]` attribute that the attribute did not write.
pub open spec fn duplicate_pin_msg() -> Seq<char> {
    "duplicate #[pin] attribute"@
}

/// The contents of the outer and inner parentheses of `(__private(args))`.
pub open spec fn private_args(toks: Seq<TokenTree>) -> Option<(Seq<TokenTree>, Seq<TokenTree>)> {
    if toks.len() >= 1 {
        match toks[0] {
            TokenTree::Group { delim: Delimiter::Parenthesis, stream: c, .. } => if c@.len() >= 2 {
                match (c@[0], c@[1]) {
                    (TokenTree::Ident { name, .. }, TokenTree::Group { delim: Delimiter::Parenthesis, stream: inner, .. }) =>
                        if name@ == "__private"@ { Some((c@, inner@)) } else { None },
                    _ => None,
                }
            } else {
                None
            },
            _ => None,
        }
    } else {
        None
    }
}

/// Parses the tokens of `#[pin(__private(args))]`.
pub open spec fn parse_pin_args_spec(toks: Seq<TokenTree>) -> Result<Args, Diag> {
    match private_args(toks) {
        Some((c, inner)) => match parse_args_spec(inner, Dialect::Derive) {
            Err(d) => Err(d),
            Ok(a) => if c.len() > 2 {
                Err(Diag { loc: tree_loc(c[2]), msg: "unexpected token"@ })
            } else if toks.len() > 1 {
                Err(Diag { loc: tree_loc(toks[1]), msg: "unexpected token"@ })
            } else {
                Ok(a)
            },
        },
        None => Err(Diag { loc: CALL_SITE, msg: duplicate_pin_msg() }),
    }
}

/// Parses the tokens of `#[pin(__private(args))]`, the attribute by which
/// `#[pin_project]` hands its arguments on to the derive.
pub fn parse_pin_args(toks: &Vec<TokenTree>) -> (r: Result<Args, Error>)
    ensures
        args_view(r) == parse_pin_args_spec(toks@),
{
    if toks.len() >= 1 {
        match &toks[0] {
            TokenTree::Group { delim: Delimiter::Parenthesis, stream: c, .. } => {
                if c.len() >= 2 {
                    match &c[0] {
                        TokenTree::Ident { name: private, .. } => {
                            if text_is(private, "__private") {
                                match &c[1] {
                                    TokenTree::Group { delim: Delimiter::Parenthesis, stream: inner, .. } => {
                                        let a = parse_args(inner, Dialect::Derive);
                                        match a {
                                            Err(e) => return Err(e),
                                            Ok(a) => {
                                                if c.len() > 2 {
                                                    return Err(diag(token_loc(&c[2]), "unexpected token"));
                                                } else if toks.len() > 1 {
                                                    return Err(diag(token_loc(&toks[1]), "unexpected token"));
                                                } else {
                                                    return Ok(a);
                                                }
                                            },
                                        }
                                    },
                                    _ => {},
                                }
                            }
                        },
                        _ => {},
                    }
                }
            },
            _ => {},
        }
    }
    Err(diag(CALL_SITE, "duplicate #[pin] attribute"))
}

/// Positions of the `#[pin]` attributes.
pub open spec fn pin_positions(attrs: Seq<Attr>) -> Seq<int>
    decreases attrs.len(),
{
    if attrs.len() == 0 {
        Seq::empty()
    } else {
        let rest = pin_positions(attrs.drop_last());
        if is_ident(attrs.last(), "pin"@) {
            rest.push(attrs.len() - 1)
        } else {
            rest
        }
    }
}

/// `Args::get` is defined on `attrs`: there is a `#[pin]` attribute, and
/// the first two do not both parse.
pub open spec fn get_args_defined(attrs: Seq<Attr>) -> bool {
    let ps = pin_positions(attrs);
    &&& ps.len() >= 1
    &&& ps.len() >= 2 ==> !(parse_pin_args_spec(attrs[ps[0]].tokens@) is Ok
        && parse_pin_args_spec(attrs[ps[1]].tokens@) is Ok)
}

/// The arguments handed on by the only `#[pin(...)]` attribute of the item;
/// a second one is an error, reported at the one more likely to be foreign.
pub open spec fn get_args_spec(attrs: Seq<Attr>) -> Result<Args, Diag> {
    let ps = pin_positions(attrs);
    let first = parse_pin_args_spec(attrs[ps[0]].tokens@);
    if ps.len() >= 2 {
        let second = parse_pin_args_spec(attrs[ps[1]].tokens@);
        let at = match (first, second) {
            (_, Ok(_)) => attrs[ps[0]].loc,
            (Ok(_), _) => attrs[ps[1]].loc,
            (Err(d), _) => if d.msg == duplicate_pin_msg() { attrs[ps[1]].loc } else { attrs[ps[0]].loc },
        };
        Err(Diag { loc: at, msg: duplicate_pin_msg() })
    } else {
        first
    }
}

proof fn lemma_pin_positions_bounds(attrs: Seq<Attr>)
    ensures
        forall|k: int| 0 <= k < pin_positions(attrs).len() ==> 0 <= #[trigger] pin_positions(attrs)[k] < attrs.len()
            && is_ident(attrs[pin_positions(attrs)[k]], "pin"@),
        forall|k: int, l: int| 0 <= k < l < pin_positions(attrs).len() ==> #[trigger] pin_positions(attrs)[k] < #[trigger] pin_positions(attrs)[l],
    decreases attrs.len(),
{
    if attrs.len() > 0 {
        let rest = attrs.drop_last();
        lemma_pin_positions_bounds(rest);
        let pr = pin_positions(rest);
        let pa = pin_positions(attrs);
        assert forall|k: int| 0 <= k < pr.len() implies pr[k] < rest.len() && attrs[pr[k]] == rest[pr[k]] by {}
        if is_ident(attrs.last(), "pin"@) {
            assert(pa == pr.push(attrs.len() - 1));
        } else {
            assert(pa == pr);
        }
    }
}

/// Reads the arguments from the `#[pin(...)]` attribute of the item.
pub fn get_args(attrs: &Vec<Attr>) -> (r: Result<Args, Error>)
    requires
        get_args_defined(attrs@),
    ensures
        args_view(r) == get_args_spec(attrs@),
{
    let mut prev: Option<(usize, Result<Args, Error>)> = None;
    let mut i: usize = 0;
    proof { lemma_pin_positions_bounds(attrs@); }
    while i < attrs.len()
        invariant
            i <= attrs@.len(),
            get_args_defined(attrs@),
            match prev {
                None => pin_positions(attrs@.subrange(0, i as int)).len() == 0,
                Some((p, r)) => pin_positions(attrs@.subrange(0, i as int)) == seq![p as int] && p < i
                    && args_view(r) == parse_pin_args_spec(attrs@[p as int].tokens@),
            },
            forall|k: int| 0 <= k < pin_positions(attrs@).len() ==> 0 <= #[trigger] pin_positions(attrs@)[k] < attrs@.len()
                && is_ident(attrs@[pin_positions(attrs@)[k]], "pin"@),
        decreases attrs@.len() - i,
    {
        assert(attrs@.subrange(0, i + 1).drop_last() =~= attrs@.subrange(0, i as int));
        if crate::attrs::attr_is(&attrs[i], "pin") {
            match prev {
                Some((p, prev_res)) => {
                    proof {
                        lemma_pin_positions_prefix(attrs@, i as int + 1);
                        let pp = pin_positions(attrs@.subrange(0, i + 1));
                        assert(pp == seq![p as int].push(i as int));
                        assert(pp[0] == p && pp[1] == i);
                        assert(pin_positions(attrs@)[0] == p);
                        assert(pin_positions(attrs@)[1] == i);
                    }
                    let res = parse_pin_args(&attrs[i].tokens);
                    let at = match (&prev_res, &res) {
                        (_, Ok(_)) => attrs[p].loc,
                        (Ok(_), _) => attrs[i].loc,
                        (Err(pe), Err(_)) => {
                            if text_is(&pe.msg, "duplicate #[pin] attribute") {
                                attrs[i].loc
                            } else {
                                attrs[p].loc
                            }
                        },
                    };
                    return Err(diag(at, "duplicate #[pin] attribute"));
                },
                None => {
                    let res = parse_pin_args(&attrs[i].tokens);
                    prev = Some((i, res));
                },
            }
        }
        i = i + 1;
    }
    assert(attrs@.subrange(0, i as int) =~= attrs@);
    match prev {
        Some((_, r)) => r,
        None => {
            proof { assert(false); }
            Err(diag(CALL_SITE, "duplicate #[pin] attribute"))
        },
    }
}

proof fn lemma_pin_positions_prefix(attrs: Seq<Attr>, k: int)
    requires
        0 <= k <= attrs.len(),
    ensures
        pin_positions(attrs.subrange(0, k)).len() <= pin_positions(attrs).len(),
        forall|j: int| 0 <= j < pin_positions(attrs.subrange(0, k)).len()
            ==> pin_positions(attrs)[j] == #[trigger] pin_positions(attrs.subrange(0, k))[j],
    decreases attrs.len(),
{
    if k == attrs.len() {
        assert(attrs.subrange(0, k) =~= attrs);
    } else {
        assert(attrs.drop_last().subrange(0, k) =~= attrs.subrange(0, k));
        lemma_pin_positions_prefix(attrs.drop_last(), k);
    }
}

} // verus!
