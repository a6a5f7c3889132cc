//! Looking up attributes by name.
use vstd::prelude::*;

use crate::error::{Diag, Error};
use crate::model::Attr;
use crate::text::text_is;
use crate::tokens::{stream_text, stream_to_text, tree_loc, TokenTree};

verus! {

/// The error that `syn` gives when it reads the text `s` as a `Meta` (a
/// path followed by a parenthesised list of nested metas, by `= literal`,
/// or by nothing), or `None` when it reads the whole text so.
pub uninterp spec fn meta_error(s: Seq<char>) -> Option<Seq<char>>;

/// The text of an attribute without its `#[` and `]`, which `syn` reads as
/// a `Meta` when asked for the attribute's meaning.
pub open spec fn meta_text(attr: Attr) -> Seq<char> {
    match attr.name {
        Some(n) => n@ + " "@ + stream_text(attr.tokens@),
        None => stream_text(attr.tokens@),
    }
}

/// Calls `syn::parse_str::<syn::Meta>` and gives back the message of its
/// error, if any; the contract names that outcome, which depends on the
/// text alone.
#[verifier::external_body]
fn meta_error_of(s: &str) -> (r: Option<String>)
    ensures
        match r {
            None => meta_error(s@) is None,
            Some(m) => meta_error(s@) == Some(m@),
        },
{
    match syn::parse_str::<syn::Meta>(s) {
        Ok(_) => None,
        Err(e) => Some(e.to_string()),
    }
}

/// What `syn` says of the attribute read as a `Meta`: `None` when it reads.
pub fn attr_meta_error(attr: &Attr) -> (r: Option<String>)
    ensures
        match r {
            None => meta_error(meta_text(*attr)) is None,
            Some(m) => meta_error(meta_text(*attr)) == Some(m@),
        },
{
    let mut t = match &attr.name {
        Some(n) => {
            let mut t = n.clone();
            t.append(" ");
            t
        },
        None => String::new(),
    };
    t.append(stream_to_text(&attr.tokens).as_str());
    proof {
        reveal_strlit("");
        assert(t@ =~= meta_text(*attr));
    }
    meta_error_of(t.as_str())
}

/// The attribute's path is the single identifier `ident`.
pub open spec fn is_ident(attr: Attr, ident: Seq<char>) -> bool {
    attr.name matches Some(n) && n@ == ident
}

/// Whether the attribute's path is the single identifier `ident`.
pub fn attr_is(attr: &Attr, ident: &str) -> (b: bool)
    ensures
        b == is_ident(*attr, ident@),
{
    match &attr.name {
        Some(n) => text_is(n, ident),
        None => false,
    }
}

/// The error for tokens that should not be there.
pub open spec fn unexpected_tokens(tokens: Seq<TokenTree>) -> Diag {
    Diag { loc: tree_loc(tokens[0]), msg: "unexpected token: "@ + stream_text(tokens) }
}

/// Checks that `tokens` is empty.
pub fn parse_as_empty(tokens: &Vec<TokenTree>) -> (r: Result<(), Error>)
    ensures
        tokens@.len() == 0 <==> r is Ok,
        r matches Err(e) ==> e@ == unexpected_tokens(tokens@),
{
    if tokens.len() == 0 {
        Ok(())
    } else {
        let mut msg = String::from_str("unexpected token: ");
        let t = stream_to_text(tokens);
        msg.append(t.as_str());
        let loc = match &tokens[0] {
            TokenTree::Ident { loc, .. } => *loc,
            TokenTree::Punct { loc, .. } => *loc,
            TokenTree::Literal { loc, .. } => *loc,
            TokenTree::Group { loc, .. } => *loc,
        };
        Err(Error { loc, msg })
    }
}

/// The error for a second attribute of the same name.
pub open spec fn duplicate_attr(loc: usize, ident: Seq<char>) -> Diag {
    Diag { loc, msg: "duplicate #["@ + ident + "] attribute"@ }
}

/// Finds the only attribute named `ident`, which must have no arguments:
/// a second one or arguments are an error.
pub open spec fn position_exact_spec(attrs: Seq<Attr>, ident: Seq<char>) -> Result<Option<int>, Diag>
    decreases attrs.len(),
{
    if attrs.len() == 0 {
        Ok(None)
    } else {
        let n = attrs.len() - 1;
        match position_exact_spec(attrs.drop_last(), ident) {
            Err(e) => Err(e),
            Ok(prev) => if is_ident(attrs[n], ident) {
                if prev is Some {
                    Err(duplicate_attr(attrs[n].loc, ident))
                } else if attrs[n].tokens@.len() > 0 {
                    Err(unexpected_tokens(attrs[n].tokens@))
                } else {
                    Ok(Some(n))
                }
            } else {
                Ok(prev)
            },
        }
    }
}

proof fn lemma_position_err_sticks(attrs: Seq<Attr>, ident: Seq<char>, k: int)
    requires
        0 <= k <= attrs.len(),
        position_exact_spec(attrs.subrange(0, k), ident) is Err,
    ensures
        position_exact_spec(attrs, ident) == position_exact_spec(attrs.subrange(0, k), ident),
    decreases attrs.len(),
{
    if k == attrs.len() {
        assert(attrs.subrange(0, k) =~= attrs);
    } else {
        assert(attrs.drop_last().subrange(0, k) =~= attrs.subrange(0, k));
        lemma_position_err_sticks(attrs.drop_last(), ident, k);
    }
}

/// The mathematical content of a result of `position_exact`.
pub open spec fn position_view(r: Result<Option<usize>, Error>) -> Result<Option<int>, Diag> {
    match r {
        Ok(Some(i)) => Ok(Some(i as int)),
        Ok(None) => Ok(None),
        Err(e) => Err(e@),
    }
}

/// Finds the position of the only attribute named `ident`.
pub fn position_exact(attrs: &Vec<Attr>, ident: &str) -> (r: Result<Option<usize>, Error>)
    ensures
        position_view(r) == position_exact_spec(attrs@, ident@),
        r matches Ok(Some(i)) ==> i < attrs@.len() && is_ident(attrs@[i as int], ident@),
{
    let mut prev: Option<usize> = None;
    let mut i: usize = 0;
    while i < attrs.len()
        invariant
            i <= attrs@.len(),
            position_exact_spec(attrs@.subrange(0, i as int), ident@) == position_view(Ok(prev)),
            prev matches Some(p) ==> p < i && is_ident(attrs@[p as int], ident@),
        decreases attrs@.len() - i,
    {
        assert(attrs@.subrange(0, i + 1).drop_last() =~= attrs@.subrange(0, i as int));
        if attr_is(&attrs[i], ident) {
            if prev.is_some() {
                let mut msg = String::from_str("duplicate #[");
                msg.append(ident);
                msg.append("] attribute");
                assert(msg@ =~= duplicate_attr(attrs@[i as int].loc, ident@).msg);
                proof { lemma_position_err_sticks(attrs@, ident@, i + 1); }
                return Err(Error { loc: attrs[i].loc, msg });
            }
            match parse_as_empty(&attrs[i].tokens) {
                Err(e) => {
                    proof { lemma_position_err_sticks(attrs@, ident@, i + 1); }
                    return Err(e);
                },
                Ok(()) => {},
            }
            prev = Some(i);
        }
        i = i + 1;
    }
    assert(attrs@.subrange(0, i as int) =~= attrs@);
    Ok(prev)
}

/// Position of the first attribute named `ident`.
pub open spec fn find_spec(attrs: Seq<Attr>, ident: Seq<char>) -> Option<int>
    decreases attrs.len(),
{
    if attrs.len() == 0 {
        None
    } else {
        match find_spec(attrs.drop_last(), ident) {
            Some(i) => Some(i),
            None => if is_ident(attrs.last(), ident) { Some(attrs.len() - 1) } else { None },
        }
    }
}

proof fn lemma_find_spec(attrs: Seq<Attr>, ident: Seq<char>)
    ensures
        match find_spec(attrs, ident) {
            Some(i) => 0 <= i < attrs.len() && is_ident(attrs[i], ident)
                && forall|j: int| 0 <= j < i ==> !is_ident(#[trigger] attrs[j], ident),
            None => forall|j: int| 0 <= j < attrs.len() ==> !is_ident(#[trigger] attrs[j], ident),
        },
    decreases attrs.len(),
{
    if attrs.len() > 0 {
        let rest = attrs.drop_last();
        lemma_find_spec(rest, ident);
        assert forall|j: int| 0 <= j < attrs.len() - 1 implies attrs[j] == rest[j] by {}
        match find_spec(rest, ident) {
            Some(i) => {
                assert forall|j: int| 0 <= j < i implies !is_ident(#[trigger] attrs[j], ident) by {
                    assert(attrs[j] == rest[j]);
                }
            },
            None => {
                assert forall|j: int| 0 <= j < attrs.len() - 1 implies !is_ident(#[trigger] attrs[j], ident) by {
                    assert(attrs[j] == rest[j]);
                }
            },
        }
    }
}

/// Finds the first attribute named `ident`.
pub fn position(attrs: &Vec<Attr>, ident: &str) -> (r: Option<usize>)
    ensures
        match r {
            Some(i) => i < attrs@.len() && is_ident(attrs@[i as int], ident@)
                && forall|j: int| 0 <= j < i ==> !is_ident(#[trigger] attrs@[j], ident@),
            None => forall|j: int| 0 <= j < attrs@.len() ==> !is_ident(#[trigger] attrs@[j], ident@),
        },
        match r {
            Some(i) => find_spec(attrs@, ident@) == Some(i as int),
            None => find_spec(attrs@, ident@) is None,
        },
{
    proof { lemma_find_spec(attrs@, ident@); }
    let mut i: usize = 0;
    while i < attrs.len()
        invariant
            i <= attrs@.len(),
            forall|j: int| 0 <= j < i ==> !is_ident(#[trigger] attrs@[j], ident@),
        decreases attrs@.len() - i,
    {
        if attr_is(&attrs[i], ident) {
            proof {
                lemma_find_spec(attrs@, ident@);
                match find_spec(attrs@, ident@) {
                    Some(k) => {
                        if k < i {
                            assert(!is_ident(attrs@[k], ident@));
                        } else if k > i {
                            assert(!is_ident(attrs@[i as int], ident@));
                        }
                    },
                    None => {
                        assert(!is_ident(attrs@[i as int], ident@));
                    },
                }
            }
            return Some(i);
        }
        i = i + 1;
    }
    None
}

/// Finds the first attribute named `ident`.
pub fn find<'a>(attrs: &'a Vec<Attr>, ident: &str) -> (r: Option<&'a Attr>)
    ensures
        match r {
            Some(a) => exists|i: int| 0 <= i < attrs@.len() && *a == attrs@[i]
                && is_ident(attrs@[i], ident@)
                && forall|j: int| 0 <= j < i ==> !is_ident(#[trigger] attrs@[j], ident@),
            None => forall|j: int| 0 <= j < attrs@.len() ==> !is_ident(#[trigger] attrs@[j], ident@),
        },
{
    match position(attrs, ident) {
        Some(i) => Some(&attrs[i]),
        None => None,
    }
}

/// Finds the only attribute named `ident`, which must have no arguments.
pub fn find_exact<'a>(attrs: &'a Vec<Attr>, ident: &str) -> (r: Result<Option<&'a Attr>, Error>)
    ensures
        match position_exact_spec(attrs@, ident@) {
            Ok(Some(i)) => r matches Ok(Some(a)) && *a == attrs@[i],
            Ok(None) => r matches Ok(None),
            Err(d) => r matches Err(e) && e@ == d,
        },
{
    match position_exact(attrs, ident) {
        Ok(Some(i)) => Ok(Some(&attrs[i])),
        Ok(None) => Ok(None),
        Err(e) => Err(e),
    }
}

/// Removes the only attribute named `ident`, which must have no arguments,
/// and returns it.
pub fn find_remove(attrs: &mut Vec<Attr>, ident: &str) -> (r: Result<Option<Attr>, Error>)
    ensures
        match position_exact_spec(old(attrs)@, ident@) {
            Ok(Some(i)) => r matches Ok(Some(a)) && a == old(attrs)@[i]
                && final(attrs)@ == old(attrs)@.remove(i),
            Ok(None) => r matches Ok(None) && final(attrs)@ == old(attrs)@,
            Err(d) => r matches Err(e) && e@ == d && final(attrs)@ == old(attrs)@,
        },
{
    match position_exact(attrs, ident) {
        Ok(Some(i)) => Ok(Some(attrs.remove(i))),
        Ok(None) => Ok(None),
        Err(e) => Err(e),
    }
}

} // verus!
