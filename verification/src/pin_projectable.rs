//! The attribute `#[pin_projectable]` and the block `pin_project! { .. }`
//! with it: the projected type borrows the fields for the
//! lifetime `'__a`, and the `Unpin` and `Drop` impls are made along.
use vstd::prelude::*;

use crate::attrs::is_ident;
use crate::derive::proj_params_text;
use crate::error::{Diag, Error};
use crate::generics::{params_text, where_clause_text, where_text, ParamStyle};
use crate::model::{Attr, Field, Fields, Generics, Item, ItemEnum, ItemStruct, Variant};
use crate::names::{proj_ident_spec, Mutability};
use crate::text::{concat, decimal, join_with, views};
use crate::tokens::{tree_loc, TokenTree};

verus! {

/// The attribute is named `ident` and has no arguments.
pub open spec fn is_bare(attr: Attr, ident: Seq<char>) -> bool {
    is_ident(attr, ident) && attr.tokens@.len() == 0
}

/// The first attribute named `ident` without arguments.
pub open spec fn bare_position(attrs: Seq<Attr>, ident: Seq<char>) -> Option<int>
    decreases attrs.len(),
{
    if attrs.len() == 0 {
        None
    } else {
        match bare_position(attrs.drop_last(), ident) {
            Some(i) => Some(i),
            None => if is_bare(attrs.last(), ident) { Some(attrs.len() - 1) } else { None },
        }
    }
}

/// Finds the first attribute named `ident` without arguments.
pub fn bare_attr(attrs: &Vec<Attr>, ident: &str) -> (r: Option<usize>)
    ensures
        match bare_position(attrs@, ident@) {
            Some(i) => 0 <= i < attrs@.len() && (r matches Some(j) && j == i),
            None => r is None,
        },
        r matches Some(i) ==> i < attrs@.len(),
{
    let mut i: usize = 0;
    while i < attrs.len()
        invariant
            i <= attrs@.len(),
            bare_position(attrs@.subrange(0, i as int), ident@) is None,
        decreases attrs@.len() - i,
    {
        assert(attrs@.subrange(0, i + 1).drop_last() =~= attrs@.subrange(0, i as int));
        if crate::attrs::attr_is(&attrs[i], ident) && attrs[i].tokens.len() == 0 {
            proof { lemma_bare_sticks(attrs@, i + 1, ident@); }
            return Some(i);
        }
        i = i + 1;
    }
    assert(attrs@.subrange(0, i as int) =~= attrs@);
    None
}

/// Finds the `#[pin]` attribute of a field: the first one without arguments.
pub fn pin_position(attrs: &Vec<Attr>) -> (r: Option<usize>)
    ensures
        match bare_position(attrs@, "pin"@) {
            Some(i) => 0 <= i < attrs@.len() && (r matches Some(j) && j == i),
            None => r is None,
        },
        r matches Some(i) ==> i < attrs@.len(),
{
    bare_attr(attrs, "pin")
}

proof fn lemma_bare_sticks(attrs: Seq<Attr>, k: int, ident: Seq<char>)
    requires
        0 <= k <= attrs.len(),
        bare_position(attrs.subrange(0, k), ident) is Some,
    ensures
        bare_position(attrs, ident) == bare_position(attrs.subrange(0, k), ident),
    decreases attrs.len(),
{
    if k == attrs.len() {
        assert(attrs.subrange(0, k) =~= attrs);
    } else {
        assert(attrs.drop_last().subrange(0, k) =~= attrs.subrange(0, k));
        lemma_bare_sticks(attrs.drop_last(), k, ident);
    }
}

/// The field is marked `#[pin]`.
pub open spec fn pinned(f: Field) -> bool {
    bare_position(f.attrs@, "pin"@) is Some
}

/// The argument of the attribute: none makes the `Unpin` impl conditional
/// on the pinned fields, `unsafe_Unpin` makes it conditional on
/// `UnsafeUnpin`. Whether the impl is the automatic one, or the error.
pub open spec fn unpin_arg(args: Seq<TokenTree>) -> Result<bool, Diag> {
    if args.len() == 0 {
        Ok(true)
    } else if args.len() == 1 && (args[0] matches TokenTree::Ident { name, .. } && name@ == "unsafe_Unpin"@) {
        Ok(false)
    } else {
        Err(Diag { loc: tree_loc(args[0]), msg: "an invalid argument was passed"@ })
    }
}

/// Reads the argument of the attribute: whether the `Unpin` impl is the
/// automatic one.
pub fn parse_unpin_arg(args: &Vec<TokenTree>) -> (r: Result<bool, Error>)
    ensures
        match unpin_arg(args@) {
            Ok(b) => r == Ok::<bool, Error>(b),
            Err(d) => r matches Err(e) && e@ == d,
        },
{
    if args.len() == 0 {
        return Ok(true);
    }
    if args.len() == 1 {
        match &args[0] {
            TokenTree::Ident { name, .. } => {
                if crate::text::text_is(name, "unsafe_Unpin") {
                    return Ok(false);
                }
            },
            _ => {},
        }
    }
    let loc = crate::args::token_loc(&args[0]);
    Err(crate::error::error_at(loc, "an invalid argument was passed"))
}

/// The lifetime of the projected type.
pub open spec fn short_lifetime() -> Seq<char> {
    "'__a"@
}

/// The type of a projected field.
pub open spec fn borrowed_ty(f: Field) -> Seq<char> {
    if pinned(f) {
        "::core::pin::Pin<&'__a mut "@ + f.ty@ + ">"@
    } else {
        "&'__a mut "@ + f.ty@
    }
}

/// The pieces of text made from a field.
#[derive(Clone, Copy, PartialEq, Eq, Structural)]
pub enum Piece {
    /// The field of the projected type.
    Ty,
    /// The expression that makes the projected field from `this`.
    Init,
    /// The binding in a pattern of an enum's variant.
    Pat,
    /// The expression that makes the projected field from that binding.
    Expr,
}

/// The name of the `i`-th field: its own when it is named, else its index
/// (`Init`) or `_x` and its index (`Pat`, `Expr`).
pub open spec fn field_ref(f: Field, i: nat, named: bool, part: Piece) -> Seq<char> {
    if named {
        crate::project_fields::field_name(f)
    } else if part == Piece::Init {
        decimal(i)
    } else {
        "_x"@ + decimal(i)
    }
}

/// The piece `part` of the `i`-th field.
pub open spec fn piece(f: Field, i: nat, named: bool, part: Piece) -> Seq<char> {
    let name = field_ref(f, i, named, part);
    let label = if named { name + ": "@ } else { Seq::empty() };
    match part {
        Piece::Ty => label + borrowed_ty(f),
        Piece::Init => label + if pinned(f) {
            "::core::pin::Pin::new_unchecked(&mut this."@ + name + ")"@
        } else {
            "&mut this."@ + name
        },
        Piece::Pat => name,
        Piece::Expr => label + if pinned(f) { "::core::pin::Pin::new_unchecked("@ + name + ")"@ } else { name },
    }
}

/// The pieces `part` of all the fields, in order.
pub open spec fn pieces(fs: Seq<Field>, named: bool, part: Piece) -> Seq<Seq<char>> {
    Seq::new(fs.len(), |i: int| piece(fs[i], i as nat, named, part))
}

/// Writes the piece `part` of the `i`-th field.
pub fn piece_text(f: &Field, i: usize, named: bool, part: Piece) -> (r: String)
    ensures
        r@ == piece(*f, i as nat, named, part),
{
    let is_pinned = pin_position(&f.attrs).is_some();
    let mut name = String::new();
    if named {
        match &f.ident {
            Some(n) => name.append(n.as_str()),
            None => {},
        }
    } else {
        if part != Piece::Init {
            name.append("_x");
        }
        name.append(crate::text::decimal_text(i).as_str());
    }
    proof {
        reveal_strlit("");
        assert(name@ =~= field_ref(*f, i as nat, named, part));
    }
    let mut r = String::new();
    if named && part != Piece::Pat {
        r.append(name.as_str());
        r.append(": ");
    }
    match part {
        Piece::Ty => {
            if is_pinned {
                r.append("::core::pin::Pin<&'__a mut ");
                r.append(f.ty.as_str());
                r.append(">");
            } else {
                r.append("&'__a mut ");
                r.append(f.ty.as_str());
            }
        },
        Piece::Init => {
            if is_pinned {
                r.append("::core::pin::Pin::new_unchecked(&mut this.");
                r.append(name.as_str());
                r.append(")");
            } else {
                r.append("&mut this.");
                r.append(name.as_str());
            }
        },
        Piece::Pat => {
            r.append(name.as_str());
        },
        Piece::Expr => {
            if is_pinned {
                r.append("::core::pin::Pin::new_unchecked(");
                r.append(name.as_str());
                r.append(")");
            } else {
                r.append(name.as_str());
            }
        },
    }
    proof {
        reveal_strlit("");
        assert(r@ =~= piece(*f, i as nat, named, part));
    }
    r
}

/// Writes the pieces `part` of all the fields.
fn pieces_text(fs: &Vec<Field>, named: bool, part: Piece) -> (r: Vec<String>)
    ensures
        views(r@) == pieces(fs@, named, part),
{
    let mut r: Vec<String> = Vec::new();
    let mut i: usize = 0;
    while i < fs.len()
        invariant
            i <= fs@.len(),
            r@.len() == i,
            views(r@) == pieces(fs@.subrange(0, i as int), named, part),
        decreases fs@.len() - i,
    {
        let ghost prev = r@;
        r.push(piece_text(&fs[i], i, named, part));
        proof {
            let a = pieces(fs@.subrange(0, i + 1), named, part);
            let b = pieces(fs@.subrange(0, i as int), named, part);
            assert forall|k: int| 0 <= k < i implies a[k] == b[k] by {
                assert(fs@.subrange(0, i + 1)[k] == fs@.subrange(0, i as int)[k]);
            }
            assert forall|k: int| 0 <= k <= i implies views(r@)[k] == a[k] by {
                if k < i {
                    assert(r@[k] == prev[k]);
                    assert(views(prev)[k] == b[k]);
                }
            }
            assert(views(r@) =~= a);
        }
        i = i + 1;
    }
    assert(fs@.subrange(0, i as int) =~= fs@);
    r
}

/// Each item followed by `", "`.
pub open spec fn listed(items: Seq<Seq<char>>) -> Seq<char> {
    concat(Seq::new(items.len(), |i: int| items[i] + ", "@))
}

fn listed_text(items: &Vec<String>) -> (r: String)
    ensures
        r@ == listed(views(items@)),
{
    let ghost f = |i: int| views(items@)[i] + ", "@;
    let mut r = String::new();
    let mut i: usize = 0;
    while i < items.len()
        invariant
            i <= items@.len(),
            f == (|i: int| views(items@)[i] + ", "@),
            r@ == concat(Seq::new(i as nat, f)),
        decreases items@.len() - i,
    {
        r.append(items[i].as_str());
        r.append(", ");
        assert(Seq::new((i + 1) as nat, f).drop_last() =~= Seq::new(i as nat, f));
        i = i + 1;
    }
    assert(Seq::new(i as nat, f) =~= Seq::new(views(items@).len(), |i: int| views(items@)[i] + ", "@));
    r
}

} // verus!

verus! {

/// The parameters and where clause of the original type, as the impls
/// write them.
pub open spec fn impl_generics(g: Generics) -> Seq<char> {
    params_text(g.params@, ParamStyle::Impl)
}

pub open spec fn ty_generics(g: Generics) -> Seq<char> {
    params_text(g.params@, ParamStyle::Argument)
}

/// The types of the pinned fields, in order.
pub open spec fn pinned_tys(fs: Seq<Field>) -> Seq<Seq<char>>
    decreases fs.len(),
{
    if fs.len() == 0 {
        Seq::empty()
    } else if pinned(fs.last()) {
        pinned_tys(fs.drop_last()).push(fs.last().ty@)
    } else {
        pinned_tys(fs.drop_last())
    }
}

/// The predicates of the `Unpin` impl: those of the original type, then,
/// for the automatic impl, `Unpin` for each pinned type, or else
/// `UnsafeUnpin` for the wrapped type.
pub open spec fn unpin_preds(ident: Seq<char>, g: Generics, auto: bool, tys: Seq<Seq<char>>) -> Seq<Seq<char>> {
    let base = match g.where_clause {
        Some(p) => views(p@),
        None => Seq::empty(),
    };
    if auto {
        base + Seq::new(tys.len(), |i: int| tys[i] + ": ::core::marker::Unpin"@)
    } else {
        base.push("::pin_project::Wrapper<"@ + ident + ty_generics(g) + ">: ::pin_project::UnsafeUnpin"@)
    }
}

/// The `Unpin` impl of the original type.
pub open spec fn unpin_text(ident: Seq<char>, g: Generics, auto: bool, tys: Seq<Seq<char>>) -> Seq<char> {
    "impl"@ + impl_generics(g) + " ::core::marker::Unpin for "@ + ident + ty_generics(g) + " "@
        + where_text(unpin_preds(ident, g, auto, tys)) + " {}"@
}

/// The `Drop` impl of the original type: it calls the `#[pinned_drop]`
/// function (given by its text and its name) on the pinned value, or does
/// nothing.
pub open spec fn drop_text(ident: Seq<char>, g: Generics, drop_fn: Option<(Seq<char>, Seq<char>)>) -> Seq<char> {
    let body = match drop_fn {
        Some((text, name)) => text + " let pinned_self = unsafe { ::core::pin::Pin::new_unchecked(self) }; "@ + name
            + "(pinned_self); "@,
        None => Seq::empty(),
    };
    "impl"@ + impl_generics(g) + " ::core::ops::Drop for "@ + ident + ty_generics(g) + " "@ + where_clause_text(g)
        + " { fn drop(&mut self) { "@ + body + "} }"@
}

/// The head of the projection method, up to its body.
pub open spec fn project_head(ident: Seq<char>, g: Generics) -> Seq<char> {
    "impl"@ + impl_generics(g) + " "@ + ident + ty_generics(g) + " "@ + where_clause_text(g)
        + " { fn project<'__a>(self: ::core::pin::Pin<&'__a mut Self>) -> "@ + proj_ident_spec(ident, Mutability::Mutable)
        + proj_params_text(short_lifetime(), g.params@, ParamStyle::Argument) + " { unsafe { "@
}

/// The head of the declaration of the projected type.
pub open spec fn decl_head(keyword: Seq<char>, ident: Seq<char>, g: Generics) -> Seq<char> {
    keyword + proj_ident_spec(ident, Mutability::Mutable) + proj_params_text(short_lifetime(), g.params@, ParamStyle::Declaration)
        + " "@ + where_clause_text(g) + " "@
}

/// A function that takes a reference to every field, which does not
/// compile if the struct is `#[repr(packed)]` after all.
pub open spec fn packed_check_text(ident: Seq<char>, g: Generics, fs: Seq<Field>, named: bool) -> Seq<char> {
    let refs = Seq::new(fs.len(), |i: int| "&val."@ + (if named { crate::project_fields::field_name(fs[i]) } else { decimal(i as nat) }) + "; "@);
    "#[deny(safe_packed_borrows)] fn __pin_project_assert_not_repr_packed_"@ + ident + impl_generics(g) + "(val: "@ + ident
        + ty_generics(g) + ") "@ + where_clause_text(g) + " { "@ + concat(refs) + "}"@
}

/// The token at `j` is the element `packed` of a `repr(...)` list.
pub open spec fn is_packed_word_at(toks: Seq<TokenTree>, j: int) -> bool {
    &&& 0 <= j < toks.len()
    &&& toks[j] matches TokenTree::Ident { name, .. } && name@ == "packed"@
    &&& j == 0 || crate::args::is_comma(toks[j - 1])
    &&& j + 1 == toks.len() || crate::args::is_comma(toks[j + 1])
}

/// The first element `packed` of a `repr(...)` list from position `j` on.
pub open spec fn first_packed_word_from(toks: Seq<TokenTree>, j: int) -> Option<int>
    decreases toks.len() - j,
{
    if j < 0 || j >= toks.len() {
        None
    } else if is_packed_word_at(toks, j) {
        Some(j)
    } else {
        first_packed_word_from(toks, j + 1)
    }
}

/// The error for the first `#[repr(packed)]` among the attributes.
pub open spec fn packed_problem(attrs: Seq<Attr>) -> Option<Diag>
    decreases attrs.len(),
{
    if attrs.len() == 0 {
        None
    } else {
        match packed_problem(attrs.drop_last()) {
            Some(d) => Some(d),
            None => match crate::derive::repr_list(attrs.last()) {
                Some(l) => match first_packed_word_from(l, 0) {
                    Some(j) => Some(Diag { loc: tree_loc(l[j]), msg: "pin_projectable may not be used on #[repr(packed)] types"@ }),
                    None => None,
                },
                None => None,
            },
        }
    }
}

} // verus!

verus! {

/// Collects the types of the pinned fields.
pub fn push_pinned_tys(fs: &Vec<Field>, out: &mut Vec<String>)
    ensures
        views(final(out)@) == views(old(out)@) + pinned_tys(fs@),
{
    let mut i: usize = 0;
    while i < fs.len()
        invariant
            i <= fs@.len(),
            views(out@) == views(old(out)@) + pinned_tys(fs@.subrange(0, i as int)),
        decreases fs@.len() - i,
    {
        assert(fs@.subrange(0, i + 1).drop_last() =~= fs@.subrange(0, i as int));
        let ghost prev = out@;
        if pin_position(&fs[i].attrs).is_some() {
            out.push(fs[i].ty.clone());
            assert(views(out@) =~= views(prev).push(fs@[i as int].ty@));
        }
        assert(views(out@) =~= views(old(out)@) + pinned_tys(fs@.subrange(0, i + 1)));
        i = i + 1;
    }
    assert(fs@.subrange(0, i as int) =~= fs@);
}

/// Writes the `Unpin` impl.
pub fn unpin_impl(ident: &String, g: &Generics, auto: bool, tys: &Vec<String>) -> (r: String)
    ensures
        r@ == unpin_text(ident@, *g, auto, views(tys@)),
{
    let mut preds: Vec<String> = Vec::new();
    match &g.where_clause {
        Some(p) => {
            let mut i: usize = 0;
            while i < p.len()
                invariant
                    i <= p@.len(),
                    views(preds@) == views(p@.subrange(0, i as int)),
                decreases p@.len() - i,
            {
                let ghost prev = preds@;
                preds.push(p[i].clone());
                assert(views(preds@) =~= views(prev).push(p@[i as int]@));
                assert(views(p@.subrange(0, i + 1)) =~= views(p@.subrange(0, i as int)).push(p@[i as int]@));
                i = i + 1;
            }
            assert(p@.subrange(0, i as int) =~= p@);
        },
        None => {
            assert(views(preds@) =~= Seq::<Seq<char>>::empty());
        },
    }
    let ghost base = views(preds@);
    let ty_g = crate::generics::params_to_text(&g.params, ParamStyle::Argument);
    if auto {
        let ghost f = |i: int| views(tys@)[i] + ": ::core::marker::Unpin"@;
        let mut i: usize = 0;
        while i < tys.len()
            invariant
                i <= tys@.len(),
                f == (|i: int| views(tys@)[i] + ": ::core::marker::Unpin"@),
                views(preds@) == base + Seq::new(i as nat, f),
            decreases tys@.len() - i,
        {
            let mut t = tys[i].clone();
            t.append(": ::core::marker::Unpin");
            let ghost prev = preds@;
            preds.push(t);
            assert(views(preds@) =~= views(prev).push(f(i as int)));
            assert(Seq::new((i + 1) as nat, f) =~= Seq::new(i as nat, f).push(f(i as int)));
            i = i + 1;
        }
        assert(Seq::new(i as nat, f) =~= Seq::new(views(tys@).len(), |i: int| views(tys@)[i] + ": ::core::marker::Unpin"@));
    } else {
        let mut t = String::from_str("::pin_project::Wrapper<");
        t.append(ident.as_str());
        t.append(ty_g.as_str());
        t.append(">: ::pin_project::UnsafeUnpin");
        let ghost prev = preds@;
        preds.push(t);
        assert(views(preds@) =~= views(prev).push(t@));
    }
    assert(views(preds@) =~= unpin_preds(ident@, *g, auto, views(tys@)));
    let mut r = String::from_str("impl");
    r.append(crate::generics::params_to_text(&g.params, ParamStyle::Impl).as_str());
    r.append(" ::core::marker::Unpin for ");
    r.append(ident.as_str());
    r.append(ty_g.as_str());
    r.append(" ");
    r.append(crate::generics::where_to_text(&preds).as_str());
    r.append(" {}");
    r
}

/// Writes the `Drop` impl.
fn drop_impl(ident: &String, g: &Generics, drop_fn: &Option<(String, String)>) -> (r: String)
    ensures
        r@ == drop_text(ident@, *g, match *drop_fn {
            Some((t, n)) => Some((t@, n@)),
            None => None,
        }),
{
    let mut r = String::from_str("impl");
    r.append(crate::generics::params_to_text(&g.params, ParamStyle::Impl).as_str());
    r.append(" ::core::ops::Drop for ");
    r.append(ident.as_str());
    r.append(crate::generics::params_to_text(&g.params, ParamStyle::Argument).as_str());
    r.append(" ");
    r.append(crate::generics::where_clause_to_text(g).as_str());
    r.append(" { fn drop(&mut self) { ");
    match drop_fn {
        Some((text, name)) => {
            r.append(text.as_str());
            r.append(" let pinned_self = unsafe { ::core::pin::Pin::new_unchecked(self) }; ");
            r.append(name.as_str());
            r.append("(pinned_self); ");
        },
        None => {
            proof { reveal_strlit(""); }
        },
    }
    r.append("} }");
    r
}

/// Writes the head of the projection method.
fn project_head_text(ident: &String, g: &Generics) -> (r: String)
    ensures
        r@ == project_head(ident@, *g),
{
    let lt = String::from_str("'__a");
    let mut r = String::from_str("impl");
    r.append(crate::generics::params_to_text(&g.params, ParamStyle::Impl).as_str());
    r.append(" ");
    r.append(ident.as_str());
    r.append(crate::generics::params_to_text(&g.params, ParamStyle::Argument).as_str());
    r.append(" ");
    r.append(crate::generics::where_clause_to_text(g).as_str());
    r.append(" { fn project<'__a>(self: ::core::pin::Pin<&'__a mut Self>) -> ");
    r.append(crate::names::proj_ident(ident, Mutability::Mutable).as_str());
    r.append(crate::derive::proj_params_to_text(&lt, &g.params, ParamStyle::Argument).as_str());
    r.append(" { unsafe { ");
    r
}

/// Writes the head of the declaration of the projected type.
fn decl_head_text(keyword: &str, ident: &String, g: &Generics) -> (r: String)
    ensures
        r@ == decl_head(keyword@, ident@, *g),
{
    let lt = String::from_str("'__a");
    let mut r = String::from_str(keyword);
    r.append(crate::names::proj_ident(ident, Mutability::Mutable).as_str());
    r.append(crate::derive::proj_params_to_text(&lt, &g.params, ParamStyle::Declaration).as_str());
    r.append(" ");
    r.append(crate::generics::where_clause_to_text(g).as_str());
    r.append(" ");
    r
}

} // verus!

verus! {

fn packed_word_at(toks: &Vec<TokenTree>, j: usize) -> (b: bool)
    requires
        j < toks@.len(),
    ensures
        b == is_packed_word_at(toks@, j as int),
{
    let n = toks.len();
    let packed = match &toks[j] {
        TokenTree::Ident { name, .. } => crate::text::text_is(name, "packed"),
        _ => false,
    };
    if !packed {
        return false;
    }
    if j > 0 && !crate::args::is_comma_token(&toks[j - 1]) {
        return false;
    }
    j + 1 == n || crate::args::is_comma_token(&toks[j + 1])
}

proof fn lemma_packed_sticks(attrs: Seq<Attr>, k: int)
    requires
        0 <= k <= attrs.len(),
        packed_problem(attrs.subrange(0, k)) is Some,
    ensures
        packed_problem(attrs) == packed_problem(attrs.subrange(0, k)),
    decreases attrs.len(),
{
    if k == attrs.len() {
        assert(attrs.subrange(0, k) =~= attrs);
    } else {
        assert(attrs.drop_last().subrange(0, k) =~= attrs.subrange(0, k));
        lemma_packed_sticks(attrs.drop_last(), k);
    }
}

/// Finds a `#[repr(packed)]` attribute.
pub fn find_packed(attrs: &Vec<Attr>) -> (r: Option<Error>)
    ensures
        match packed_problem(attrs@) {
            Some(d) => r matches Some(e) && e@ == d,
            None => r is None,
        },
{
    let mut i: usize = 0;
    while i < attrs.len()
        invariant
            i <= attrs@.len(),
            packed_problem(attrs@.subrange(0, i as int)) is None,
        decreases attrs@.len() - i,
    {
        assert(attrs@.subrange(0, i + 1).drop_last() =~= attrs@.subrange(0, i as int));
        let a = &attrs[i];
        if crate::attrs::attr_is(a, "repr") && crate::attrs::attr_meta_error(a).is_none() && a.tokens.len() == 1 {
            match &a.tokens[0] {
                TokenTree::Group { delim: crate::tokens::Delimiter::Parenthesis, stream, .. } => {
                    let mut j: usize = 0;
                    while j < stream.len()
                        invariant
                            j <= stream@.len(),
                            i < attrs@.len(),
                            packed_problem(attrs@.subrange(0, i as int)) is None,
                            attrs@.subrange(0, i + 1).drop_last() == attrs@.subrange(0, i as int),
                            crate::derive::repr_list(attrs@[i as int]) == Some(stream@),
                            first_packed_word_from(stream@, 0) == first_packed_word_from(stream@, j as int),
                        decreases stream@.len() - j,
                    {
                        if packed_word_at(stream, j) {
                            proof { lemma_packed_sticks(attrs@, i + 1); }
                            return Some(crate::error::error_at(crate::args::token_loc(&stream[j]), "pin_projectable may not be used on #[repr(packed)] types"));
                        }
                        j = j + 1;
                    }
                },
                _ => {},
            }
        }
        i = i + 1;
    }
    assert(attrs@.subrange(0, i as int) =~= attrs@);
    None
}

/// Writes the function that takes a reference to every field.
fn packed_check(ident: &String, g: &Generics, fs: &Vec<Field>, named: bool) -> (r: String)
    ensures
        r@ == packed_check_text(ident@, *g, fs@, named),
{
    let ghost f = |i: int| "&val."@ + (if named { crate::project_fields::field_name(fs@[i]) } else { decimal(i as nat) }) + "; "@;
    let mut refs = String::new();
    let mut i: usize = 0;
    while i < fs.len()
        invariant
            i <= fs@.len(),
            f == (|i: int| "&val."@ + (if named { crate::project_fields::field_name(fs@[i]) } else { decimal(i as nat) }) + "; "@),
            refs@ == concat(Seq::new(i as nat, f)),
        decreases fs@.len() - i,
    {
        let mut p = String::from_str("&val.");
        if named {
            match &fs[i].ident {
                Some(n) => p.append(n.as_str()),
                None => {},
            }
        } else {
            p.append(crate::text::decimal_text(i).as_str());
        }
        p.append("; ");
        proof { reveal_strlit(""); }
        assert(p@ =~= f(i as int));
        refs.append(p.as_str());
        assert(Seq::new((i + 1) as nat, f).drop_last() =~= Seq::new(i as nat, f));
        i = i + 1;
    }
    let mut r = String::from_str("#[deny(safe_packed_borrows)] fn __pin_project_assert_not_repr_packed_");
    r.append(ident.as_str());
    r.append(crate::generics::params_to_text(&g.params, ParamStyle::Impl).as_str());
    r.append("(val: ");
    r.append(ident.as_str());
    r.append(crate::generics::params_to_text(&g.params, ParamStyle::Argument).as_str());
    r.append(") ");
    r.append(crate::generics::where_clause_to_text(g).as_str());
    r.append(" { ");
    r.append(refs.as_str());
    r.append("}");
    r
}

/// The fields of a struct, and whether they are named.
pub open spec fn struct_fields(fields: Fields) -> (Seq<Field>, bool) {
    match fields {
        Fields::Named(f) => (f@, true),
        Fields::Unnamed(f) => (f@, false),
        Fields::Unit => (Seq::empty(), false),
    }
}

/// The body of the projected struct: its fields (`decl`) or the
/// expression that builds it.
pub open spec fn struct_body(items: Seq<Seq<char>>, named: bool, decl: bool) -> Seq<char> {
    if named {
        "{ "@ + listed(items) + "}"@
    } else if decl {
        "("@ + listed(items) + ");"@
    } else {
        "("@ + listed(items) + ")"@
    }
}

fn struct_body_text(items: &Vec<String>, named: bool, decl: bool) -> (r: String)
    ensures
        r@ == struct_body(views(items@), named, decl),
{
    let l = listed_text(items);
    let mut r = if named { String::from_str("{ ") } else { String::from_str("(") };
    r.append(l.as_str());
    if named {
        r.append("}");
    } else if decl {
        r.append(");");
    } else {
        r.append(")");
    }
    r
}

/// The declaration of the projected struct.
pub open spec fn struct_decl(ident: Seq<char>, g: Generics, fs: Seq<Field>, named: bool) -> Seq<char> {
    decl_head("struct "@, ident, g) + struct_body(pieces(fs, named, Piece::Ty), named, true)
}

/// The impl that holds the projection method of a struct.
pub open spec fn struct_project(ident: Seq<char>, g: Generics, fs: Seq<Field>, named: bool) -> Seq<char> {
    project_head(ident, g) + "let this = ::core::pin::Pin::get_unchecked_mut(self); "@
        + proj_ident_spec(ident, Mutability::Mutable) + struct_body(pieces(fs, named, Piece::Init), named, false) + " } } }"@
}

pub fn struct_decl_text(ident: &String, g: &Generics, fs: &Vec<Field>, named: bool) -> (r: String)
    ensures
        r@ == struct_decl(ident@, *g, fs@, named),
{
    let mut r = decl_head_text("struct ", ident, g);
    r.append(struct_body_text(&pieces_text(fs, named, Piece::Ty), named, true).as_str());
    r
}

pub fn struct_project_text(ident: &String, g: &Generics, fs: &Vec<Field>, named: bool) -> (r: String)
    ensures
        r@ == struct_project(ident@, *g, fs@, named),
{
    let mut r = project_head_text(ident, g);
    r.append("let this = ::core::pin::Pin::get_unchecked_mut(self); ");
    r.append(crate::names::proj_ident(ident, Mutability::Mutable).as_str());
    r.append(struct_body_text(&pieces_text(fs, named, Piece::Init), named, false).as_str());
    r.append(" } } }");
    r
}

/// What `#[pin_projectable]` writes after a struct.
pub open spec fn struct_text(s: ItemStruct, auto: bool, drop_fn: Option<(Seq<char>, Seq<char>)>) -> Seq<char> {
    let (fs, named) = struct_fields(s.fields);
    let ident = s.ident@;
    struct_decl(ident, s.generics, fs, named) + " "@ + drop_text(ident, s.generics, drop_fn) + " "@
        + unpin_text(ident, s.generics, auto, pinned_tys(fs)) + " "@ + struct_project(ident, s.generics, fs, named)
        + " "@ + packed_check_text(ident, s.generics, fs, named)
}

/// What `#[pin_projectable]` makes of a struct: the text written after it,
/// or the error.
pub open spec fn struct_spec(args: Seq<TokenTree>, s: ItemStruct, drop_fn: Option<(Seq<char>, Seq<char>)>) -> Result<Seq<char>, Diag> {
    match packed_problem(s.attrs@) {
        Some(d) => Err(d),
        None => match unpin_arg(args) {
            Err(d) => Err(d),
            Ok(auto) => match s.fields {
                Fields::Unit => Err(Diag { loc: s.ident_loc, msg: "cannot be implemented for structs with units"@ }),
                _ => if struct_fields(s.fields).0.len() == 0 {
                    Err(Diag { loc: s.fields_loc, msg: "cannot be implemented for structs with zero fields"@ })
                } else {
                    Ok(struct_text(s, auto, drop_fn))
                },
            },
        },
    }
}

/// The mathematical content of a `#[pinned_drop]` function handed over.
pub open spec fn drop_fn_view(d: Option<(String, String)>) -> Option<(Seq<char>, Seq<char>)> {
    match d {
        Some((t, n)) => Some((t@, n@)),
        None => None,
    }
}

/// Writes what goes after a struct marked `#[pin_projectable]`.
pub fn parse_struct(args: &Vec<TokenTree>, s: &ItemStruct, drop_fn: &Option<(String, String)>) -> (r: Result<String, Error>)
    ensures
        crate::derive::text_view(r) == struct_spec(args@, *s, drop_fn_view(*drop_fn)),
{
    match find_packed(&s.attrs) {
        Some(e) => return Err(e),
        None => {},
    }
    let auto = match parse_unpin_arg(args) {
        Err(e) => return Err(e),
        Ok(a) => a,
    };
    let (fs, named) = match &s.fields {
        Fields::Named(f) => (f, true),
        Fields::Unnamed(f) => (f, false),
        Fields::Unit => return Err(crate::error::error_at(s.ident_loc, "cannot be implemented for structs with units")),
    };
    if fs.len() == 0 {
        return Err(crate::error::error_at(s.fields_loc, "cannot be implemented for structs with zero fields"));
    }
    let ident = &s.ident;
    let mut pinned: Vec<String> = Vec::new();
    push_pinned_tys(fs, &mut pinned);
    assert(views(pinned@) =~= pinned_tys(fs@));
    let mut r = struct_decl_text(ident, &s.generics, fs, named);
    r.append(" ");
    r.append(drop_impl(ident, &s.generics, drop_fn).as_str());
    r.append(" ");
    r.append(unpin_impl(ident, &s.generics, auto, &pinned).as_str());
    r.append(" ");
    r.append(struct_project_text(ident, &s.generics, fs, named).as_str());
    r.append(" ");
    r.append(packed_check(ident, &s.generics, fs, named).as_str());
    assert(r@ =~= struct_text(*s, auto, drop_fn_view(*drop_fn)));
    Ok(r)
}

} // verus!

verus! {

/// The fields of a variant's (or struct's) field list.
pub open spec fn field_seq(fields: Fields) -> Seq<Field> {
    struct_fields(fields).0
}

/// A variant of the projected enum.
pub open spec fn variant_ty(v: Variant) -> Seq<char> {
    match v.fields {
        Fields::Named(f) => v.ident@ + " { "@ + join_with(pieces(f@, true, Piece::Ty), ", "@) + " }"@,
        Fields::Unnamed(f) => v.ident@ + "("@ + join_with(pieces(f@, false, Piece::Ty), ", "@) + ")"@,
        Fields::Unit => v.ident@,
    }
}

/// The arm of the projection method for a variant.
pub open spec fn variant_arm(ident: Seq<char>, v: Variant) -> Seq<char> {
    let proj = proj_ident_spec(ident, Mutability::Mutable);
    match v.fields {
        Fields::Named(f) => ident + "::"@ + v.ident@ + " { "@ + join_with(pieces(f@, true, Piece::Pat), ", "@) + " } => "@
            + proj + "::"@ + v.ident@ + " { "@ + join_with(pieces(f@, true, Piece::Expr), ", "@) + " }"@,
        Fields::Unnamed(f) => ident + "::"@ + v.ident@ + "("@ + join_with(pieces(f@, false, Piece::Pat), ", "@) + ") => "@
            + proj + "::"@ + v.ident@ + "("@ + join_with(pieces(f@, false, Piece::Expr), ", "@) + ")"@,
        Fields::Unit => ident + "::"@ + v.ident@ + " => "@ + proj + "::"@ + v.ident@,
    }
}

/// The types of the pinned fields of all the variants, in order.
pub open spec fn variants_pinned_tys(vs: Seq<Variant>) -> Seq<Seq<char>>
    decreases vs.len(),
{
    if vs.len() == 0 {
        Seq::empty()
    } else {
        variants_pinned_tys(vs.drop_last()) + pinned_tys(field_seq(vs.last().fields))
    }
}

/// The first variant with a discriminant.
pub open spec fn first_discriminant(vs: Seq<Variant>) -> Option<usize>
    decreases vs.len(),
{
    if vs.len() == 0 {
        None
    } else {
        match first_discriminant(vs.drop_last()) {
            Some(l) => Some(l),
            None => vs.last().discriminant,
        }
    }
}

/// The declaration of the projected enum.
pub open spec fn enum_decl(e: ItemEnum) -> Seq<char> {
    decl_head("enum "@, e.ident@, e.generics) + "{ "@ + listed(Seq::new(e.variants@.len(), |i: int| variant_ty(e.variants@[i]))) + "}"@
}

/// The impl that holds the projection method of an enum.
pub open spec fn enum_project(e: ItemEnum) -> Seq<char> {
    project_head(e.ident@, e.generics) + "match ::core::pin::Pin::get_unchecked_mut(self) { "@
        + listed(Seq::new(e.variants@.len(), |i: int| variant_arm(e.ident@, e.variants@[i]))) + "} } } }"@
}

/// What `#[pin_projectable]` writes after an enum.
pub open spec fn enum_text(e: ItemEnum, auto: bool, drop_fn: Option<(Seq<char>, Seq<char>)>) -> Seq<char> {
    enum_decl(e) + " "@ + drop_text(e.ident@, e.generics, drop_fn) + " "@
        + unpin_text(e.ident@, e.generics, auto, variants_pinned_tys(e.variants@)) + " "@ + enum_project(e)
}

/// What `#[pin_projectable]` makes of an enum: the text written after it,
/// or the error.
pub open spec fn enum_spec(args: Seq<TokenTree>, e: ItemEnum, drop_fn: Option<(Seq<char>, Seq<char>)>) -> Result<Seq<char>, Diag> {
    match packed_problem(e.attrs@) {
        Some(d) => Err(d),
        None => match unpin_arg(args) {
            Err(d) => Err(d),
            Ok(auto) => if e.variants@.len() == 0 {
                Err(Diag { loc: e.ident_loc, msg: "cannot be implemented for enums without variants"@ })
            } else {
                match first_discriminant(e.variants@) {
                    Some(l) => Err(Diag { loc: l, msg: "cannot be implemented for enums with discriminants"@ }),
                    None => Ok(enum_text(e, auto, drop_fn)),
                }
            },
        },
    }
}

fn variant_ty_text(v: &Variant) -> (r: String)
    ensures
        r@ == variant_ty(*v),
{
    let mut r = v.ident.clone();
    match &v.fields {
        Fields::Named(f) => {
            r.append(" { ");
            r.append(crate::text::join_strings(&pieces_text(f, true, Piece::Ty), ", ").as_str());
            r.append(" }");
        },
        Fields::Unnamed(f) => {
            r.append("(");
            r.append(crate::text::join_strings(&pieces_text(f, false, Piece::Ty), ", ").as_str());
            r.append(")");
        },
        Fields::Unit => {},
    }
    r
}

fn variant_arm_text(ident: &String, v: &Variant) -> (r: String)
    ensures
        r@ == variant_arm(ident@, *v),
{
    let proj = crate::names::proj_ident(ident, Mutability::Mutable);
    let mut r = ident.clone();
    r.append("::");
    r.append(v.ident.as_str());
    match &v.fields {
        Fields::Named(f) => {
            r.append(" { ");
            r.append(crate::text::join_strings(&pieces_text(f, true, Piece::Pat), ", ").as_str());
            r.append(" } => ");
            r.append(proj.as_str());
            r.append("::");
            r.append(v.ident.as_str());
            r.append(" { ");
            r.append(crate::text::join_strings(&pieces_text(f, true, Piece::Expr), ", ").as_str());
            r.append(" }");
        },
        Fields::Unnamed(f) => {
            r.append("(");
            r.append(crate::text::join_strings(&pieces_text(f, false, Piece::Pat), ", ").as_str());
            r.append(") => ");
            r.append(proj.as_str());
            r.append("::");
            r.append(v.ident.as_str());
            r.append("(");
            r.append(crate::text::join_strings(&pieces_text(f, false, Piece::Expr), ", ").as_str());
            r.append(")");
        },
        Fields::Unit => {
            r.append(" => ");
            r.append(proj.as_str());
            r.append("::");
            r.append(v.ident.as_str());
        },
    }
    r
}

/// Writes, for each variant, its projected variant (`arms` false) or its
/// arm of the projection method.
fn variant_texts(ident: &String, vs: &Vec<Variant>, arms: bool) -> (r: Vec<String>)
    ensures
        views(r@) == Seq::new(vs@.len(), |i: int| if arms { variant_arm(ident@, vs@[i]) } else { variant_ty(vs@[i]) }),
{
    let ghost f = |i: int| if arms { variant_arm(ident@, vs@[i]) } else { variant_ty(vs@[i]) };
    let mut r: Vec<String> = Vec::new();
    let mut i: usize = 0;
    while i < vs.len()
        invariant
            i <= vs@.len(),
            f == (|i: int| if arms { variant_arm(ident@, vs@[i]) } else { variant_ty(vs@[i]) }),
            views(r@) == Seq::new(i as nat, f),
        decreases vs@.len() - i,
    {
        let t = if arms { variant_arm_text(ident, &vs[i]) } else { variant_ty_text(&vs[i]) };
        let ghost prev = r@;
        r.push(t);
        assert(views(r@) =~= views(prev).push(t@));
        assert(Seq::new((i + 1) as nat, f) =~= Seq::new(i as nat, f).push(f(i as int)));
        i = i + 1;
    }
    r
}

pub fn push_variants_pinned_tys(vs: &Vec<Variant>, out: &mut Vec<String>)
    ensures
        views(final(out)@) == views(old(out)@) + variants_pinned_tys(vs@),
{
    let mut i: usize = 0;
    while i < vs.len()
        invariant
            i <= vs@.len(),
            views(out@) == views(old(out)@) + variants_pinned_tys(vs@.subrange(0, i as int)),
        decreases vs@.len() - i,
    {
        assert(vs@.subrange(0, i + 1).drop_last() =~= vs@.subrange(0, i as int));
        let ghost prev = out@;
        match &vs[i].fields {
            Fields::Named(f) => push_pinned_tys(f, out),
            Fields::Unnamed(f) => push_pinned_tys(f, out),
            Fields::Unit => {
                assert(pinned_tys(Seq::<Field>::empty()) =~= Seq::<Seq<char>>::empty());
            },
        }
        assert(views(out@) =~= views(old(out)@) + variants_pinned_tys(vs@.subrange(0, i + 1)));
        i = i + 1;
    }
    assert(vs@.subrange(0, i as int) =~= vs@);
}

proof fn lemma_discriminant_sticks(vs: Seq<Variant>, k: int)
    requires
        0 <= k <= vs.len(),
        first_discriminant(vs.subrange(0, k)) is Some,
    ensures
        first_discriminant(vs) == first_discriminant(vs.subrange(0, k)),
    decreases vs.len(),
{
    if k == vs.len() {
        assert(vs.subrange(0, k) =~= vs);
    } else {
        assert(vs.drop_last().subrange(0, k) =~= vs.subrange(0, k));
        lemma_discriminant_sticks(vs.drop_last(), k);
    }
}

pub fn find_discriminant(vs: &Vec<Variant>) -> (r: Option<usize>)
    ensures
        r == first_discriminant(vs@),
{
    let mut i: usize = 0;
    while i < vs.len()
        invariant
            i <= vs@.len(),
            first_discriminant(vs@.subrange(0, i as int)) is None,
        decreases vs@.len() - i,
    {
        assert(vs@.subrange(0, i + 1).drop_last() =~= vs@.subrange(0, i as int));
        match vs[i].discriminant {
            Some(l) => {
                proof { lemma_discriminant_sticks(vs@, i + 1); }
                return Some(l);
            },
            None => {},
        }
        i = i + 1;
    }
    assert(vs@.subrange(0, i as int) =~= vs@);
    None
}

/// The declaration of the projected enum.
pub fn enum_decl_text(e: &ItemEnum) -> (r: String)
    ensures
        r@ == enum_decl(*e),
{
    let mut r = decl_head_text("enum ", &e.ident, &e.generics);
    r.append("{ ");
    let v = variant_texts(&e.ident, &e.variants, false);
    assert(views(v@) =~= Seq::new(e.variants@.len(), |i: int| variant_ty(e.variants@[i])));
    r.append(listed_text(&v).as_str());
    r.append("}");
    r
}

/// The impl that holds the projection method of an enum.
pub fn enum_project_text(e: &ItemEnum) -> (r: String)
    ensures
        r@ == enum_project(*e),
{
    let mut r = project_head_text(&e.ident, &e.generics);
    r.append("match ::core::pin::Pin::get_unchecked_mut(self) { ");
    let v = variant_texts(&e.ident, &e.variants, true);
    assert(views(v@) =~= Seq::new(e.variants@.len(), |i: int| variant_arm(e.ident@, e.variants@[i])));
    r.append(listed_text(&v).as_str());
    r.append("} } } }");
    r
}

/// Writes what goes after an enum marked `#[pin_projectable]`.
pub fn parse_enum(args: &Vec<TokenTree>, e: &ItemEnum, drop_fn: &Option<(String, String)>) -> (r: Result<String, Error>)
    ensures
        crate::derive::text_view(r) == enum_spec(args@, *e, drop_fn_view(*drop_fn)),
{
    match find_packed(&e.attrs) {
        Some(err) => return Err(err),
        None => {},
    }
    let auto = match parse_unpin_arg(args) {
        Err(err) => return Err(err),
        Ok(a) => a,
    };
    if e.variants.len() == 0 {
        return Err(crate::error::error_at(e.ident_loc, "cannot be implemented for enums without variants"));
    }
    match find_discriminant(&e.variants) {
        Some(l) => return Err(crate::error::error_at(l, "cannot be implemented for enums with discriminants")),
        None => {},
    }
    let mut pinned: Vec<String> = Vec::new();
    push_variants_pinned_tys(&e.variants, &mut pinned);
    assert(views(pinned@) =~= variants_pinned_tys(e.variants@));
    let mut r = enum_decl_text(e);
    r.append(" ");
    r.append(drop_impl(&e.ident, &e.generics, drop_fn).as_str());
    r.append(" ");
    r.append(unpin_impl(&e.ident, &e.generics, auto, &pinned).as_str());
    r.append(" ");
    r.append(enum_project_text(e).as_str());
    assert(r@ =~= enum_text(*e, auto, drop_fn_view(*drop_fn)));
    Ok(r)
}

} // verus!

verus! {

/// What `#[pin_projectable]` makes of a struct or an enum.
pub open spec fn handle_type_spec(args: Seq<TokenTree>, item: Item, drop_fn: Option<(Seq<char>, Seq<char>)>) -> Result<Seq<char>, Diag> {
    match item {
        Item::Struct(s) => struct_spec(args, s, drop_fn),
        Item::Enum(e) => enum_spec(args, e, drop_fn),
        Item::Other { loc } => Err(Diag { loc, msg: "may only be used on structs or enums"@ }),
    }
}

/// Writes what goes after a struct or an enum marked `#[pin_projectable]`.
pub fn handle_type(args: &Vec<TokenTree>, item: &Item, drop_fn: &Option<(String, String)>) -> (r: Result<String, Error>)
    ensures
        crate::derive::text_view(r) == handle_type_spec(args@, *item, drop_fn_view(*drop_fn)),
{
    match item {
        Item::Struct(s) => parse_struct(args, s, drop_fn),
        Item::Enum(e) => parse_enum(args, e, drop_fn),
        Item::Other { loc } => Err(crate::error::error_at(*loc, "may only be used on structs or enums")),
    }
}

/// `#[pin_projectable]` on a struct or an enum: the text that goes after
/// the item (from whose fields the `#[pin]` attributes are removed, see
/// [`pin_position`]), or the error.
pub fn pin_projectable(args: &Vec<TokenTree>, item: &Item) -> (r: Result<String, Error>)
    ensures
        crate::derive::text_view(r) == handle_type_spec(args@, *item, None),
{
    handle_type(args, item, &None)
}

/// An item of a `pin_project! { .. }` block.
pub enum BlockItem {
    Struct(ItemStruct),
    Enum(ItemEnum),
    /// A function: its attributes, the text of each, the text of the rest
    /// of the function, its name, its return type when one is written
    /// (whether it is `()`, and where it stands), and where it stands.
    Fn {
        attrs: Vec<Attr>,
        attr_texts: Vec<String>,
        rest: String,
        name: String,
        output: Option<(bool, usize)>,
        loc: usize,
    },
    Other { loc: usize },
}

/// What the block has yielded so far: the type (its position, the position
/// of its attribute, the arguments) and the `#[pinned_drop]` function.
pub struct Found {
    pub ty: Option<(int, int, Seq<TokenTree>)>,
    pub drop_fn: Option<int>,
}

/// The arguments of a `#[pin_projectable]` attribute: none, or those
/// between its parentheses; the attribute must read as a `Meta`, and the
/// error of `syn` is reported at the attribute otherwise.
pub open spec fn attr_args(attr: Attr) -> Result<Seq<TokenTree>, Diag> {
    if crate::attrs::meta_error(crate::attrs::meta_text(attr)) is Some {
        Err(Diag { loc: attr.loc, msg: crate::attrs::meta_error(crate::attrs::meta_text(attr))->Some_0 })
    } else if attr.tokens@.len() == 0 {
        Ok(Seq::empty())
    } else if attr.tokens@.len() == 1 && (attr.tokens@[0] matches TokenTree::Group { delim: crate::tokens::Delimiter::Parenthesis, .. }) {
        match attr.tokens@[0] {
            TokenTree::Group { stream, .. } => Ok(stream@),
            _ => Ok(Seq::empty()),
        }
    } else {
        Err(Diag { loc: attr.loc, msg: "invalid arguments"@ })
    }
}

/// The state after the item at position `i` of the block.
pub open spec fn block_step(found: Found, item: BlockItem, i: int) -> Result<Found, Diag> {
    match item {
        BlockItem::Struct(s) => type_step(found, s.attrs@, s.ident_loc, i),
        BlockItem::Enum(e) => type_step(found, e.attrs@, e.ident_loc, i),
        BlockItem::Fn { attrs, output, loc, .. } => match crate::attrs::find_spec(attrs@, "pinned_drop"@) {
            None => Err(Diag { loc, msg: "only #[pinned_drop] functions can be declared within a pin_project! block"@ }),
            Some(k) => if attrs@[k].tokens@.len() > 0 {
                Err(Diag { loc: tree_loc(attrs@[k].tokens@[0]), msg: "unexpected token"@ })
            } else if found.drop_fn is Some {
                Err(Diag { loc, msg: "cannot declare multiple functions within pinned module"@ })
            } else if !crate::pinned_drop::output_is_unit(output) {
                Err(Diag { loc: crate::pinned_drop::output_loc(output), msg: "#[pinned_drop] function must return the unit type"@ })
            } else {
                Ok(Found { drop_fn: Some(i), ..found })
            },
        },
        BlockItem::Other { loc } => Err(Diag { loc, msg: "pin_project! block may only contain a struct/enum with an optional #[pinned_drop] function"@ }),
    }
}

/// The state after a struct or an enum at position `i`.
pub open spec fn type_step(found: Found, attrs: Seq<Attr>, loc: usize, i: int) -> Result<Found, Diag> {
    if found.ty is Some {
        Err(Diag { loc, msg: "cannot declare multiple types within pinned module"@ })
    } else {
        match crate::attrs::find_spec(attrs, "pin_projectable"@) {
            None => Err(Diag { loc, msg: "type declared in pin_project! must have pin_projectable attribute"@ }),
            Some(k) => match attr_args(attrs[k]) {
                Err(d) => Err(d),
                Ok(args) => Ok(Found { ty: Some((i, k, args)), ..found }),
            },
        }
    }
}

/// The state after the items of the block, in order.
pub open spec fn block_scan(items: Seq<BlockItem>) -> Result<Found, Diag>
    decreases items.len(),
{
    if items.len() == 0 {
        Ok(Found { ty: None, drop_fn: None })
    } else {
        match block_scan(items.drop_last()) {
            Err(d) => Err(d),
            Ok(found) => block_step(found, items.last(), items.len() - 1),
        }
    }
}

} // verus!

verus! {

/// The text of a function whose attribute at position `k` is removed:
/// each other attribute followed by a space, then the rest.
pub open spec fn fn_text(texts: Seq<Seq<char>>, k: int, rest: Seq<char>) -> Seq<char> {
    let t = texts.remove(k);
    concat(Seq::new(t.len(), |i: int| t[i] + " "@)) + rest
}

/// The `#[pinned_drop]` function handed to the `Drop` impl: its text
/// without that attribute, and its name.
pub open spec fn drop_fn_of(item: BlockItem) -> Option<(Seq<char>, Seq<char>)> {
    match item {
        BlockItem::Fn { attrs, attr_texts, rest, name, .. } => match crate::attrs::find_spec(attrs@, "pinned_drop"@) {
            Some(k) => Some((fn_text(views(attr_texts@), k, rest@), name@)),
            None => None,
        },
        _ => None,
    }
}

/// The functions of the block carry the text of each of their attributes.
pub open spec fn block_wf(items: Seq<BlockItem>) -> bool {
    forall|i: int| 0 <= i < items.len() ==> (#[trigger] items[i] matches BlockItem::Fn { attrs, attr_texts, .. }
        ==> attrs@.len() == attr_texts@.len())
}

/// What a `pin_project! { .. }` block makes: the position of its type, the
/// position of that type's `#[pin_projectable]` attribute, and the text
/// that goes after the type; or the error.
pub open spec fn block_spec(items: Seq<BlockItem>, loc: usize) -> Result<(int, int, Seq<char>), Diag> {
    match block_scan(items) {
        Err(d) => Err(d),
        Ok(found) => match found.ty {
            None => Err(Diag { loc, msg: "No #[pin_projectable] type found!"@ }),
            Some((i, k, args)) => {
                let drop_fn = match found.drop_fn {
                    Some(j) => drop_fn_of(items[j]),
                    None => None,
                };
                let r = match items[i] {
                    BlockItem::Struct(s) => struct_spec(args, s, drop_fn),
                    BlockItem::Enum(e) => enum_spec(args, e, drop_fn),
                    _ => Err(Diag { loc, msg: Seq::empty() }),
                };
                match r {
                    Err(d) => Err(d),
                    Ok(t) => Ok((i, k, t)),
                }
            },
        },
    }
}

/// The expansion of a `pin_project! { .. }` block: the type at position
/// `ty` is written without its attribute at position `attr` (and without
/// the `#[pin]` attributes of its fields), followed by `text`.
pub struct BlockExpansion {
    pub ty: usize,
    pub attr: usize,
    pub text: String,
}

proof fn lemma_scan_err_sticks(items: Seq<BlockItem>, k: int)
    requires
        0 <= k <= items.len(),
        block_scan(items.subrange(0, k)) is Err,
    ensures
        block_scan(items) == block_scan(items.subrange(0, k)),
    decreases items.len(),
{
    if k == items.len() {
        assert(items.subrange(0, k) =~= items);
    } else {
        assert(items.drop_last().subrange(0, k) =~= items.subrange(0, k));
        lemma_scan_err_sticks(items.drop_last(), k);
    }
}

/// Reads the arguments of a `#[pin_projectable]` attribute.
fn attr_args_of(attr: &Attr) -> (r: Result<Option<&Vec<TokenTree>>, Error>)
    ensures
        match attr_args(*attr) {
            Err(d) => r matches Err(e) && e@ == d,
            Ok(a) => r matches Ok(o) && match o {
                Some(v) => v@ == a,
                None => a.len() == 0,
            },
        },
{
    match crate::attrs::attr_meta_error(attr) {
        Some(m) => return Err(Error { loc: attr.loc, msg: m }),
        None => {},
    }
    if attr.tokens.len() == 0 {
        return Ok(None);
    }
    if attr.tokens.len() == 1 {
        match &attr.tokens[0] {
            TokenTree::Group { delim: crate::tokens::Delimiter::Parenthesis, stream, .. } => return Ok(Some(stream)),
            _ => {},
        }
    }
    Err(crate::error::error_at(attr.loc, "invalid arguments"))
}

/// Writes the `#[pinned_drop]` function without that attribute.
fn drop_fn_text(attrs: &Vec<Attr>, attr_texts: &Vec<String>, rest: &String, k: usize) -> (r: String)
    requires
        attrs@.len() == attr_texts@.len(),
        k < attrs@.len(),
    ensures
        r@ == fn_text(views(attr_texts@), k as int, rest@),
{
    let ghost t = views(attr_texts@).remove(k as int);
    let ghost f = |i: int| t[i] + " "@;
    let mut r = String::new();
    let mut i: usize = 0;
    let ghost mut n: int = 0;
    while i < attr_texts.len()
        invariant
            i <= attr_texts@.len(),
            k < attr_texts@.len(),
            t == views(attr_texts@).remove(k as int),
            f == (|i: int| t[i] + " "@),
            n == if i <= k { i as int } else { i - 1 },
            r@ == concat(Seq::new(n as nat, f)),
        decreases attr_texts@.len() - i,
    {
        if i != k {
            r.append(attr_texts[i].as_str());
            r.append(" ");
            proof {
                assert(t[n] == attr_texts@[i as int]@);
                assert(Seq::new((n + 1) as nat, f).drop_last() =~= Seq::new(n as nat, f));
                n = n + 1;
            }
        }
        i = i + 1;
    }
    assert(Seq::new(n as nat, f) =~= Seq::new(t.len(), |i: int| t[i] + " "@));
    r.append(rest.as_str());
    r
}

} // verus!

verus! {

/// The arguments of an attribute whose arguments are well formed.
fn args_or<'a>(attr: &'a Attr, empty: &'a Vec<TokenTree>) -> (r: &'a Vec<TokenTree>)
    requires
        empty@.len() == 0,
    ensures
        attr_args(*attr) matches Ok(a) ==> r@ == a,
{
    match attr_args_of(attr) {
        Ok(Some(v)) => v,
        _ => empty,
    }
}

/// Takes the struct or enum at position `i`, whose attributes are `attrs`:
/// it must be the first, and carry `#[pin_projectable]`.
fn type_item(attrs: &Vec<Attr>, loc: usize, ty: &mut Option<(usize, usize)>, i: usize) -> (r: Result<(), Error>)
    ensures
        *old(ty) is Some ==> (r matches Err(e) && e@ == Diag { loc, msg: "cannot declare multiple types within pinned module"@ }),
        *old(ty) is None ==> match crate::attrs::find_spec(attrs@, "pin_projectable"@) {
            None => r matches Err(e) && e@ == Diag { loc, msg: "type declared in pin_project! must have pin_projectable attribute"@ },
            Some(k) => match attr_args(attrs@[k]) {
                Err(d) => r matches Err(e) && e@ == d,
                Ok(_) => r is Ok && (*final(ty) matches Some((i2, k2)) && i2 == i && k2 == k) && 0 <= k < attrs@.len(),
            },
        },
        r is Err ==> *final(ty) == *old(ty),
{
    if ty.is_some() {
        return Err(crate::error::error_at(loc, "cannot declare multiple types within pinned module"));
    }
    match crate::attrs::position(attrs, "pin_projectable") {
        None => Err(crate::error::error_at(loc, "type declared in pin_project! must have pin_projectable attribute")),
        Some(k) => match attr_args_of(&attrs[k]) {
            Err(e) => Err(e),
            Ok(_) => {
                *ty = Some((i, k));
                Ok(())
            },
        },
    }
}

/// The attributes of a struct or an enum of the block.
pub open spec fn type_attrs(item: BlockItem) -> Seq<Attr> {
    match item {
        BlockItem::Struct(s) => s.attrs@,
        BlockItem::Enum(e) => e.attrs@,
        _ => Seq::empty(),
    }
}

/// The scan state `f` is the one held as positions `ty` and `drop_fn`.
pub open spec fn found_matches(f: Found, ty: Option<(usize, usize)>, drop_fn: Option<usize>, items: Seq<BlockItem>) -> bool {
    &&& f.drop_fn == match drop_fn {
        Some(j) => Some(j as int),
        None => None::<int>,
    }
    &&& match ty {
        Some((a, b)) => {
            &&& f.ty matches Some((a2, b2, args)) && a2 == a && b2 == b
                && attr_args(type_attrs(items[a as int])[b as int]) == Ok::<Seq<TokenTree>, Diag>(args)
            &&& a < items.len()
            &&& (items[a as int] is Struct || items[a as int] is Enum)
            &&& b < type_attrs(items[a as int]).len()
        },
        None => f.ty is None,
    }
    &&& match drop_fn {
        Some(j) => j < items.len() && items[j as int] is Fn && drop_fn_of(items[j as int]) is Some,
        None => true,
    }
}

/// Expands a `pin_project! { .. }` block: one struct or enum marked
/// `#[pin_projectable]`, and at most one function marked `#[pinned_drop]`,
/// which the `Drop` impl calls.
pub fn pin_project_block(items: &Vec<BlockItem>, loc: usize) -> (r: Result<BlockExpansion, Error>)
    requires
        block_wf(items@),
    ensures
        match block_spec(items@, loc) {
            Err(d) => r matches Err(e) && e@ == d,
            Ok((i, k, t)) => r matches Ok(x) && x.ty == i && x.attr == k && x.text@ == t,
        },
{
    let mut ty: Option<(usize, usize)> = None;
    let mut drop_idx: Option<usize> = None;
    let mut i: usize = 0;
    while i < items.len()
        invariant
            i <= items@.len(),
            block_wf(items@),
            block_scan(items@.subrange(0, i as int)) matches Ok(f) && found_matches(f, ty, drop_idx, items@),
        decreases items@.len() - i,
    {
        assert(items@.subrange(0, i + 1).drop_last() =~= items@.subrange(0, i as int));
        assert(items@.subrange(0, i + 1).last() == items@[i as int]);
        let step: Result<(), Error> = match &items[i] {
            BlockItem::Struct(st) => type_item(&st.attrs, st.ident_loc, &mut ty, i),
            BlockItem::Enum(en) => type_item(&en.attrs, en.ident_loc, &mut ty, i),
            BlockItem::Fn { attrs, output, loc: fn_loc, .. } => {
                match crate::attrs::position(attrs, "pinned_drop") {
                    None => Err(crate::error::error_at(*fn_loc, "only #[pinned_drop] functions can be declared within a pin_project! block")),
                    Some(k) => {
                        if attrs[k].tokens.len() > 0 {
                            Err(crate::error::error_at(crate::args::token_loc(&attrs[k].tokens[0]), "unexpected token"))
                        } else if drop_idx.is_some() {
                            Err(crate::error::error_at(*fn_loc, "cannot declare multiple functions within pinned module"))
                        } else {
                            match output {
                                Some((false, l)) => Err(crate::error::error_at(*l, "#[pinned_drop] function must return the unit type")),
                                _ => {
                                    drop_idx = Some(i);
                                    Ok(())
                                },
                            }
                        }
                    },
                }
            },
            BlockItem::Other { loc: l } => Err(crate::error::error_at(*l, "pin_project! block may only contain a struct/enum with an optional #[pinned_drop] function")),
        };
        match step {
            Err(e) => {
                proof { lemma_scan_err_sticks(items@, i + 1); }
                return Err(e);
            },
            Ok(()) => {
                proof {
                    let f0 = block_scan(items@.subrange(0, i as int))->Ok_0;
                    assert(block_scan(items@.subrange(0, i + 1)) == block_step(f0, items@[i as int], i as int));
                }
            },
        }
        i = i + 1;
    }
    assert(items@.subrange(0, i as int) =~= items@);
    let (a, b) = match ty {
        None => return Err(crate::error::error_at(loc, "No #[pin_projectable] type found!")),
        Some(p) => p,
    };
    let empty: Vec<TokenTree> = Vec::new();
    let drop_fn: Option<(String, String)> = match drop_idx {
        None => None,
        Some(j) => match &items[j] {
            BlockItem::Fn { attrs: fa, attr_texts, rest, name, .. } => match crate::attrs::position(fa, "pinned_drop") {
                Some(k) => Some((drop_fn_text(fa, attr_texts, rest, k), name.clone())),
                None => None,
            },
            _ => None,
        },
    };
    let text = match &items[a] {
        BlockItem::Struct(st) => parse_struct(args_or(&st.attrs[b], &empty), st, &drop_fn),
        BlockItem::Enum(en) => parse_enum(args_or(&en.attrs[b], &empty), en, &drop_fn),
        _ => Err(crate::error::error_at(loc, "")),
    };
    match text {
        Err(e) => Err(e),
        Ok(t) => Ok(BlockExpansion { ty: a, attr: b, text: t }),
    }
}

} // verus!
