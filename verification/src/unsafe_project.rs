//! The attributes `#[unsafe_project]`, `#[unsafe_fields]` and
//! `#[unsafe_variants]`, which make the `Unpin` impl
//! only when asked to with the argument `Unpin`.
use vstd::prelude::*;

use crate::args::CALL_SITE;
use crate::derive::text_view;
use crate::error::{Diag, Error};
use crate::model::{Attr, Field, Fields, Generics, Item, ItemEnum, ItemStruct, Variant};
use crate::pin_projectable::{
    bare_position, enum_decl, enum_project, first_discriminant, impl_generics, pinned, pinned_tys, struct_decl,
    struct_fields, struct_project, ty_generics, unpin_text, variants_pinned_tys,
};
use crate::text::{concat, decimal, join_with, views};
use crate::tokens::{tree_loc, TokenTree};

verus! {

/// The argument of the attribute: `Unpin` asks for the `Unpin` impl.
/// Whether it is asked for, or the error.
pub open spec fn unpin_wanted(args: Seq<TokenTree>) -> Result<bool, Diag> {
    if args.len() == 0 {
        Ok(false)
    } else if args.len() == 1 && (args[0] matches TokenTree::Ident { name, .. } && name@ == "Unpin"@) {
        Ok(true)
    } else {
        Err(Diag { loc: tree_loc(args[0]), msg: "an invalid argument was passed"@ })
    }
}

/// Reads the argument of the attribute.
pub fn parse_unpin_wanted(args: &Vec<TokenTree>) -> (r: Result<bool, Error>)
    ensures
        match unpin_wanted(args@) {
            Ok(b) => r == Ok::<bool, Error>(b),
            Err(d) => r matches Err(e) && e@ == d,
        },
{
    if args.len() == 0 {
        return Ok(false);
    }
    if args.len() == 1 {
        match &args[0] {
            TokenTree::Ident { name, .. } => {
                if crate::text::text_is(name, "Unpin") {
                    return Ok(true);
                }
            },
            _ => {},
        }
    }
    Err(crate::error::error_at(crate::args::token_loc(&args[0]), "an invalid argument was passed"))
}

/// The message of an attribute refused on an item of this shape.
pub open spec fn refused(attr: Seq<char>, what: Seq<char>) -> Diag {
    Diag { loc: CALL_SITE, msg: "`"@ + attr + "` cannot be implemented for "@ + what }
}

fn refused_error(attr: &str, what: &str) -> (e: Error)
    ensures
        e@ == refused(attr@, what@),
{
    let mut msg = String::from_str("`");
    msg.append(attr);
    msg.append("` cannot be implemented for ");
    msg.append(what);
    Error { loc: CALL_SITE, msg }
}

/// The `Unpin` impl when it is asked for, nothing otherwise.
pub open spec fn optional_unpin(ident: Seq<char>, g: Generics, wanted: bool, tys: Seq<Seq<char>>) -> Seq<char> {
    if wanted {
        unpin_text(ident, g, true, tys)
    } else {
        Seq::empty()
    }
}

/// What `#[unsafe_project]` writes after a struct.
pub open spec fn project_struct_spec(args: Seq<TokenTree>, s: ItemStruct) -> Result<Seq<char>, Diag> {
    match unpin_wanted(args) {
        Err(d) => Err(d),
        Ok(wanted) => match s.fields {
            Fields::Unit => Err(refused("unsafe_project"@, "structs with units"@)),
            _ => {
                let (fs, named) = struct_fields(s.fields);
                if fs.len() == 0 {
                    Err(refused("unsafe_project"@, "structs with zero fields"@))
                } else {
                    Ok(struct_decl(s.ident@, s.generics, fs, named) + " "@ + optional_unpin(s.ident@, s.generics, wanted, pinned_tys(fs))
                        + " "@ + struct_project(s.ident@, s.generics, fs, named))
                }
            },
        },
    }
}

/// What `#[unsafe_project]` writes after an enum.
pub open spec fn project_enum_spec(args: Seq<TokenTree>, e: ItemEnum) -> Result<Seq<char>, Diag> {
    if e.variants@.len() == 0 {
        Err(refused("unsafe_project"@, "enums without variants"@))
    } else if first_discriminant(e.variants@) is Some {
        Err(refused("unsafe_project"@, "enums with discriminants"@))
    } else {
        match unpin_wanted(args) {
            Err(d) => Err(d),
            Ok(wanted) => Ok(enum_decl(e) + " "@ + enum_project(e) + " "@
                + optional_unpin(e.ident@, e.generics, wanted, variants_pinned_tys(e.variants@))),
        }
    }
}

/// What `#[unsafe_project]` makes of an item.
pub open spec fn unsafe_project_spec(args: Seq<TokenTree>, item: Item) -> Result<Seq<char>, Diag> {
    match item {
        Item::Struct(s) => project_struct_spec(args, s),
        Item::Enum(e) => project_enum_spec(args, e),
        Item::Other { loc } => Err(Diag { loc, msg: "may only be used on structs or enums"@ }),
    }
}

fn optional_unpin_text(ident: &String, g: &Generics, wanted: bool, tys: &Vec<String>) -> (r: String)
    ensures
        r@ == optional_unpin(ident@, *g, wanted, views(tys@)),
{
    if wanted {
        crate::pin_projectable::unpin_impl(ident, g, true, tys)
    } else {
        String::new()
    }
}

/// `#[unsafe_project]` on a struct or an enum: the text that goes after
/// the item (from whose fields the `#[pin]` attributes are removed, see
/// `pin_position`), or the error.
pub fn unsafe_project(args: &Vec<TokenTree>, item: &Item) -> (r: Result<String, Error>)
    ensures
        text_view(r) == unsafe_project_spec(args@, *item),
{
    match item {
        Item::Struct(s) => {
            let wanted = match parse_unpin_wanted(args) {
                Err(e) => return Err(e),
                Ok(w) => w,
            };
            let (fs, named) = match &s.fields {
                Fields::Named(f) => (f, true),
                Fields::Unnamed(f) => (f, false),
                Fields::Unit => return Err(refused_error("unsafe_project", "structs with units")),
            };
            if fs.len() == 0 {
                return Err(refused_error("unsafe_project", "structs with zero fields"));
            }
            let mut pinned_v: Vec<String> = Vec::new();
            crate::pin_projectable::push_pinned_tys(fs, &mut pinned_v);
            assert(views(pinned_v@) =~= pinned_tys(fs@));
            let mut r = crate::pin_projectable::struct_decl_text(&s.ident, &s.generics, fs, named);
            r.append(" ");
            r.append(optional_unpin_text(&s.ident, &s.generics, wanted, &pinned_v).as_str());
            r.append(" ");
            r.append(crate::pin_projectable::struct_project_text(&s.ident, &s.generics, fs, named).as_str());
            Ok(r)
        },
        Item::Enum(e) => {
            if e.variants.len() == 0 {
                return Err(refused_error("unsafe_project", "enums without variants"));
            }
            if crate::pin_projectable::find_discriminant(&e.variants).is_some() {
                return Err(refused_error("unsafe_project", "enums with discriminants"));
            }
            let wanted = match parse_unpin_wanted(args) {
                Err(err) => return Err(err),
                Ok(w) => w,
            };
            let mut pinned_v: Vec<String> = Vec::new();
            crate::pin_projectable::push_variants_pinned_tys(&e.variants, &mut pinned_v);
            assert(views(pinned_v@) =~= variants_pinned_tys(e.variants@));
            let mut r = crate::pin_projectable::enum_decl_text(e);
            r.append(" ");
            r.append(crate::pin_projectable::enum_project_text(e).as_str());
            r.append(" ");
            r.append(optional_unpin_text(&e.ident, &e.generics, wanted, &pinned_v).as_str());
            Ok(r)
        },
        Item::Other { loc } => Err(crate::error::error_at(*loc, "may only be used on structs or enums")),
    }
}

} // verus!

verus! {

/// The field or variant is marked `#[skip]`.
pub open spec fn skipped(attrs: Seq<Attr>) -> bool {
    bare_position(attrs, "skip"@) is Some
}

/// Finds the `#[skip]` attribute: the first one without arguments.
pub fn skip_position(attrs: &Vec<Attr>) -> (r: Option<usize>)
    ensures
        match bare_position(attrs@, "skip"@) {
            Some(i) => 0 <= i < attrs@.len() && (r matches Some(j) && j == i),
            None => r is None,
        },
        r matches Some(i) ==> i < attrs@.len(),
{
    crate::pin_projectable::bare_attr(attrs, "skip")
}

/// The projection method of a named field, unless it is skipped.
pub open spec fn field_method(f: Field) -> Seq<char> {
    let name = crate::project_fields::field_name(f);
    if skipped(f.attrs@) {
        Seq::empty()
    } else if pinned(f) {
        "fn "@ + name + "<'__a>(self: ::core::pin::Pin<&'__a mut Self>) -> ::core::pin::Pin<&'__a mut "@ + f.ty@
            + "> { unsafe { ::core::pin::Pin::map_unchecked_mut(self, |x| &mut x."@ + name + ") } } "@
    } else {
        "fn "@ + name + "<'__a>(self: ::core::pin::Pin<&'__a mut Self>) -> &'__a mut "@ + f.ty@
            + " { unsafe { &mut ::core::pin::Pin::get_unchecked_mut(self)."@ + name + " } } "@
    }
}

/// The types of the pinned fields that are not skipped, in order.
pub open spec fn kept_pinned_tys(fs: Seq<Field>) -> Seq<Seq<char>>
    decreases fs.len(),
{
    if fs.len() == 0 {
        Seq::empty()
    } else if !skipped(fs.last().attrs@) && pinned(fs.last()) {
        kept_pinned_tys(fs.drop_last()).push(fs.last().ty@)
    } else {
        kept_pinned_tys(fs.drop_last())
    }
}

/// What `#[unsafe_fields]` makes of an item.
pub open spec fn unsafe_fields_spec(args: Seq<TokenTree>, item: Item) -> Result<Seq<char>, Diag> {
    match item {
        Item::Struct(s) => match s.fields {
            Fields::Named(f) => if f@.len() == 0 {
                Err(refused("unsafe_fields"@, "structs with zero fields"@))
            } else {
                match unpin_wanted(args) {
                    Err(d) => Err(d),
                    Ok(wanted) => Ok("impl"@ + impl_generics(s.generics) + " "@ + s.ident@ + ty_generics(s.generics) + " "@
                        + crate::generics::where_clause_text(s.generics) + " { "@
                        + concat(Seq::new(f@.len(), |i: int| field_method(f@[i]))) + "}"@ + " "@
                        + optional_unpin(s.ident@, s.generics, wanted, kept_pinned_tys(f@))),
                }
            },
            Fields::Unnamed(_) => Err(refused("unsafe_fields"@, "structs with unnamed fields"@)),
            Fields::Unit => Err(refused("unsafe_fields"@, "structs with units"@)),
        },
        _ => Err(Diag { loc: CALL_SITE, msg: "`unsafe_fields` may only be used on structs"@ }),
    }
}

fn field_method_text(f: &Field) -> (r: String)
    ensures
        r@ == field_method(*f),
{
    let mut name = String::new();
    match &f.ident {
        Some(n) => name.append(n.as_str()),
        None => {},
    }
    proof { reveal_strlit(""); }
    assert(name@ =~= crate::project_fields::field_name(*f));
    if skip_position(&f.attrs).is_some() {
        return String::new();
    }
    let mut r = String::from_str("fn ");
    r.append(name.as_str());
    if crate::pin_projectable::pin_position(&f.attrs).is_some() {
        r.append("<'__a>(self: ::core::pin::Pin<&'__a mut Self>) -> ::core::pin::Pin<&'__a mut ");
        r.append(f.ty.as_str());
        r.append("> { unsafe { ::core::pin::Pin::map_unchecked_mut(self, |x| &mut x.");
        r.append(name.as_str());
        r.append(") } } ");
    } else {
        r.append("<'__a>(self: ::core::pin::Pin<&'__a mut Self>) -> &'__a mut ");
        r.append(f.ty.as_str());
        r.append(" { unsafe { &mut ::core::pin::Pin::get_unchecked_mut(self).");
        r.append(name.as_str());
        r.append(" } } ");
    }
    r
}

fn push_kept_pinned_tys(fs: &Vec<Field>, out: &mut Vec<String>)
    ensures
        views(final(out)@) == views(old(out)@) + kept_pinned_tys(fs@),
{
    let mut i: usize = 0;
    while i < fs.len()
        invariant
            i <= fs@.len(),
            views(out@) == views(old(out)@) + kept_pinned_tys(fs@.subrange(0, i as int)),
        decreases fs@.len() - i,
    {
        assert(fs@.subrange(0, i + 1).drop_last() =~= fs@.subrange(0, i as int));
        let ghost prev = out@;
        if skip_position(&fs[i].attrs).is_none() && crate::pin_projectable::pin_position(&fs[i].attrs).is_some() {
            out.push(fs[i].ty.clone());
            assert(views(out@) =~= views(prev).push(fs@[i as int].ty@));
        }
        assert(views(out@) =~= views(old(out)@) + kept_pinned_tys(fs@.subrange(0, i + 1)));
        i = i + 1;
    }
    assert(fs@.subrange(0, i as int) =~= fs@);
}

/// `#[unsafe_fields]` on a struct with named fields: a projection method
/// for each field that is not skipped, and the `Unpin` impl when asked for.
pub fn unsafe_fields(args: &Vec<TokenTree>, item: &Item) -> (r: Result<String, Error>)
    ensures
        text_view(r) == unsafe_fields_spec(args@, *item),
{
    let s = match item {
        Item::Struct(s) => s,
        _ => return Err(crate::error::error_at(CALL_SITE, "`unsafe_fields` may only be used on structs")),
    };
    let fs = match &s.fields {
        Fields::Named(f) => f,
        Fields::Unnamed(_) => return Err(refused_error("unsafe_fields", "structs with unnamed fields")),
        Fields::Unit => return Err(refused_error("unsafe_fields", "structs with units")),
    };
    if fs.len() == 0 {
        return Err(refused_error("unsafe_fields", "structs with zero fields"));
    }
    let wanted = match parse_unpin_wanted(args) {
        Err(e) => return Err(e),
        Ok(w) => w,
    };
    let ghost f = |i: int| field_method(fs@[i]);
    let mut methods = String::new();
    let mut i: usize = 0;
    while i < fs.len()
        invariant
            i <= fs@.len(),
            f == (|i: int| field_method(fs@[i])),
            methods@ == concat(Seq::new(i as nat, f)),
        decreases fs@.len() - i,
    {
        methods.append(field_method_text(&fs[i]).as_str());
        assert(Seq::new((i + 1) as nat, f).drop_last() =~= Seq::new(i as nat, f));
        i = i + 1;
    }
    let mut tys: Vec<String> = Vec::new();
    push_kept_pinned_tys(fs, &mut tys);
    assert(views(tys@) =~= kept_pinned_tys(fs@));
    let mut r = String::from_str("impl");
    r.append(crate::generics::params_to_text(&s.generics.params, crate::generics::ParamStyle::Impl).as_str());
    r.append(" ");
    r.append(s.ident.as_str());
    r.append(crate::generics::params_to_text(&s.generics.params, crate::generics::ParamStyle::Argument).as_str());
    r.append(" ");
    r.append(crate::generics::where_clause_to_text(&s.generics).as_str());
    r.append(" { ");
    r.append(methods.as_str());
    r.append("}");
    r.append(" ");
    r.append(optional_unpin_text(&s.ident, &s.generics, wanted, &tys).as_str());
    Ok(r)
}

} // verus!

verus! {

/// The lowercase form of a name, as `str::to_lowercase` makes it.
pub uninterp spec fn lowercase(s: Seq<char>) -> Seq<char>;

/// Calls `str::to_lowercase`, which maps each character of the name to its
/// lowercase form by Unicode's rules; the contract only names the result.
#[verifier::external_body]
fn to_lowercase(s: &String) -> (r: String)
    ensures
        r@ == lowercase(s@),
{
    s.to_lowercase()
}

/// A piece of the projection of the `i`-th field of a variant.
pub open spec fn variant_piece(f: Field, i: nat, part: crate::pin_projectable::Piece) -> Seq<char> {
    crate::pin_projectable::piece(f, i, false, part)
}

/// The pieces `part` of the fields that are not skipped, in order.
pub open spec fn kept_pieces(fs: Seq<Field>, part: crate::pin_projectable::Piece) -> Seq<Seq<char>>
    decreases fs.len(),
{
    if fs.len() == 0 {
        Seq::empty()
    } else if skipped(fs.last().attrs@) {
        kept_pieces(fs.drop_last(), part)
    } else {
        kept_pieces(fs.drop_last(), part).push(variant_piece(fs.last(), (fs.len() - 1) as nat, part))
    }
}

/// The binding of each field in the pattern: `_` for a skipped one.
pub open spec fn variant_pats(fs: Seq<Field>) -> Seq<Seq<char>> {
    Seq::new(fs.len(), |i: int| if skipped(fs[i].attrs@) { "_"@ } else { "_x"@ + decimal(i as nat) })
}

/// One item alone, or the tuple of the items.
pub open spec fn one_or_tuple(items: Seq<Seq<char>>) -> Seq<char> {
    if items.len() == 1 {
        items[0]
    } else {
        "("@ + join_with(items, ", "@) + ")"@
    }
}

/// The projection method of a variant with unnamed fields, named
/// `method`: none when every field is skipped.
pub open spec fn variant_method(ident: Seq<char>, v: Variant, method: Seq<char>) -> Seq<char> {
    let fs = crate::pin_projectable::field_seq(v.fields);
    let exprs = kept_pieces(fs, crate::pin_projectable::Piece::Expr);
    let tys = kept_pieces(fs, crate::pin_projectable::Piece::Ty);
    if skipped(v.attrs@) || !(v.fields is Unnamed) || exprs.len() == 0 {
        Seq::empty()
    } else {
        "fn "@ + method + "<'__a>(self: ::core::pin::Pin<&'__a mut Self>) -> ::core::option::Option<"@ + one_or_tuple(tys)
            + "> { unsafe { match ::core::pin::Pin::get_unchecked_mut(self) { "@ + ident + "::"@ + v.ident@ + "("@
            + join_with(variant_pats(fs), ", "@) + ") => ::core::option::Option::Some("@ + one_or_tuple(exprs)
            + "), _ => ::core::option::Option::None, } } } "@
    }
}

/// The types of the pinned fields that are not skipped, of the variants
/// that are not skipped, in order.
pub open spec fn variants_kept_tys(vs: Seq<Variant>) -> Seq<Seq<char>>
    decreases vs.len(),
{
    if vs.len() == 0 {
        Seq::empty()
    } else {
        let v = vs.last();
        let here = if skipped(v.attrs@) || !(v.fields is Unnamed) {
            Seq::empty()
        } else {
            kept_pinned_tys(crate::pin_projectable::field_seq(v.fields))
        };
        variants_kept_tys(vs.drop_last()) + here
    }
}

/// The first problem of the variants: a discriminant, or named fields.
pub open spec fn variants_problem(vs: Seq<Variant>) -> Option<Diag>
    decreases vs.len(),
{
    if vs.len() == 0 {
        None
    } else {
        match variants_problem(vs.drop_last()) {
            Some(d) => Some(d),
            None => if vs.last().discriminant is Some {
                Some(refused("unsafe_variants"@, "enums with discriminants"@))
            } else if vs.last().fields is Named {
                Some(refused("unsafe_variants"@, "enums with named fields"@))
            } else {
                None
            },
        }
    }
}

/// What `#[unsafe_variants]` makes of an item, the method of each variant
/// named by the lowercase form of the variant's name.
pub open spec fn unsafe_variants_spec(args: Seq<TokenTree>, item: Item) -> Result<Seq<char>, Diag> {
    match item {
        Item::Enum(e) => if e.variants@.len() == 0 {
            Err(refused("unsafe_variants"@, "enums without variants"@))
        } else {
            match variants_problem(e.variants@) {
                Some(d) => Err(d),
                None => match unpin_wanted(args) {
                    Err(d) => Err(d),
                    Ok(wanted) => Ok("impl"@ + impl_generics(e.generics) + " "@ + e.ident@ + ty_generics(e.generics) + " "@
                        + crate::generics::where_clause_text(e.generics) + " { "@
                        + concat(Seq::new(e.variants@.len(), |i: int| variant_method(e.ident@, e.variants@[i], lowercase(e.variants@[i].ident@))))
                        + "}"@ + " "@ + optional_unpin(e.ident@, e.generics, wanted, variants_kept_tys(e.variants@))),
                },
            }
        },
        _ => Err(Diag { loc: CALL_SITE, msg: "`unsafe_variants` may only be used on structs"@ }),
    }
}

/// Writes the pieces `part` of the fields that are not skipped.
fn kept_pieces_text(fs: &Vec<Field>, part: crate::pin_projectable::Piece) -> (r: Vec<String>)
    ensures
        views(r@) == kept_pieces(fs@, part),
{
    let mut r: Vec<String> = Vec::new();
    let mut i: usize = 0;
    while i < fs.len()
        invariant
            i <= fs@.len(),
            views(r@) == kept_pieces(fs@.subrange(0, i as int), part),
        decreases fs@.len() - i,
    {
        assert(fs@.subrange(0, i + 1).drop_last() =~= fs@.subrange(0, i as int));
        let ghost prev = r@;
        if skip_position(&fs[i].attrs).is_none() {
            let t = crate::pin_projectable::piece_text(&fs[i], i, false, part);
            r.push(t);
            assert(views(r@) =~= views(prev).push(t@));
        }
        assert(views(r@) =~= kept_pieces(fs@.subrange(0, i + 1), part));
        i = i + 1;
    }
    assert(fs@.subrange(0, i as int) =~= fs@);
    r
}

fn variant_pats_text(fs: &Vec<Field>) -> (r: Vec<String>)
    ensures
        views(r@) == variant_pats(fs@),
{
    let ghost f = |i: int| if skipped(fs@[i].attrs@) { "_"@ } else { "_x"@ + decimal(i as nat) };
    let mut r: Vec<String> = Vec::new();
    let mut i: usize = 0;
    while i < fs.len()
        invariant
            i <= fs@.len(),
            f == (|i: int| if skipped(fs@[i].attrs@) { "_"@ } else { "_x"@ + decimal(i as nat) }),
            views(r@) == Seq::new(i as nat, f),
        decreases fs@.len() - i,
    {
        let t = if skip_position(&fs[i].attrs).is_some() {
            String::from_str("_")
        } else {
            let mut t = String::from_str("_x");
            t.append(crate::text::decimal_text(i).as_str());
            t
        };
        let ghost prev = r@;
        r.push(t);
        assert(views(r@) =~= views(prev).push(t@));
        assert(Seq::new((i + 1) as nat, f) =~= Seq::new(i as nat, f).push(f(i as int)));
        i = i + 1;
    }
    r
}

fn one_or_tuple_text(items: &Vec<String>) -> (r: String)
    ensures
        r@ == one_or_tuple(views(items@)),
{
    if items.len() == 1 {
        items[0].clone()
    } else {
        let mut r = String::from_str("(");
        r.append(crate::text::join_strings(items, ", ").as_str());
        r.append(")");
        r
    }
}

/// Writes the projection method of a variant, given the method's name.
pub fn variant_method_text(ident: &String, v: &Variant, method: &String) -> (r: String)
    ensures
        r@ == variant_method(ident@, *v, method@),
{
    if skip_position(&v.attrs).is_some() {
        return String::new();
    }
    let fs = match &v.fields {
        Fields::Unnamed(f) => f,
        _ => return String::new(),
    };
    let exprs = kept_pieces_text(fs, crate::pin_projectable::Piece::Expr);
    if exprs.len() == 0 {
        return String::new();
    }
    let tys = kept_pieces_text(fs, crate::pin_projectable::Piece::Ty);
    let mut r = String::from_str("fn ");
    r.append(method.as_str());
    r.append("<'__a>(self: ::core::pin::Pin<&'__a mut Self>) -> ::core::option::Option<");
    r.append(one_or_tuple_text(&tys).as_str());
    r.append("> { unsafe { match ::core::pin::Pin::get_unchecked_mut(self) { ");
    r.append(ident.as_str());
    r.append("::");
    r.append(v.ident.as_str());
    r.append("(");
    r.append(crate::text::join_strings(&variant_pats_text(fs), ", ").as_str());
    r.append(") => ::core::option::Option::Some(");
    r.append(one_or_tuple_text(&exprs).as_str());
    r.append("), _ => ::core::option::Option::None, } } } ");
    r
}

fn push_variants_kept_tys(vs: &Vec<Variant>, out: &mut Vec<String>)
    ensures
        views(final(out)@) == views(old(out)@) + variants_kept_tys(vs@),
{
    let mut i: usize = 0;
    while i < vs.len()
        invariant
            i <= vs@.len(),
            views(out@) == views(old(out)@) + variants_kept_tys(vs@.subrange(0, i as int)),
        decreases vs@.len() - i,
    {
        assert(vs@.subrange(0, i + 1).drop_last() =~= vs@.subrange(0, i as int));
        let ghost prev = out@;
        if skip_position(&vs[i].attrs).is_none() {
            match &vs[i].fields {
                Fields::Unnamed(f) => push_kept_pinned_tys(f, out),
                _ => {},
            }
        }
        assert(views(out@) =~= views(old(out)@) + variants_kept_tys(vs@.subrange(0, i + 1)));
        i = i + 1;
    }
    assert(vs@.subrange(0, i as int) =~= vs@);
}

proof fn lemma_variants_problem_sticks(vs: Seq<Variant>, k: int)
    requires
        0 <= k <= vs.len(),
        variants_problem(vs.subrange(0, k)) is Some,
    ensures
        variants_problem(vs) == variants_problem(vs.subrange(0, k)),
    decreases vs.len(),
{
    if k == vs.len() {
        assert(vs.subrange(0, k) =~= vs);
    } else {
        assert(vs.drop_last().subrange(0, k) =~= vs.subrange(0, k));
        lemma_variants_problem_sticks(vs.drop_last(), k);
    }
}

/// `#[unsafe_variants]` on an enum whose variants have unnamed fields or
/// none: for each variant that is not skipped and has a field that is
/// not, a method that projects it when the value is that variant.
pub fn unsafe_variants(args: &Vec<TokenTree>, item: &Item) -> (r: Result<String, Error>)
    ensures
        text_view(r) == unsafe_variants_spec(args@, *item),
{
    let e = match item {
        Item::Enum(e) => e,
        _ => return Err(crate::error::error_at(CALL_SITE, "`unsafe_variants` may only be used on structs")),
    };
    if e.variants.len() == 0 {
        return Err(refused_error("unsafe_variants", "enums without variants"));
    }
    let mut k: usize = 0;
    while k < e.variants.len()
        invariant
            k <= e.variants@.len(),
            variants_problem(e.variants@.subrange(0, k as int)) is None,
            variants_problem(e.variants@) matches Some(d) ==> unsafe_variants_spec(args@, *item) == Err::<Seq<char>, Diag>(d),
        decreases e.variants@.len() - k,
    {
        assert(e.variants@.subrange(0, k + 1).drop_last() =~= e.variants@.subrange(0, k as int));
        let problem = if e.variants[k].discriminant.is_some() {
            Some(refused_error("unsafe_variants", "enums with discriminants"))
        } else {
            match &e.variants[k].fields {
                Fields::Named(_) => Some(refused_error("unsafe_variants", "enums with named fields")),
                _ => None,
            }
        };
        match problem {
            Some(err) => {
                proof {
                    assert(e.variants@.subrange(0, k + 1).last() == e.variants@[k as int]);
                    assert(variants_problem(e.variants@.subrange(0, k + 1)) == Some(err@));
                    lemma_variants_problem_sticks(e.variants@, k + 1);
                }
                return Err(err);
            },
            None => {},
        }
        k = k + 1;
    }
    assert(e.variants@.subrange(0, k as int) =~= e.variants@);
    let wanted = match parse_unpin_wanted(args) {
        Err(err) => return Err(err),
        Ok(w) => w,
    };
    let vs = &e.variants;
    let ghost f = |i: int| variant_method(e.ident@, vs@[i], lowercase(vs@[i].ident@));
    let mut methods = String::new();
    let mut i: usize = 0;
    while i < vs.len()
        invariant
            i <= vs@.len(),
            f == (|i: int| variant_method(e.ident@, vs@[i], lowercase(vs@[i].ident@))),
            methods@ == concat(Seq::new(i as nat, f)),
        decreases vs@.len() - i,
    {
        let name = to_lowercase(&vs[i].ident);
        methods.append(variant_method_text(&e.ident, &vs[i], &name).as_str());
        assert(Seq::new((i + 1) as nat, f).drop_last() =~= Seq::new(i as nat, f));
        i = i + 1;
    }
    let mut tys: Vec<String> = Vec::new();
    push_variants_kept_tys(vs, &mut tys);
    assert(views(tys@) =~= variants_kept_tys(vs@));
    let mut r = String::from_str("impl");
    r.append(crate::generics::params_to_text(&e.generics.params, crate::generics::ParamStyle::Impl).as_str());
    r.append(" ");
    r.append(e.ident.as_str());
    r.append(crate::generics::params_to_text(&e.generics.params, crate::generics::ParamStyle::Argument).as_str());
    r.append(" ");
    r.append(crate::generics::where_clause_to_text(&e.generics).as_str());
    r.append(" { ");
    r.append(methods.as_str());
    r.append("}");
    r.append(" ");
    r.append(optional_unpin_text(&e.ident, &e.generics, wanted, &tys).as_str());
    Ok(r)
}

} // verus!
