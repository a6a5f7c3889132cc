//! The attribute `#[pinned_drop]`: checks that an impl block implements
//! `PinnedDrop` by a method `fn drop(self: Pin<&mut Self>)`.
use vstd::prelude::*;

use crate::attrs::{parse_as_empty, unexpected_tokens};
use crate::error::{Diag, Error};
use crate::generics::{params_text, params_to_text, where_clause_text, where_clause_to_text, ParamStyle};
use crate::model::Generics;
use crate::names::{underscore_self, prepend_underscore_to_self};
use crate::text::text_is;
use crate::tokens::TokenTree;
use crate::validate::unit_view;

verus! {

/// A generic argument of the last segment of a type path.
pub enum GenericArgShape {
    /// `&mut T` where `T` is the path `Self` exactly.
    MutRefToSelf,
    /// `&mut T` for any other `T`.
    MutRefToOther,
    /// Anything else.
    Other,
}

/// The type of a typed argument, as far as it is read.
pub struct TypeShape {
    /// When the type is a path without qualified self: the name of the last
    /// segment and, when it has angle-bracketed arguments, those.
    pub path_last: Option<(String, Option<Vec<GenericArgShape>>)>,
}

/// An argument of a method.
pub enum FnInput {
    /// `self`, `&self`, `&mut self` and the like.
    Receiver { loc: usize },
    /// `pat: ty`.
    Typed {
        /// The name bound, when the pattern is a plain identifier (no `ref`, no sub-pattern).
        pat_ident: Option<String>,
        ty: TypeShape,
        loc: usize,
    },
}

/// The signature of a method.
pub struct MethodSig {
    pub ident: String,
    pub ident_loc: usize,
    /// Where `unsafe` is written, if it is.
    pub unsafety: Option<usize>,
    /// The return type, if one is written: whether it is `()`, and where it stands.
    pub output: Option<(bool, usize)>,
    pub inputs: Vec<FnInput>,
    pub paren_loc: usize,
    pub inputs_loc: usize,
}

/// The message for a `drop` method whose argument is not `self: Pin<&mut Self>`.
pub open spec fn invalid_argument() -> Seq<char> {
    "method `drop` must take an argument `self: Pin<&mut Self>`"@
}

/// The argument is `self: Pin<&mut Self>` (the path to `Pin` may be qualified,
/// the binding may be `mut`).
pub open spec fn is_pinned_self(input: FnInput) -> bool {
    match input {
        FnInput::Typed { pat_ident: Some(name), ty, .. } => match ty.path_last {
            Some((seg, Some(args))) => name@ == "self"@ && args@.len() == 1 && seg@ == "Pin"@ && args@[0] is MutRefToSelf,
            _ => false,
        },
        _ => false,
    }
}

/// Where an argument stands.
pub open spec fn input_loc(input: FnInput) -> usize {
    match input {
        FnInput::Receiver { loc } => loc,
        FnInput::Typed { loc, .. } => loc,
    }
}

/// Whether a written return type is `()` (true when none is written).
pub open spec fn output_is_unit(output: Option<(bool, usize)>) -> bool {
    match output {
        Some((is_unit, _)) => is_unit,
        None => true,
    }
}

/// Where a written return type stands.
pub open spec fn output_loc(output: Option<(bool, usize)>) -> usize {
    match output {
        Some((_, loc)) => loc,
        None => 0,
    }
}

/// The checks of the `drop` method, in order.
pub open spec fn parse_method_spec(sig: MethodSig) -> Result<(), Diag> {
    if sig.ident@ != "drop"@ {
        Err(Diag { loc: sig.ident_loc, msg: "method `"@ + sig.ident@ + "` is not a member of trait `PinnedDrop"@ })
    } else if sig.output is Some && !output_is_unit(sig.output) {
        Err(Diag { loc: output_loc(sig.output), msg: "method `drop` must return the unit type"@ })
    } else if sig.inputs@.len() == 0 {
        Err(Diag { loc: sig.paren_loc, msg: invalid_argument() })
    } else if sig.inputs@.len() != 1 {
        Err(Diag { loc: sig.inputs_loc, msg: invalid_argument() })
    } else if is_pinned_self(sig.inputs@[0]) {
        match sig.unsafety {
            Some(l) => Err(Diag { loc: l, msg: "implementing the method `drop` is not unsafe"@ }),
            None => Ok(()),
        }
    } else {
        Err(Diag { loc: input_loc(sig.inputs@[0]), msg: invalid_argument() })
    }
}

fn pinned_self(input: &FnInput) -> (b: bool)
    ensures
        b == is_pinned_self(*input),
{
    match input {
        FnInput::Typed { pat_ident: Some(name), ty, .. } => match &ty.path_last {
            Some((seg, Some(args))) => {
                text_is(name, "self") && args.len() == 1 && text_is(seg, "Pin") && match &args[0] {
                    GenericArgShape::MutRefToSelf => true,
                    _ => false,
                }
            },
            _ => false,
        },
        _ => false,
    }
}

/// Checks the signature of the `drop` method.
pub fn parse_method(sig: &MethodSig) -> (r: Result<(), Error>)
    ensures
        unit_view(r) == parse_method_spec(*sig),
{
    if !text_is(&sig.ident, "drop") {
        let mut msg = String::from_str("method `");
        msg.append(sig.ident.as_str());
        msg.append("` is not a member of trait `PinnedDrop");
        return Err(Error { loc: sig.ident_loc, msg });
    }
    match sig.output {
        Some((is_unit, loc)) => {
            if !is_unit {
                return Err(crate::error::error_at(loc, "method `drop` must return the unit type"));
            }
        },
        None => {},
    }
    if sig.inputs.len() != 1 {
        if sig.inputs.len() == 0 {
            return Err(crate::error::error_at(sig.paren_loc, "method `drop` must take an argument `self: Pin<&mut Self>`"));
        } else {
            return Err(crate::error::error_at(sig.inputs_loc, "method `drop` must take an argument `self: Pin<&mut Self>`"));
        }
    }
    if pinned_self(&sig.inputs[0]) {
        match sig.unsafety {
            Some(l) => return Err(crate::error::error_at(l, "implementing the method `drop` is not unsafe")),
            None => return Ok(()),
        }
    }
    let loc = match &sig.inputs[0] {
        FnInput::Receiver { loc } => *loc,
        FnInput::Typed { loc, .. } => *loc,
    };
    Err(crate::error::error_at(loc, "method `drop` must take an argument `self: Pin<&mut Self>`"))
}

/// An item of the impl block.
pub enum ImplItemShape {
    Const { ident: String, loc: usize },
    Type { ident: String, loc: usize },
    Method { sig: MethodSig, loc: usize },
    /// Any other item, by its tokens.
    Other { tokens: Vec<TokenTree> },
}

/// The impl block `#[pinned_drop]` is applied to, as far as it is checked.
pub struct ImplShape {
    /// The trait, when the block implements one: its name when the path is a
    /// single identifier, and where it stands.
    pub trait_: Option<(Option<String>, usize)>,
    pub self_ty_loc: usize,
    pub unsafety: Option<usize>,
    pub items: Vec<ImplItemShape>,
    pub loc: usize,
}

/// The message for an impl of another trait.
pub open spec fn not_pinned_drop() -> Seq<char> {
    "#[pinned_drop] may only be used on implementation for the `PinnedDrop` trait"@
}

/// The problem of an item at position `i`, if it has one.
pub open spec fn item_problem(item: ImplItemShape, i: int) -> Option<Diag> {
    match item {
        ImplItemShape::Const { ident, loc } => Some(Diag { loc, msg: "const `"@ + ident@ + "` is not a member of trait `PinnedDrop`"@ }),
        ImplItemShape::Type { ident, loc } => Some(Diag { loc, msg: "type `"@ + ident@ + "` is not a member of trait `PinnedDrop`"@ }),
        ImplItemShape::Method { sig, loc } => match parse_method_spec(sig) {
            Err(d) => Some(d),
            Ok(_) => if i != 0 { Some(Diag { loc, msg: "duplicate definitions with name `drop`"@ }) } else { None },
        },
        ImplItemShape::Other { tokens } => if tokens@.len() > 0 { Some(unexpected_tokens(tokens@)) } else { None },
    }
}

/// The problem of the first item that has one.
pub open spec fn items_problem(items: Seq<ImplItemShape>) -> Option<Diag>
    decreases items.len(),
{
    if items.len() == 0 {
        None
    } else {
        match items_problem(items.drop_last()) {
            Some(d) => Some(d),
            None => item_problem(items.last(), items.len() - 1),
        }
    }
}

proof fn lemma_items_problem_sticks(items: Seq<ImplItemShape>, k: int)
    requires
        0 <= k <= items.len(),
        items_problem(items.subrange(0, k)) is Some,
    ensures
        items_problem(items) == items_problem(items.subrange(0, k)),
    decreases items.len(),
{
    if k == items.len() {
        assert(items.subrange(0, k) =~= items);
    } else {
        assert(items.drop_last().subrange(0, k) =~= items.subrange(0, k));
        lemma_items_problem_sticks(items.drop_last(), k);
    }
}

/// The checks of the impl block, in order.
pub open spec fn parse_impl_spec(item: ImplShape) -> Result<(), Diag> {
    match item.trait_ {
        None => Err(Diag { loc: item.self_ty_loc, msg: not_pinned_drop() }),
        Some((name, loc)) => if !(name matches Some(n) && n@ == "PinnedDrop"@) {
            Err(Diag { loc, msg: not_pinned_drop() })
        } else if item.unsafety is Some {
            Err(Diag { loc: item.unsafety->0, msg: "implementing the trait `PinnedDrop` is not unsafe"@ })
        } else if item.items@.len() == 0 {
            Err(Diag { loc: item.loc, msg: "not all trait items implemented, missing: `drop`"@ })
        } else {
            match items_problem(item.items@) {
                Some(d) => Err(d),
                None => Ok(()),
            }
        },
    }
}

/// Checks the impl block `#[pinned_drop]` is applied to.
pub fn parse(item: &ImplShape) -> (r: Result<(), Error>)
    ensures
        unit_view(r) == parse_impl_spec(*item),
{
    match &item.trait_ {
        None => return Err(crate::error::error_at(item.self_ty_loc, "#[pinned_drop] may only be used on implementation for the `PinnedDrop` trait")),
        Some((name, loc)) => {
            let ok = match name {
                Some(n) => text_is(n, "PinnedDrop"),
                None => false,
            };
            if !ok {
                return Err(crate::error::error_at(*loc, "#[pinned_drop] may only be used on implementation for the `PinnedDrop` trait"));
            }
        },
    }
    match item.unsafety {
        Some(l) => return Err(crate::error::error_at(l, "implementing the trait `PinnedDrop` is not unsafe")),
        None => {},
    }
    if item.items.len() == 0 {
        return Err(crate::error::error_at(item.loc, "not all trait items implemented, missing: `drop`"));
    }
    let mut i: usize = 0;
    while i < item.items.len()
        invariant
            i <= item.items@.len(),
            items_problem(item.items@.subrange(0, i as int)) is None,
            parse_impl_spec(*item) == match items_problem(item.items@) {
                Some(d) => Err(d),
                None => Ok::<(), Diag>(()),
            },
        decreases item.items@.len() - i,
    {
        assert(item.items@.subrange(0, i + 1).drop_last() =~= item.items@.subrange(0, i as int));
        let problem: Option<Error> = match &item.items[i] {
            ImplItemShape::Const { ident, loc } => {
                let mut msg = String::from_str("const `");
                msg.append(ident.as_str());
                msg.append("` is not a member of trait `PinnedDrop`");
                Some(Error { loc: *loc, msg })
            },
            ImplItemShape::Type { ident, loc } => {
                let mut msg = String::from_str("type `");
                msg.append(ident.as_str());
                msg.append("` is not a member of trait `PinnedDrop`");
                Some(Error { loc: *loc, msg })
            },
            ImplItemShape::Method { sig, loc } => match parse_method(sig) {
                Err(e) => Some(e),
                Ok(()) => if i != 0 { Some(crate::error::error_at(*loc, "duplicate definitions with name `drop`")) } else { None },
            },
            ImplItemShape::Other { tokens } => match parse_as_empty(tokens) {
                Err(e) => Some(e),
                Ok(()) => None,
            },
        };
        assert(match problem {
            Some(e) => item_problem(item.items@[i as int], i as int) == Some(e@),
            None => item_problem(item.items@[i as int], i as int) is None,
        });
        match problem {
            Some(e) => {
                proof {
                    let sub = item.items@.subrange(0, i + 1);
                    assert(sub.last() == item.items@[i as int]);
                    assert(items_problem(sub) == Some(e@));
                    lemma_items_problem_sticks(item.items@, i + 1);
                }
                return Err(e);
            },
            None => {},
        }
        i = i + 1;
    }
    assert(item.items@.subrange(0, i as int) =~= item.items@);
    Ok(())
}

/// The impl put after the error when `#[pinned_drop]` fails, so that no
/// second error says that `PinnedDrop` is not implemented.
pub open spec fn dummy_impl_text(g: Generics, self_ty: Seq<char>) -> Seq<char> {
    "impl"@ + params_text(g.params@, ParamStyle::Impl) + " ::pin_project::__private::PinnedDrop for "@ + self_ty + " "@
        + where_clause_text(g) + " { unsafe fn drop(self: ::core::pin::Pin<&mut Self>) {} }"@
}

/// Writes the impl put after the error when `#[pinned_drop]` fails.
pub fn dummy_impl(g: &Generics, self_ty: &String) -> (r: String)
    ensures
        r@ == dummy_impl_text(*g, self_ty@),
{
    let mut r = String::from_str("impl");
    r.append(params_to_text(&g.params, ParamStyle::Impl).as_str());
    r.append(" ::pin_project::__private::PinnedDrop for ");
    r.append(self_ty.as_str());
    r.append(" ");
    r.append(where_clause_to_text(g).as_str());
    r.append(" { unsafe fn drop(self: ::core::pin::Pin<&mut Self>) {} }");
    r
}

/// What `#[pinned_drop]` makes of its arguments and the impl block: either
/// the block is accepted, or the error comes with the dummy impl.
pub open spec fn attribute_spec(args: Seq<TokenTree>, item: ImplShape) -> Result<(), Diag> {
    if args.len() > 0 {
        Err(unexpected_tokens(args))
    } else {
        parse_impl_spec(item)
    }
}

/// Checks the arguments (there must be none) and the impl block; on an
/// error, returns it with the dummy impl that goes after it.
pub fn attribute(args: &Vec<TokenTree>, item: &ImplShape, g: &Generics, self_ty: &String) -> (r: Result<(), (Error, String)>)
    ensures
        match attribute_spec(args@, *item) {
            Ok(_) => r is Ok,
            Err(d) => r matches Err((e, t)) && e@ == d && t@ == dummy_impl_text(*g, self_ty@),
        },
{
    let checked = match parse_as_empty(args) {
        Err(e) => Err(e),
        Ok(()) => parse(item),
    };
    match checked {
        Ok(()) => Ok(()),
        Err(e) => Err((e, dummy_impl(g, self_ty))),
    }
}

/// The path by which the accepted impl names the trait it implements.
pub fn private_trait_path() -> (r: &'static str)
    ensures
        r@ == "::pin_project::__private::PinnedDrop"@,
{
    "::pin_project::__private::PinnedDrop"
}

/// A path, as far as the rewrite of `Self` reads it.
pub struct PathShape {
    pub leading_colon: bool,
    /// Each segment: its name, and whether it has arguments.
    pub segments: Vec<(String, bool)>,
}

/// The path is `Self`, alone.
pub open spec fn is_self_path(p: PathShape) -> bool {
    !p.leading_colon && p.segments@.len() == 1 && p.segments@[0].0@ == "Self"@ && !p.segments@[0].1
}

/// Whether the path is `Self`, alone.
pub fn self_path(p: &PathShape) -> (b: bool)
    ensures
        b == is_self_path(*p),
{
    !p.leading_colon && p.segments.len() == 1 && text_is(&p.segments[0].0, "Self") && !p.segments[0].1
}

/// `Self::Rest` becomes `<Receiver>::Rest`: the path keeps its segments after
/// the first, and the receiver's type is put in front as qualified self.
pub open spec fn self_to_qself_applies(p: PathShape) -> bool {
    !p.leading_colon && p.segments@.len() >= 2 && p.segments@[0].0@ == "Self"@ && !p.segments@[0].1
}

/// Rewrites `Self::Rest` to `::Rest`, and says whether the receiver's type
/// must be put in front as qualified self.
pub fn self_to_qself(p: &mut PathShape) -> (qself: bool)
    ensures
        qself == self_to_qself_applies(*old(p)),
        qself ==> final(p).leading_colon && final(p).segments@ == old(p).segments@.subrange(1, old(p).segments@.len() as int),
        !qself ==> final(p).leading_colon == old(p).leading_colon && final(p).segments@ == old(p).segments@,
{
    if p.leading_colon || p.segments.len() < 2 {
        return false;
    }
    if !text_is(&p.segments[0].0, "Self") || p.segments[0].1 {
        return false;
    }
    p.leading_colon = true;
    p.segments.remove(0);
    true
}

/// The rewrite of the name of the argument of `drop` in the inner function:
/// `self` becomes `__self`.
pub fn rename_receiver(ident: &mut String)
    ensures
        final(ident)@ == underscore_self(old(ident)@),
{
    prepend_underscore_to_self(ident)
}

/// The accepted `drop` method, in pieces of text. The pieces of the inner
/// function are taken after `Self` was replaced by the receiver's type and
/// `self` by `__self` in its body.
pub struct DropMethodParts {
    /// Attributes, visibility and qualifiers written before `fn`.
    pub head: String,
    /// The method's own generic parameters, as declared.
    pub generics: String,
    /// Whether the argument is written `mut self`.
    pub receiver_mut: bool,
    /// The type of the argument, as written.
    pub receiver_ty: String,
    /// The return type, with its arrow, or nothing.
    pub output: String,
    /// The method's own `where` clause, or nothing.
    pub where_clause: String,
    /// The impl's generic parameters, as declared, which the inner function takes.
    pub impl_generics: String,
    /// The impl's `where` clause, or nothing.
    pub impl_where: String,
    /// The type of the inner function's argument.
    pub inner_receiver_ty: String,
    /// The inner function's return type.
    pub inner_output: String,
    /// The body of the inner function, braces included.
    pub inner_block: String,
}

/// The inner function: the method renamed `__drop_inner`, with the impl's
/// generics and the argument `__self`.
pub open spec fn drop_inner_text(m: DropMethodParts) -> Seq<char> {
    m.head@ + " fn __drop_inner"@ + m.impl_generics@ + "("@ + (if m.receiver_mut { "mut "@ } else { ""@ }) + "__self: "@
        + m.inner_receiver_ty@ + ") "@ + m.inner_output@ + " "@ + m.impl_where@ + " "@ + m.inner_block@
}

/// The rewritten method: `unsafe fn drop(self: ..)`, without `mut`, whose
/// body holds the inner function and calls it on `self`.
pub open spec fn drop_method_text(m: DropMethodParts) -> Seq<char> {
    m.head@ + " unsafe fn drop"@ + m.generics@ + "(self: "@ + m.receiver_ty@ + ") "@ + m.output@ + " "@ + m.where_clause@
        + " { "@ + drop_inner_text(m) + " __drop_inner(self); }"@
}

/// Writes the method that replaces the accepted `drop` method.
pub fn expand_method(m: &DropMethodParts) -> (r: String)
    ensures
        r@ == drop_method_text(*m),
{
    let mut inner = m.head.clone();
    inner.append(" fn __drop_inner");
    inner.append(m.impl_generics.as_str());
    inner.append("(");
    if m.receiver_mut {
        inner.append("mut ");
    }
    inner.append("__self: ");
    inner.append(m.inner_receiver_ty.as_str());
    inner.append(") ");
    inner.append(m.inner_output.as_str());
    inner.append(" ");
    inner.append(m.impl_where.as_str());
    inner.append(" ");
    inner.append(m.inner_block.as_str());
    proof {
        reveal_strlit("");
        assert(inner@ =~= drop_inner_text(*m));
    }
    let mut r = m.head.clone();
    r.append(" unsafe fn drop");
    r.append(m.generics.as_str());
    r.append("(self: ");
    r.append(m.receiver_ty.as_str());
    r.append(") ");
    r.append(m.output.as_str());
    r.append(" ");
    r.append(m.where_clause.as_str());
    r.append(" { ");
    r.append(inner.as_str());
    r.append(" __drop_inner(self); }");
    r
}

} // verus!
