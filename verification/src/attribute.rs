//! The attribute `#[pin_project]` itself: it checks the item, marks it for
//! the derive and adds the `Drop` impl.
use vstd::prelude::*;

use crate::args::{parse_args, parse_args_spec, Args, Dialect};
use crate::attrs::{find_spec, position};
use crate::error::{Diag, Error};
use crate::generics::{params_text, params_to_text, where_clause_text, where_clause_to_text, ParamStyle};
use crate::model::{Attr, Generics, Item};
use crate::text::views;
use crate::tokens::{stream_text, stream_to_text, TokenTree};
use crate::validate::{validate_enum, validate_enum_spec, validate_struct, validate_struct_spec};

verus! {

/// The attributes that mark the item for the derive: the derive itself,
/// and `#[pin(__private(args))]`, which hands the arguments of the
/// attribute, written as `args`, on to it.
pub open spec fn pin_attrs_spec(args: Seq<char>) -> Seq<Seq<char>> {
    seq![
        "#[derive(::pin_project::__private::__PinProjectInternalDerive)]"@,
        "#[pin(__private("@ + args + "))]"@,
    ]
}

/// Checks that the item has no `#[pin]` attribute of its own and returns the
/// attributes to add to it.
pub fn push_pin_attr(attrs: &Vec<Attr>, args: &Vec<TokenTree>) -> (r: Result<Vec<String>, Error>)
    ensures
        match find_spec(attrs@, "pin"@) {
            Some(i) => r matches Err(e) && e@ == (Diag {
                loc: attrs@[i].loc,
                msg: "#[pin] attribute may only be used on fields of structs or variants"@,
            }),
            None => r matches Ok(v) && views(v@) == pin_attrs_spec(stream_text(args@)),
        },
{
    match position(attrs, "pin") {
        Some(i) => {
            return Err(crate::error::error_at(attrs[i].loc, "#[pin] attribute may only be used on fields of structs or variants"));
        },
        None => {},
    }
    let mut v: Vec<String> = Vec::new();
    v.push(String::from_str("#[derive(::pin_project::__private::__PinProjectInternalDerive)]"));
    let mut pin = String::from_str("#[pin(__private(");
    pin.append(stream_to_text(args).as_str());
    pin.append("))]");
    v.push(pin);
    assert(views(v@) =~= pin_attrs_spec(stream_text(args@)));
    Ok(v)
}

/// The `Drop` impl added by the attribute: with `PinnedDrop`, one that calls
/// the user's `PinnedDrop` impl; otherwise impls that conflict with any
/// `Drop` impl of the user.
pub open spec fn attr_drop_impl_text(ident: Seq<char>, g: Generics, pinned_drop: bool) -> Seq<char> {
    let ig = params_text(g.params@, ParamStyle::Impl);
    let st = ident + params_text(g.params@, ParamStyle::Argument);
    let wc = where_clause_text(g);
    let t = ident + "MustNotImplDrop"@;
    if pinned_drop {
        "#[allow(single_use_lifetimes)] impl"@ + ig + " ::core::ops::Drop for "@ + st + " "@ + wc
            + " { fn drop(&mut self) { let pinned_self = unsafe { ::core::pin::Pin::new_unchecked(self) }; unsafe { ::pin_project::__private::PinnedDrop::drop(pinned_self); } } }"@
    } else {
        "trait "@ + t + " {} #[allow(clippy::drop_bounds)] impl<T: ::core::ops::Drop> "@ + t
            + " for T {} #[allow(single_use_lifetimes)] impl"@ + ig + " "@ + t + " for "@ + st + " "@ + wc + " {}"@
    }
}

/// Creates the `Drop` impl for the original type.
pub fn make_drop_impl(ident: &String, generics: &Generics, pinned_drop: Option<usize>) -> (r: String)
    ensures
        r@ == attr_drop_impl_text(ident@, *generics, pinned_drop is Some),
{
    let ig = params_to_text(&generics.params, ParamStyle::Impl);
    let mut st = ident.clone();
    st.append(params_to_text(&generics.params, ParamStyle::Argument).as_str());
    let wc = where_clause_to_text(generics);
    if pinned_drop.is_some() {
        let mut r = String::from_str("#[allow(single_use_lifetimes)] impl");
        r.append(ig.as_str());
        r.append(" ::core::ops::Drop for ");
        r.append(st.as_str());
        r.append(" ");
        r.append(wc.as_str());
        r.append(" { fn drop(&mut self) { let pinned_self = unsafe { ::core::pin::Pin::new_unchecked(self) }; unsafe { ::pin_project::__private::PinnedDrop::drop(pinned_self); } } }");
        r
    } else {
        let mut t = ident.clone();
        t.append("MustNotImplDrop");
        let mut r = String::from_str("trait ");
        r.append(t.as_str());
        r.append(" {} #[allow(clippy::drop_bounds)] impl<T: ::core::ops::Drop> ");
        r.append(t.as_str());
        r.append(" for T {} #[allow(single_use_lifetimes)] impl");
        r.append(ig.as_str());
        r.append(" ");
        r.append(t.as_str());
        r.append(" for ");
        r.append(st.as_str());
        r.append(" ");
        r.append(wc.as_str());
        r.append(" {}");
        r
    }
}

/// What the attribute does to the item: the attributes it adds to it and
/// the items it puts after it.
pub struct AttributeExpansion {
    pub new_attrs: Vec<String>,
    pub drop_impl: String,
}

/// What the attribute makes of an item that passed the checks of its shape.
pub open spec fn mark_item_spec(attrs: Seq<Attr>, ident: Seq<char>, g: Generics, args: Seq<TokenTree>, a: Args) -> Result<(Seq<Seq<char>>, Seq<char>), Diag> {
    match find_spec(attrs, "pin"@) {
        Some(i) => Err(Diag { loc: attrs[i].loc, msg: "#[pin] attribute may only be used on fields of structs or variants"@ }),
        None => Ok((pin_attrs_spec(stream_text(args)), attr_drop_impl_text(ident, g, a.pinned_drop is Some))),
    }
}

/// What the attribute makes of its arguments and the item.
pub open spec fn parse_attribute_spec(args: Seq<TokenTree>, item: Item) -> Result<(Seq<Seq<char>>, Seq<char>), Diag> {
    match parse_args_spec(args, Dialect::Attribute) {
        Err(d) => Err(d),
        Ok(a) => match item {
            Item::Struct(s) => match validate_struct_spec(s.ident_loc, s.fields, s.fields_loc) {
                Err(d) => Err(d),
                Ok(_) => mark_item_spec(s.attrs@, s.ident@, s.generics, args, a),
            },
            Item::Enum(e) => match validate_enum_spec(e.brace_loc, e.variants@, e.variants_loc, false) {
                Err(d) => Err(d),
                Ok(_) => mark_item_spec(e.attrs@, e.ident@, e.generics, args, a),
            },
            Item::Other { loc } => Err(Diag { loc, msg: "#[pin_project] attribute may only be used on structs or enums"@ }),
        },
    }
}

/// Applies `#[pin_project(args)]` to the item: checks the arguments and the
/// shape of the item, and returns the attributes to add to the item and the
/// `Drop` impl to put after it.
pub fn parse_attribute(args: &Vec<TokenTree>, item: &Item) -> (r: Result<AttributeExpansion, Error>)
    ensures
        match parse_attribute_spec(args@, *item) {
            Err(d) => r matches Err(e) && e@ == d,
            Ok((attrs, drop)) => r matches Ok(x) && views(x.new_attrs@) == attrs && x.drop_impl@ == drop,
        },
{
    let a = match parse_args(args, Dialect::Attribute) {
        Err(e) => return Err(e),
        Ok(a) => a,
    };
    match item {
        Item::Struct(s) => {
            match validate_struct(s.ident_loc, &s.fields, s.fields_loc) {
                Err(e) => return Err(e),
                Ok(()) => {},
            }
            let new_attrs = match push_pin_attr(&s.attrs, args) {
                Err(e) => return Err(e),
                Ok(v) => v,
            };
            Ok(AttributeExpansion { new_attrs, drop_impl: make_drop_impl(&s.ident, &s.generics, a.pinned_drop) })
        },
        Item::Enum(e) => {
            match validate_enum(e.brace_loc, &e.variants, e.variants_loc, false) {
                Err(err) => return Err(err),
                Ok(()) => {},
            }
            let new_attrs = match push_pin_attr(&e.attrs, args) {
                Err(err) => return Err(err),
                Ok(v) => v,
            };
            Ok(AttributeExpansion { new_attrs, drop_impl: make_drop_impl(&e.ident, &e.generics, a.pinned_drop) })
        },
        Item::Other { loc } => Err(crate::error::error_at(*loc, "#[pin_project] attribute may only be used on structs or enums")),
    }
}

} // verus!
