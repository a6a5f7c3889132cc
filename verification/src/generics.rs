//! How generic parameters and where clauses are written out.
//!
//! Lifetimes are written before types and consts, whatever their order in the
//! declaration; defaults appear only in the declaration of a type.
use vstd::prelude::*;

use crate::model::{GenericParam, Generics};
use crate::text::{join_strings, join_with, views};

verus! {

/// How a parameter is written.
#[derive(Clone, Copy, PartialEq, Eq, Structural)]
pub enum ParamStyle {
    /// As in the declaration of a type, defaults included.
    Declaration,
    /// As after `impl`: bounds, no defaults.
    Impl,
    /// As in the arguments of a type: the name alone.
    Argument,
}

/// `": " + bounds`, or nothing when there are no bounds.
pub open spec fn bounds_part(bounds: Seq<char>) -> Seq<char> {
    if bounds.len() == 0 {
        Seq::empty()
    } else {
        ": "@ + bounds
    }
}

/// `" = " + default`, or nothing when there is no default or it is left off.
pub open spec fn default_part(default: Seq<char>, style: ParamStyle) -> Seq<char> {
    if default.len() == 0 || style != ParamStyle::Declaration {
        Seq::empty()
    } else {
        " = "@ + default
    }
}

/// A parameter written in `style`.
pub open spec fn param_text(p: GenericParam, style: ParamStyle) -> Seq<char> {
    match p {
        GenericParam::Lifetime { name, bounds } => if style == ParamStyle::Argument {
            name@
        } else {
            name@ + bounds_part(bounds@)
        },
        GenericParam::Type { name, bounds, default } => if style == ParamStyle::Argument {
            name@
        } else {
            name@ + bounds_part(bounds@) + default_part(default@, style)
        },
        GenericParam::Const { name, ty, default } => if style == ParamStyle::Argument {
            name@
        } else {
            "const "@ + name@ + ": "@ + ty@ + default_part(default@, style)
        },
    }
}

/// The parameters that are lifetimes (`lifetimes`) or that are not, written in `style`.
pub open spec fn params_of(ps: Seq<GenericParam>, lifetimes: bool, style: ParamStyle) -> Seq<Seq<char>>
    decreases ps.len(),
{
    if ps.len() == 0 {
        Seq::empty()
    } else {
        let rest = params_of(ps.drop_last(), lifetimes, style);
        if (ps.last() is Lifetime) == lifetimes {
            rest.push(param_text(ps.last(), style))
        } else {
            rest
        }
    }
}

/// `<items>`, or nothing when there are no items.
pub open spec fn angle(items: Seq<Seq<char>>) -> Seq<char> {
    if items.len() == 0 {
        Seq::empty()
    } else {
        "<"@ + join_with(items, ", "@) + ">"@
    }
}

/// The parameter list written in `style`, lifetimes first.
pub open spec fn params_text(ps: Seq<GenericParam>, style: ParamStyle) -> Seq<char> {
    angle(params_of(ps, true, style) + params_of(ps, false, style))
}

/// `where p1, p2, ...`, or nothing when there is no predicate.
pub open spec fn where_text(preds: Seq<Seq<char>>) -> Seq<char> {
    if preds.len() == 0 {
        Seq::empty()
    } else {
        "where "@ + join_with(preds, ", "@)
    }
}

/// The where clause of `g`, written out.
pub open spec fn where_clause_text(g: Generics) -> Seq<char> {
    match g.where_clause {
        Some(preds) => where_text(views(preds@)),
        None => Seq::empty(),
    }
}

/// Writes one parameter.
pub fn param_to_text(p: &GenericParam, style: ParamStyle) -> (r: String)
    ensures
        r@ == param_text(*p, style),
{
    match p {
        GenericParam::Lifetime { name, bounds } => {
            let mut r = name.clone();
            if style != ParamStyle::Argument && bounds.as_str().unicode_len() > 0 {
                r.append(": ");
                r.append(bounds.as_str());
            }
            r
        },
        GenericParam::Type { name, bounds, default } => {
            let mut r = name.clone();
            if style != ParamStyle::Argument {
                if bounds.as_str().unicode_len() > 0 {
                    r.append(": ");
                    r.append(bounds.as_str());
                }
                if style == ParamStyle::Declaration && default.as_str().unicode_len() > 0 {
                    r.append(" = ");
                    r.append(default.as_str());
                }
            }
            proof {
                if style != ParamStyle::Argument {
                    assert(r@ =~= param_text(*p, style));
                }
            }
            r
        },
        GenericParam::Const { name, ty, default } => {
            if style == ParamStyle::Argument {
                name.clone()
            } else {
                let mut r = String::from_str("const ");
                r.append(name.as_str());
                r.append(": ");
                r.append(ty.as_str());
                if style == ParamStyle::Declaration && default.as_str().unicode_len() > 0 {
                    r.append(" = ");
                    r.append(default.as_str());
                }
                proof {
                    assert(r@ =~= param_text(*p, style));
                }
                r
            }
        },
    }
}

/// Appends the selected parameters, written in `style`, to `out`.
pub fn push_params(ps: &Vec<GenericParam>, lifetimes: bool, style: ParamStyle, out: &mut Vec<String>)
    ensures
        views(final(out)@) == views(old(out)@) + params_of(ps@, lifetimes, style),
{
    let mut i: usize = 0;
    while i < ps.len()
        invariant
            i <= ps@.len(),
            views(out@) == views(old(out)@) + params_of(ps@.subrange(0, i as int), lifetimes, style),
        decreases ps@.len() - i,
    {
        assert(ps@.subrange(0, i + 1).drop_last() =~= ps@.subrange(0, i as int));
        let is_lt = match &ps[i] {
            GenericParam::Lifetime { .. } => true,
            _ => false,
        };
        let ghost prev = out@;
        if is_lt == lifetimes {
            let t = param_to_text(&ps[i], style);
            out.push(t);
            assert(views(out@) =~= views(prev).push(param_text(ps@[i as int], style)));
        }
        assert(views(out@) =~= views(old(out)@) + params_of(ps@.subrange(0, i + 1), lifetimes, style));
        i = i + 1;
    }
    assert(ps@.subrange(0, i as int) =~= ps@);
}

/// Writes the parameter list in `style`, lifetimes first.
pub fn params_to_text(ps: &Vec<GenericParam>, style: ParamStyle) -> (r: String)
    ensures
        r@ == params_text(ps@, style),
{
    let mut items: Vec<String> = Vec::new();
    push_params(ps, true, style, &mut items);
    push_params(ps, false, style, &mut items);
    assert(views(items@) =~= params_of(ps@, true, style) + params_of(ps@, false, style));
    if items.len() == 0 {
        return String::new();
    }
    let mut r = String::from_str("<");
    let joined = join_strings(&items, ", ");
    r.append(joined.as_str());
    r.append(">");
    r
}

/// Writes `where p1, p2, ...`, or nothing when there is no predicate.
pub fn where_to_text(preds: &Vec<String>) -> (r: String)
    ensures
        r@ == where_text(views(preds@)),
{
    if preds.len() == 0 {
        return String::new();
    }
    let mut r = String::from_str("where ");
    let joined = join_strings(preds, ", ");
    r.append(joined.as_str());
    r
}

/// Writes the where clause of `g`.
pub fn where_clause_to_text(g: &Generics) -> (r: String)
    ensures
        r@ == where_clause_text(*g),
{
    match &g.where_clause {
        Some(preds) => where_to_text(preds),
        None => String::new(),
    }
}

} // verus!
