//! The attribute `#[pin_project(a, b, ..)]` on a
//! function: each argument it names is projected at the start of the body,
//! and `self` is renamed `__self` in the body.
use vstd::prelude::*;

use crate::args::{is_comma, is_reserved};
use crate::error::{Diag, Error};
use crate::tokens::{tree_loc, TokenTree};

verus! {

/// The names given to the attribute, read from position `j` on: names
/// separated by commas, a comma may end the list, a name given twice
/// counts once. `first`: no name was read yet.
pub open spec fn scan_names(toks: Seq<TokenTree>, j: int, first: bool, names: Seq<Seq<char>>) -> Result<Seq<Seq<char>>, Diag>
    decreases toks.len() - j,
{
    if j < 0 || j >= toks.len() {
        Ok(names)
    } else if !first && !is_comma(toks[j]) {
        Err(Diag { loc: tree_loc(toks[j]), msg: "expected `,`"@ })
    } else {
        let k = if first { j } else { j + 1 };
        if k >= toks.len() {
            Ok(names)
        } else {
            match toks[k] {
                TokenTree::Ident { name, loc } => if is_reserved(name@) && name@ != "self"@ {
                    Err(Diag { loc, msg: "expected identifier, found keyword `"@ + name@ + "`"@ })
                } else {
                    scan_names(toks, k + 1, false, if names.contains(name@) { names } else { names.push(name@) })
                },
                _ => Err(Diag { loc: tree_loc(toks[k]), msg: "expected identifier"@ }),
            }
        }
    }
}

/// The names given to the attribute.
pub open spec fn names_spec(toks: Seq<TokenTree>) -> Result<Seq<Seq<char>>, Diag> {
    scan_names(toks, 0, true, Seq::empty())
}

fn contains_name(names: &Vec<String>, name: &String) -> (b: bool)
    ensures
        b == crate::text::views(names@).contains(name@),
{
    let mut i: usize = 0;
    while i < names.len()
        invariant
            i <= names@.len(),
            forall|k: int| 0 <= k < i ==> names@[k]@ != name@,
        decreases names@.len() - i,
    {
        if names[i] == *name {
            assert(crate::text::views(names@)[i as int] == name@);
            return true;
        }
        i = i + 1;
    }
    proof {
        if crate::text::views(names@).contains(name@) {
            let k = choose|k: int| 0 <= k < crate::text::views(names@).len() && crate::text::views(names@)[k] == name@;
            assert(names@[k]@ == name@);
        }
    }
    false
}

/// Reads the names given to the attribute.
pub fn parse_names(toks: &Vec<TokenTree>) -> (r: Result<Vec<String>, Error>)
    ensures
        match names_spec(toks@) {
            Ok(n) => r matches Ok(v) && crate::text::views(v@) == n,
            Err(d) => r matches Err(e) && e@ == d,
        },
{
    let mut names: Vec<String> = Vec::new();
    let mut j: usize = 0;
    let mut first = true;
    assert(crate::text::views(names@) =~= Seq::<Seq<char>>::empty());
    while j < toks.len()
        invariant
            j <= toks@.len(),
            names_spec(toks@) == scan_names(toks@, j as int, first, crate::text::views(names@)),
        decreases toks@.len() - j,
    {
        if !first {
            let is_c = match &toks[j] {
                TokenTree::Punct { ch, .. } => *ch == ',',
                _ => false,
            };
            if !is_c {
                return Err(crate::error::error_at(crate::args::token_loc(&toks[j]), "expected `,`"));
            }
            j = j + 1;
            if j >= toks.len() {
                return Ok(names);
            }
        }
        match &toks[j] {
            TokenTree::Ident { name, loc } => {
                if crate::args::reserved(name) && !crate::text::text_is(name, "self") {
                    let mut msg = String::from_str("expected identifier, found keyword `");
                    msg.append(name.as_str());
                    msg.append("`");
                    return Err(Error { loc: *loc, msg });
                }
                if !contains_name(&names, name) {
                    let ghost prev = names@;
                    names.push(name.clone());
                    assert(crate::text::views(names@) =~= crate::text::views(prev).push(name@));
                }
            },
            _ => return Err(crate::error::error_at(crate::args::token_loc(&toks[j]), "expected identifier")),
        }
        first = false;
        j = j + 1;
    }
    Ok(names)
}

/// An argument of the function: its name when it is a plain binding
/// `ref? mut? name`, and whether `ref` and `mut` are written.
pub struct FnArg {
    pub ident: Option<String>,
    pub by_ref: bool,
    pub mutability: bool,
}

/// The argument is one the attribute names.
pub open spec fn selected(a: FnArg, names: Seq<Seq<char>>) -> bool {
    a.ident matches Some(n) && names.contains(n@)
}

/// The statement that projects a selected argument.
pub open spec fn projection_stmt(a: FnArg) -> Seq<char> {
    let n = match a.ident {
        Some(n) => n@,
        None => Seq::empty(),
    };
    "let "@ + (if a.by_ref { "ref "@ } else { Seq::empty() }) + (if a.mutability { "mut "@ } else { Seq::empty() })
        + (if n == "self"@ { "__self"@ } else { n }) + " = "@ + n + ".project();"@
}

/// The statements put at the start of the body, in order: each one is put
/// first in turn, so the last selected argument comes first.
pub open spec fn projection_stmts(args: Seq<FnArg>, names: Seq<Seq<char>>) -> Seq<Seq<char>>
    decreases args.len(),
{
    if args.len() == 0 {
        Seq::empty()
    } else if selected(args.last(), names) {
        seq![projection_stmt(args.last())] + projection_stmts(args.drop_last(), names)
    } else {
        projection_stmts(args.drop_last(), names)
    }
}

/// A selected argument loses `ref`, and `mut` unless it had `ref`.
pub open spec fn arg_out(a: FnArg, names: Seq<Seq<char>>, a2: FnArg) -> bool {
    if selected(a, names) {
        a2.ident == a.ident && !a2.by_ref && a2.mutability == (a.by_ref && a.mutability)
    } else {
        a2 == a
    }
}

/// The argument is `self`.
pub open spec fn is_self_arg(a: FnArg) -> bool {
    a.ident matches Some(n) && n@ == "self"@
}

/// Some selected argument is `self`: `self` is renamed in the body.
pub open spec fn renames_self(args: Seq<FnArg>, names: Seq<Seq<char>>) -> bool {
    exists|k: int| 0 <= k < args.len() && selected(#[trigger] args[k], names) && is_self_arg(args[k])
}

/// What the attribute does to the function's arguments.
pub struct ArgsProjection {
    /// The statements that go first in the body, in order.
    pub stmts: Vec<String>,
    /// Whether `self` is renamed `__self` in the body (before the statements
    /// are put in).
    pub rename_self: bool,
}

fn projection_stmt_text(a: &FnArg) -> (r: String)
    ensures
        r@ == projection_stmt(*a),
{
    let mut n = String::new();
    match &a.ident {
        Some(s) => n.append(s.as_str()),
        None => {},
    }
    proof { reveal_strlit(""); }
    let mut r = String::from_str("let ");
    if a.by_ref {
        r.append("ref ");
    }
    if a.mutability {
        r.append("mut ");
    }
    if crate::text::text_is(&n, "self") {
        r.append("__self");
    } else {
        r.append(n.as_str());
    }
    r.append(" = ");
    r.append(n.as_str());
    r.append(".project();");
    r
}

/// Projects the arguments that the attribute names: returns the statements
/// that go first in the body and whether `self` is renamed in it.
pub fn replace_item_fn(names: &Vec<String>, inputs: &mut Vec<FnArg>) -> (r: ArgsProjection)
    ensures
        crate::text::views(r.stmts@) == projection_stmts(old(inputs)@, crate::text::views(names@)),
        r.rename_self == renames_self(old(inputs)@, crate::text::views(names@)),
        final(inputs)@.len() == old(inputs)@.len(),
        forall|k: int| 0 <= k < old(inputs)@.len() ==> #[trigger] arg_out(old(inputs)@[k], crate::text::views(names@), final(inputs)@[k]),
{
    let ghost ns = crate::text::views(names@);
    let ghost orig = inputs@;
    let mut stmts: Vec<String> = Vec::new();
    let mut rename_self = false;
    let mut i: usize = 0;
    while i < inputs.len()
        invariant
            i <= inputs@.len(),
            inputs@.len() == orig.len(),
            ns == crate::text::views(names@),
            crate::text::views(stmts@) == projection_stmts(orig.subrange(0, i as int), ns),
            rename_self == renames_self(orig.subrange(0, i as int), ns),
            forall|k: int| 0 <= k < i ==> #[trigger] arg_out(orig[k], ns, inputs@[k]),
            forall|k: int| i <= k < orig.len() ==> inputs@[k] == orig[k],
        decreases orig.len() - i,
    {
        let ghost pre = orig.subrange(0, i + 1);
        assert(pre.drop_last() =~= orig.subrange(0, i as int));
        assert(pre.last() == orig[i as int]);
        let sel = match &inputs[i].ident {
            Some(n) => contains_name(names, n),
            None => false,
        };
        let ghost prev_stmts = stmts@;
        if sel {
            let t = projection_stmt_text(&inputs[i]);
            let is_self = match &inputs[i].ident {
                Some(n) => crate::text::text_is(n, "self"),
                None => false,
            };
            stmts.insert(0, t);
            assert(crate::text::views(stmts@) =~= seq![t@] + crate::text::views(prev_stmts));
            let by_ref = inputs[i].by_ref;
            let mutability = inputs[i].mutability;
            let ident = match &inputs[i].ident {
                Some(n) => Some(n.clone()),
                None => None,
            };
            inputs.set(i, FnArg { ident, by_ref: false, mutability: by_ref && mutability });
            proof {
                if is_self {
                    assert(selected(pre[i as int], ns));
                }
                if renames_self(pre, ns) && !renames_self(orig.subrange(0, i as int), ns) {
                    let k = choose|k: int| 0 <= k < pre.len() && selected(#[trigger] pre[k], ns) && is_self_arg(pre[k]);
                    if k < i {
                        assert(orig.subrange(0, i as int)[k] == pre[k]);
                    }
                }
                if renames_self(orig.subrange(0, i as int), ns) {
                    let k = choose|k: int| 0 <= k < i && selected(#[trigger] orig.subrange(0, i as int)[k], ns)
                        && is_self_arg(orig.subrange(0, i as int)[k]);
                    assert(pre[k] == orig.subrange(0, i as int)[k]);
                }
            }
            rename_self = rename_self || is_self;
        } else {
            proof {
                if renames_self(pre, ns) {
                    let k = choose|k: int| 0 <= k < pre.len() && selected(#[trigger] pre[k], ns) && is_self_arg(pre[k]);
                    if k < i {
                        assert(orig.subrange(0, i as int)[k] == pre[k]);
                    }
                }
                if renames_self(orig.subrange(0, i as int), ns) {
                    let k = choose|k: int| 0 <= k < i && selected(#[trigger] orig.subrange(0, i as int)[k], ns)
                        && is_self_arg(orig.subrange(0, i as int)[k]);
                    assert(pre[k] == orig.subrange(0, i as int)[k]);
                }
            }
        }
        i = i + 1;
    }
    assert(orig.subrange(0, i as int) =~= orig);
    ArgsProjection { stmts, rename_self }
}

} // verus!
