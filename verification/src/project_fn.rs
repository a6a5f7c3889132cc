//! Inside a function marked `#[project]`: the statements and expressions
//! that carry one of the attributes `#[project]`, `#[project_ref]`,
//! `#[project_replace]` are rewritten for that projection.
use vstd::prelude::*;

use crate::attrs::{position_exact, position_exact_spec};
use crate::error::{Diag, Error};
use crate::model::Attr;
use crate::names::{method_name_spec, Mutability};
use crate::project::{local_out, local_result, pat_out, seq_out, Context, CtxP, LocalShape, Pat};
use crate::validate::unit_view;

verus! {

/// The projections, in the order in which their attributes are looked for.
pub open spec fn scan_order(k: int) -> Mutability {
    if k == 0 {
        Mutability::Immutable
    } else if k == 1 {
        Mutability::Mutable
    } else {
        Mutability::Owned
    }
}

fn order_at(k: usize) -> (m: Mutability)
    requires
        k < 3,
    ensures
        m == scan_order(k as int),
{
    if k == 0 {
        Mutability::Immutable
    } else if k == 1 {
        Mutability::Mutable
    } else {
        Mutability::Owned
    }
}

/// A fresh replacement state for the projection `m`.
pub open spec fn fresh(m: Mutability) -> CtxP {
    CtxP { register: None, replaced: false, mutability: m }
}

/// Among the projections from the `k`-th on, the first whose attribute is
/// present (with its position) or faulty (with the error).
pub open spec fn marked_from(attrs: Seq<Attr>, k: int) -> Option<(int, Result<int, Diag>)>
    decreases 3 - k,
{
    if k < 0 || k >= 3 {
        None
    } else {
        match position_exact_spec(attrs, method_name_spec(scan_order(k))) {
            Ok(None) => marked_from(attrs, k + 1),
            Ok(Some(i)) => Some((k, Ok(i))),
            Err(d) => Some((k, Err(d))),
        }
    }
}

/// The message when two of the attributes are on one node.
pub open spec fn exclusive(loc: usize, first: Mutability, second: Mutability) -> Diag {
    Diag {
        loc,
        msg: "attributes `"@ + method_name_spec(first) + "` and `"@ + method_name_spec(second) + "` are mutually exclusive"@,
    }
}

/// The result of looking, after the attribute of the `s`-th projection was
/// found, for the attributes of the later ones (in `attrs`, the attributes
/// left once the found one was removed).
pub open spec fn rest_result(attrs: Seq<Attr>, s: int) -> Result<(), Diag> {
    match marked_from(attrs, s + 1) {
        None => Ok(()),
        Some((_, Err(d))) => Err(d),
        Some((t, Ok(j))) => Err(exclusive(attrs[j].loc, scan_order(s), scan_order(t))),
    }
}

/// Finds, from the `k`-th projection on, the first whose attribute is
/// present or faulty.
fn first_marked(attrs: &Vec<Attr>, k: usize) -> (r: Result<Option<(usize, usize)>, Error>)
    requires
        k <= 3,
    ensures
        match marked_from(attrs@, k as int) {
            None => r matches Ok(None),
            Some((s, Err(d))) => r matches Err(e) && e@ == d,
            Some((s, Ok(i))) => r matches Ok(Some((s2, i2))) && s2 == s && i2 == i && 0 <= i < attrs@.len() && k <= s < 3,
        },
{
    let mut t = k;
    while t < 3
        invariant
            k <= t <= 3,
            marked_from(attrs@, k as int) == marked_from(attrs@, t as int),
        decreases 3 - t,
    {
        let m = order_at(t);
        match position_exact(attrs, m.method_name()) {
            Err(e) => return Err(e),
            Ok(Some(i)) => return Ok(Some((t, i))),
            Ok(None) => {},
        }
        t = t + 1;
    }
    Ok(None)
}

/// The message for two attributes on one node.
fn exclusive_error(loc: usize, first: Mutability, second: Mutability) -> (e: Error)
    ensures
        e@ == exclusive(loc, first, second),
{
    let mut msg = String::from_str("attributes `");
    msg.append(first.method_name());
    msg.append("` and `");
    msg.append(second.method_name());
    msg.append("` are mutually exclusive");
    Error { loc, msg }
}

/// Looks for the attributes of the later projections once the `s`-th was
/// found: any of them is an error.
fn check_rest(attrs: &Vec<Attr>, s: usize) -> (r: Result<(), Error>)
    requires
        s < 3,
    ensures
        unit_view(r) == rest_result(attrs@, s as int),
{
    match first_marked(attrs, s + 1) {
        Ok(None) => Ok(()),
        Err(e) => Err(e),
        Ok(Some((t, j))) => Err(exclusive_error(attrs[j].loc, order_at(s), order_at(t))),
    }
}

/// What the attributes of a `let` statement make of it: the result, and,
/// when an attribute was found, which projection it names and the
/// attributes left.
pub open spec fn visit_local_result(attrs: Seq<Attr>, pat: Pat, pat_loc: usize, init: Option<Vec<Pat>>) -> Result<(), Diag> {
    match marked_from(attrs, 0) {
        None => Ok(()),
        Some((_, Err(d))) => Err(d),
        Some((s, Ok(i))) => {
            let left = attrs.remove(i);
            match local_result(fresh(scan_order(s)), left, pat, pat_loc, init) {
                Err(d) => Err(d),
                Ok(_) => rest_result(left, s),
            }
        },
    }
}

/// Rewrites a `let` statement of a function marked `#[project]` by the
/// attribute it carries: the attribute is removed and the statement is
/// rewritten for its projection. Two such attributes are an error.
pub fn visit_local(local: &mut LocalShape) -> (r: Result<(), Error>)
    ensures
        unit_view(r) == visit_local_result(old(local).attrs@, old(local).pat, old(local).pat_loc, old(local).init_match),
        r is Ok ==> match marked_from(old(local).attrs@, 0) {
            Some((s, Ok(i))) => {
                &&& final(local).attrs@ == old(local).attrs@.remove(i)
                &&& final(local).pat_loc == old(local).pat_loc
                &&& exists|c2: CtxP| #[trigger] local_out(fresh(scan_order(s)), final(local).attrs@, old(local).pat, old(local).init_match, c2, final(local).pat, final(local).init_match)
            },
            _ => *final(local) == *old(local),
        },
{
    match first_marked(&local.attrs, 0) {
        Err(e) => Err(e),
        Ok(None) => Ok(()),
        Ok(Some((s, i))) => {
            local.attrs.remove(i);
            let mut ctx = Context::new(order_at(s));
            match ctx.replace_local(local) {
                Err(e) => return Err(e),
                Ok(()) => {},
            }
            assert(local_out(fresh(scan_order(s as int)), local.attrs@, old(local).pat, old(local).init_match, ctx@, local.pat, local.init_match));
            check_rest(&local.attrs, s)
        },
    }
}

/// The projection that the attributes of an expression name, and the
/// attributes left.
pub open spec fn selection(attrs: Seq<Attr>) -> Result<Option<(Mutability, Seq<Attr>)>, Diag> {
    match marked_from(attrs, 0) {
        None => Ok(None),
        Some((_, Err(d))) => Err(d),
        Some((s, Ok(i))) => match rest_result(attrs.remove(i), s) {
            Err(d) => Err(d),
            Ok(_) => Ok(Some((scan_order(s), attrs.remove(i)))),
        },
    }
}

/// Removes the attribute that names a projection and returns that
/// projection; two such attributes are an error.
pub fn select_mutability(attrs: &mut Vec<Attr>) -> (r: Result<Option<Mutability>, Error>)
    ensures
        match selection(old(attrs)@) {
            Ok(None) => r matches Ok(None) && final(attrs)@ == old(attrs)@,
            Ok(Some((m, left))) => r matches Ok(Some(m2)) && m2 == m && final(attrs)@ == left,
            Err(d) => r matches Err(e) && e@ == d,
        },
{
    match first_marked(attrs, 0) {
        Err(e) => Err(e),
        Ok(None) => Ok(None),
        Ok(Some((s, i))) => {
            attrs.remove(i);
            match check_rest(attrs, s) {
                Err(e) => Err(e),
                Ok(()) => Ok(Some(order_at(s))),
            }
        },
    }
}

/// An expression, as far as the replacement reads it.
pub enum ExprShape {
    /// A `match`: the patterns of its arms.
    Match(Vec<Pat>),
    /// An `if let`, followed by `else if let` ...: the patterns of the
    /// leading chain of `let` conditions.
    IfLet(Vec<Pat>),
    /// Any other expression.
    Other,
}

/// `e2` is the expression `e` rewritten for the projection `m`: the arms of
/// a `match` share one replacement, each `let` of a chain has its own.
pub open spec fn expr_out(e: ExprShape, m: Mutability, e2: ExprShape) -> bool {
    match e {
        ExprShape::Match(arms) => e2 matches ExprShape::Match(arms2) && seq_out(fresh(m), arms@, true, arms2@),
        ExprShape::IfLet(pats) => e2 matches ExprShape::IfLet(pats2) && pats2@.len() == pats@.len()
            && forall|k: int| 0 <= k < pats@.len() ==> #[trigger] pat_out(fresh(m), pats@[k], true, pats2@[k]),
        ExprShape::Other => e2 is Other,
    }
}

/// Rewrites an expression for the projection `m`.
pub fn replace_expr(expr: ExprShape, m: Mutability) -> (r: ExprShape)
    ensures
        expr_out(expr, m, r),
{
    match expr {
        ExprShape::Match(arms) => {
            let mut ctx = Context::new(m);
            ExprShape::Match(ctx.replace_expr_match(arms))
        },
        ExprShape::IfLet(pats) => {
            let ghost orig = pats@;
            let mut rest = pats;
            let mut out: Vec<Pat> = Vec::new();
            while rest.len() > 0
                invariant
                    out@.len() + rest@.len() == orig.len(),
                    rest@ == orig.subrange(out@.len() as int, orig.len() as int),
                    forall|k: int| 0 <= k < out@.len() ==> #[trigger] pat_out(fresh(m), orig[k], true, out@[k]),
                decreases rest@.len(),
            {
                let ghost n = out@.len() as int;
                let p = rest.remove(0);
                assert(p == orig[n]);
                let mut ctx = Context::new(m);
                let q = ctx.replace_expr_let(p);
                out.push(q);
                assert(rest@ =~= orig.subrange(out@.len() as int, orig.len() as int));
            }
            ExprShape::IfLet(out)
        },
        ExprShape::Other => ExprShape::Other,
    }
}

/// What the attributes of an expression make of it.
pub open spec fn visit_expr_result(attrs: Seq<Attr>, e: ExprShape) -> Result<(), Diag> {
    match e {
        ExprShape::Other => Ok(()),
        ExprShape::IfLet(pats) if pats@.len() == 0 => Ok(()),
        _ => match selection(attrs) {
            Err(d) => Err(d),
            Ok(_) => Ok(()),
        },
    }
}

/// Rewrites an expression of a function marked `#[project]` by the
/// attribute it carries, when it is a `match` or an `if let`.
pub fn visit_expr(attrs: &mut Vec<Attr>, expr: ExprShape) -> (r: Result<ExprShape, Error>)
    ensures
        match visit_expr_result(old(attrs)@, expr) {
            Err(d) => r matches Err(e) && e@ == d,
            Ok(_) => r matches Ok(e2) && match expr {
                ExprShape::Other => e2 is Other && final(attrs)@ == old(attrs)@,
                ExprShape::IfLet(pats) if pats@.len() == 0 => e2 == expr && final(attrs)@ == old(attrs)@,
                _ => match selection(old(attrs)@) {
                    Ok(Some((m, left))) => final(attrs)@ == left && expr_out(expr, m, e2),
                    _ => final(attrs)@ == old(attrs)@ && e2 == expr,
                },
            },
        },
{
    match &expr {
        ExprShape::Other => return Ok(expr),
        ExprShape::IfLet(pats) => {
            if pats.len() == 0 {
                return Ok(expr);
            }
        },
        ExprShape::Match(_) => {},
    }
    match select_mutability(attrs) {
        Err(e) => Err(e),
        Ok(None) => Ok(expr),
        Ok(Some(m)) => Ok(replace_expr(expr, m)),
    }
}

/// A node of a function marked `#[project]` at which the walk over its
/// body stops: a `let` statement, or a `match` or `if` expression with its
/// attributes.
pub enum WalkNode {
    Local(LocalShape),
    Expr { attrs: Vec<Attr>, expr: ExprShape },
}

/// What visiting one node gives.
pub open spec fn node_result(n: WalkNode) -> Result<(), Diag> {
    match n {
        WalkNode::Local(l) => visit_local_result(l.attrs@, l.pat, l.pat_loc, l.init_match),
        WalkNode::Expr { attrs, expr } => visit_expr_result(attrs@, expr),
    }
}

/// `n2` is the node `n` after a visit that succeeded.
pub open spec fn node_out(n: WalkNode, n2: WalkNode) -> bool {
    match (n, n2) {
        (WalkNode::Local(l), WalkNode::Local(l2)) => match marked_from(l.attrs@, 0) {
            Some((s, Ok(i))) => {
                &&& l2.attrs@ == l.attrs@.remove(i)
                &&& l2.pat_loc == l.pat_loc
                &&& exists|c2: CtxP| #[trigger] local_out(fresh(scan_order(s)), l2.attrs@, l.pat, l.init_match, c2, l2.pat, l2.init_match)
            },
            _ => l2 == l,
        },
        (WalkNode::Expr { attrs, expr }, WalkNode::Expr { attrs: attrs2, expr: expr2 }) => match expr {
            ExprShape::Other => expr2 is Other && attrs2@ == attrs@,
            ExprShape::IfLet(pats) if pats@.len() == 0 => expr2 == expr && attrs2@ == attrs@,
            _ => match selection(attrs@) {
                Ok(Some((m, left))) => attrs2@ == left && expr_out(expr, m, expr2),
                _ => attrs2@ == attrs@ && expr2 == expr,
            },
        },
        _ => false,
    }
}

/// `n2` is `n` as it was: the same statement, or the same attributes and
/// expression.
pub open spec fn node_same(n: WalkNode, n2: WalkNode) -> bool {
    match (n, n2) {
        (WalkNode::Local(l), WalkNode::Local(l2)) => l2 == l,
        (WalkNode::Expr { attrs, expr }, WalkNode::Expr { attrs: attrs2, expr: expr2 }) => attrs2@ == attrs@ && expr2 == expr,
        _ => false,
    }
}

/// The walk over the nodes, in the order in which it meets them: the
/// first error, if any.
pub open spec fn walk_result(nodes: Seq<WalkNode>) -> Result<(), Diag>
    decreases nodes.len(),
{
    if nodes.len() == 0 {
        Ok(())
    } else {
        match walk_result(nodes.drop_last()) {
            Err(d) => Err(d),
            Ok(_) => node_result(nodes.last()),
        }
    }
}

/// Visits the nodes of a function marked `#[project]`, in the order in
/// which the walk over its body meets them (each node after the nodes
/// inside it), and stops at the first error.
pub fn walk(nodes: &mut Vec<WalkNode>) -> (r: Result<(), Error>)
    ensures
        unit_view(r) == walk_result(old(nodes)@),
        r is Ok ==> final(nodes)@.len() == old(nodes)@.len()
            && forall|k: int| 0 <= k < old(nodes)@.len() ==> #[trigger] node_out(old(nodes)@[k], final(nodes)@[k]),
{
    let ghost orig = nodes@;
    let mut out: Vec<WalkNode> = Vec::new();
    while nodes.len() > 0
        invariant
            orig == old(nodes)@,
            out@.len() + nodes@.len() == orig.len(),
            nodes@ == orig.subrange(out@.len() as int, orig.len() as int),
            walk_result(orig.subrange(0, out@.len() as int)) is Ok,
            forall|k: int| 0 <= k < out@.len() ==> #[trigger] node_out(orig[k], out@[k]),
        decreases nodes@.len(),
    {
        let ghost n = out@.len() as int;
        let node = nodes.remove(0);
        assert(node == orig[n]);
        assert(orig.subrange(0, n + 1).drop_last() =~= orig.subrange(0, n));
        assert(orig.subrange(0, n + 1).last() == orig[n]);
        assert(walk_result(orig.subrange(0, n + 1)) == node_result(orig[n]));
        let done = match node {
            WalkNode::Local(mut l) => {
                match visit_local(&mut l) {
                    Err(e) => {
                        proof { lemma_walk_err_sticks(orig, n + 1); }
                        return Err(e);
                    },
                    Ok(()) => {},
                }
                WalkNode::Local(l)
            },
            WalkNode::Expr { mut attrs, expr } => {
                let e2 = match visit_expr(&mut attrs, expr) {
                    Err(e) => {
                        proof { lemma_walk_err_sticks(orig, n + 1); }
                        return Err(e);
                    },
                    Ok(e2) => e2,
                };
                WalkNode::Expr { attrs, expr: e2 }
            },
        };
        assert(node_out(orig[n], done));
        out.push(done);
        assert(nodes@ =~= orig.subrange(out@.len() as int, orig.len() as int));
    }
    assert(orig.subrange(0, out@.len() as int) =~= orig);
    *nodes = out;
    Ok(())
}

/// Once the walk met an error, the walk over more nodes gives that error.
proof fn lemma_walk_err_sticks(nodes: Seq<WalkNode>, k: int)
    requires
        0 <= k <= nodes.len(),
        walk_result(nodes.subrange(0, k)) is Err,
    ensures
        walk_result(nodes) == walk_result(nodes.subrange(0, k)),
    decreases nodes.len(),
{
    if k == nodes.len() {
        assert(nodes.subrange(0, k) =~= nodes);
    } else {
        assert(nodes.drop_last().subrange(0, k) =~= nodes.subrange(0, k));
        lemma_walk_err_sticks(nodes.drop_last(), k);
    }
}

} // verus!
