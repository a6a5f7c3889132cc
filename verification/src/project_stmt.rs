//! The statement form of `#[project]` that keeps one register per
//! statement: in the patterns, and
//! in the paths of the expressions, of a statement, the first path of one
//! or two segments without arguments is replaced by the projected type,
//! and so is every later path that starts like it.
use vstd::prelude::*;

use crate::model::Attr;
use crate::names::{proj_ident, proj_ident_spec, Mutability};
use crate::pin_projectable::bare_position;
use crate::pinned_drop::PathShape;
use crate::project::Pat;

verus! {

broadcast use vstd::std_specs::vec::axiom_vec_decreases_to_view, vstd::std_specs::vec::axiom_vec_index_decreases;

/// The path replaced first: its first segment and its length.
pub struct Register(pub Option<(String, usize)>);

/// The mathematical content of a [`Register`].
pub open spec fn reg_view(r: Register) -> Option<(Seq<char>, nat)> {
    match r.0 {
        Some((s, l)) => Some((s@, l as nat)),
        None => None,
    }
}

impl Default for Register {
    fn default() -> (r: Register)
        ensures
            r.0 is None,
    {
        Register(None)
    }
}

impl Register {
    /// Registers the path that starts with `ident` and has `len` segments,
    /// unless one is registered already.
    pub fn update(&mut self, ident: &String, len: usize)
        ensures
            reg_view(*final(self)) == match reg_view(*old(self)) {
                None => Some((ident@, len as nat)),
                Some(r) => Some(r),
            },
    {
        if self.0.is_none() {
            self.0 = Some((ident.clone(), len));
        }
    }

    /// Whether the registered path starts with `ident` and has `len` segments.
    pub fn eq(&self, ident: &String, len: usize) -> (b: bool)
        ensures
            b == (reg_view(*self) matches Some((i, l)) && l == len && i == ident@),
    {
        match &self.0 {
            Some((i, l)) => *l == len && *i == *ident,
            None => false,
        }
    }
}

/// The path can be replaced: one segment (a struct) or two (an enum's
/// variant), none with arguments, and nothing registered yet or it starts
/// like the registered path.
pub open spec fn reg_path_applies(r: Option<(Seq<char>, nat)>, p: PathShape) -> bool {
    let s = p.segments@;
    &&& (s.len() == 1 && !s[0].1) || (s.len() == 2 && !s[0].1 && !s[1].1)
    &&& match r {
        None => true,
        Some((i, l)) => l == s.len() && i == s[0].0@,
    }
}

/// The register after the path was seen.
pub open spec fn reg_after_path(r: Option<(Seq<char>, nat)>, p: PathShape) -> Option<(Seq<char>, nat)> {
    if reg_path_applies(r, p) && r is None {
        Some((p.segments@[0].0@, p.segments@.len()))
    } else {
        r
    }
}

/// `p2` is the path `p` after it was seen with register `r`.
pub open spec fn reg_path_out(r: Option<(Seq<char>, nat)>, p: PathShape, p2: PathShape) -> bool {
    &&& p2.leading_colon == p.leading_colon
    &&& p2.segments@.len() == p.segments@.len()
    &&& forall|k: int| 1 <= k < p.segments@.len() ==> p2.segments@[k] == p.segments@[k]
    &&& p.segments@.len() > 0 ==> {
        &&& p2.segments@[0].1 == p.segments@[0].1
        &&& p2.segments@[0].0@ == if reg_path_applies(r, p) {
            proj_ident_spec(p.segments@[0].0@, Mutability::Mutable)
        } else {
            p.segments@[0].0@
        }
    }
}

/// The register after the pattern was seen.
pub open spec fn reg_after_pat(r: Option<(Seq<char>, nat)>, pat: Pat) -> Option<(Seq<char>, nat)>
    decreases pat,
{
    match pat {
        Pat::Ident { sub: Some(b) } => reg_after_pat(r, *b),
        Pat::Reference(b) => reg_after_pat(r, *b),
        Pat::Boxed(b) => reg_after_pat(r, *b),
        Pat::Struct(p) => reg_after_path(r, p),
        Pat::TupleStruct(p) => reg_after_path(r, p),
        Pat::Path { qself, path } => if !qself { reg_after_path(r, path) } else { r },
        _ => r,
    }
}

/// `p2` is the pattern `p` after it was seen with register `r`.
pub open spec fn reg_pat_out(r: Option<(Seq<char>, nat)>, p: Pat, p2: Pat) -> bool
    decreases p,
{
    match p {
        Pat::Ident { sub: Some(b) } => p2 matches Pat::Ident { sub: Some(b2) } && reg_pat_out(r, *b, *b2),
        Pat::Reference(b) => p2 matches Pat::Reference(b2) && reg_pat_out(r, *b, *b2),
        Pat::Boxed(b) => p2 matches Pat::Boxed(b2) && reg_pat_out(r, *b, *b2),
        Pat::Struct(path) => p2 matches Pat::Struct(path2) && reg_path_out(r, path, path2),
        Pat::TupleStruct(path) => p2 matches Pat::TupleStruct(path2) && reg_path_out(r, path, path2),
        Pat::Path { qself, path } => if !qself {
            p2 matches Pat::Path { qself: q2, path: path2 } && !q2 && reg_path_out(r, path, path2)
        } else {
            p2 == p
        },
        _ => p2 == p,
    }
}

/// The register after the patterns were seen, in order.
pub open spec fn reg_after_pats(r: Option<(Seq<char>, nat)>, s: Seq<Pat>) -> Option<(Seq<char>, nat)>
    decreases s.len(),
{
    if s.len() == 0 {
        r
    } else {
        reg_after_pat(reg_after_pats(r, s.drop_last()), s.last())
    }
}

/// `s2` are the patterns `s` after they were seen, in order, with register `r`.
pub open spec fn reg_pats_out(r: Option<(Seq<char>, nat)>, s: Seq<Pat>, s2: Seq<Pat>) -> bool
    decreases s.len(),
{
    &&& s2.len() == s.len()
    &&& s.len() > 0 ==> reg_pats_out(r, s.drop_last(), s2.drop_last())
        && reg_pat_out(reg_after_pats(r, s.drop_last()), s.last(), s2.last())
}

/// Replaces the first segment of the path by the projected type's name,
/// when the path applies.
pub fn replace_path(path: PathShape, register: &mut Register) -> (r: PathShape)
    ensures
        reg_view(*final(register)) == reg_after_path(reg_view(*old(register)), path),
        reg_path_out(reg_view(*old(register)), path, r),
{
    let ghost p0 = path;
    let len = path.segments.len();
    let ok = if len == 1 {
        !path.segments[0].1
    } else if len == 2 {
        !path.segments[0].1 && !path.segments[1].1
    } else {
        false
    };
    if !ok {
        return path;
    }
    let first = path.segments[0].0.clone();
    if register.0.is_none() || register.eq(&first, len) {
        register.update(&first, len);
        let mut path = path;
        let (name, args) = path.segments.remove(0);
        path.segments.insert(0, (proj_ident(&name, Mutability::Mutable), args));
        assert(path.segments@.subrange(1, len as int) =~= p0.segments@.subrange(1, len as int));
        path
    } else {
        path
    }
}

/// Replaces, in the pattern, the paths that apply.
pub fn replace_pat(pat: Pat, register: &mut Register) -> (r: Pat)
    ensures
        reg_view(*final(register)) == reg_after_pat(reg_view(*old(register)), pat),
        reg_pat_out(reg_view(*old(register)), pat, r),
    decreases pat,
{
    match pat {
        Pat::Ident { sub: Some(b) } => Pat::Ident { sub: Some(Box::new(replace_pat(*b, register))) },
        Pat::Reference(b) => Pat::Reference(Box::new(replace_pat(*b, register))),
        Pat::Boxed(b) => Pat::Boxed(Box::new(replace_pat(*b, register))),
        Pat::Struct(p) => Pat::Struct(replace_path(p, register)),
        Pat::TupleStruct(p) => Pat::TupleStruct(replace_path(p, register)),
        Pat::Path { qself, path } => {
            if !qself {
                Pat::Path { qself, path: replace_path(path, register) }
            } else {
                Pat::Path { qself, path }
            }
        },
        other => other,
    }
}

/// Replaces, in each pattern in order, the paths that apply.
pub fn replace_pats(pats: Vec<Pat>, register: &mut Register) -> (r: Vec<Pat>)
    ensures
        reg_view(*final(register)) == reg_after_pats(reg_view(*old(register)), pats@),
        reg_pats_out(reg_view(*old(register)), pats@, r@),
{
    let ghost orig = pats@;
    let ghost r0 = reg_view(*register);
    let mut rest = pats;
    let mut out: Vec<Pat> = Vec::new();
    while rest.len() > 0
        invariant
            out@.len() + rest@.len() == orig.len(),
            rest@ == orig.subrange(out@.len() as int, orig.len() as int),
            reg_view(*register) == reg_after_pats(r0, orig.subrange(0, out@.len() as int)),
            reg_pats_out(r0, orig.subrange(0, out@.len() as int), out@),
        decreases rest@.len(),
    {
        let ghost n = out@.len() as int;
        let p = rest.remove(0);
        assert(p == orig[n]);
        let q = replace_pat(p, register);
        let ghost prev = out@;
        out.push(q);
        proof {
            let a = orig.subrange(0, n + 1);
            assert(a.drop_last() =~= orig.subrange(0, n));
            assert(out@.drop_last() =~= prev);
            assert(rest@ =~= orig.subrange(out@.len() as int, orig.len() as int));
        }
    }
    assert(orig.subrange(0, out@.len() as int) =~= orig);
    out
}

} // verus!

verus! {

/// An expression, as far as the replacement reads it.
pub enum RegExpr {
    /// `if cond { .. }`, with the `if` of an `else if`.
    If { cond: Box<RegExpr>, else_if: Option<Box<RegExpr>> },
    /// `for pat in ..`
    ForLoop(Pat),
    /// `let pats = ..`
    Let(Vec<Pat>),
    /// A `match`: the patterns of its arms, in order.
    Match(Vec<Pat>),
    /// A block or an `unsafe` block, with its last statement when that is
    /// an expression.
    Block(Option<Box<RegExpr>>),
    /// The condition of a `while`, or the expression inside a type
    /// ascription, parentheses or a reference.
    Inner(Box<RegExpr>),
    /// A path expression without qualified self, or the path of a struct
    /// expression.
    Path(PathShape),
    Other,
}

/// The register after the expression was seen.
pub open spec fn reg_after_expr(r: Option<(Seq<char>, nat)>, e: RegExpr) -> Option<(Seq<char>, nat)>
    decreases e,
{
    match e {
        RegExpr::If { cond, else_if } => {
            let r1 = reg_after_expr(r, *cond);
            match else_if {
                Some(b) => reg_after_expr(r1, *b),
                None => r1,
            }
        },
        RegExpr::ForLoop(p) => reg_after_pat(r, p),
        RegExpr::Let(ps) => reg_after_pats(r, ps@),
        RegExpr::Match(ps) => reg_after_pats(r, ps@),
        RegExpr::Block(Some(b)) => reg_after_expr(r, *b),
        RegExpr::Inner(b) => reg_after_expr(r, *b),
        RegExpr::Path(p) => reg_after_path(r, p),
        _ => r,
    }
}

/// `e2` is the expression `e` after it was seen with register `r`.
pub open spec fn reg_expr_out(r: Option<(Seq<char>, nat)>, e: RegExpr, e2: RegExpr) -> bool
    decreases e,
{
    match e {
        RegExpr::If { cond, else_if } => e2 matches RegExpr::If { cond: c2, else_if: ei2 } && reg_expr_out(r, *cond, *c2)
            && match else_if {
                Some(b) => ei2 matches Some(b2) && reg_expr_out(reg_after_expr(r, *cond), *b, *b2),
                None => ei2 is None,
            },
        RegExpr::ForLoop(p) => e2 matches RegExpr::ForLoop(p2) && reg_pat_out(r, p, p2),
        RegExpr::Let(ps) => e2 matches RegExpr::Let(ps2) && reg_pats_out(r, ps@, ps2@),
        RegExpr::Match(ps) => e2 matches RegExpr::Match(ps2) && reg_pats_out(r, ps@, ps2@),
        RegExpr::Block(Some(b)) => e2 matches RegExpr::Block(Some(b2)) && reg_expr_out(r, *b, *b2),
        RegExpr::Inner(b) => e2 matches RegExpr::Inner(b2) && reg_expr_out(r, *b, *b2),
        RegExpr::Path(p) => e2 matches RegExpr::Path(p2) && reg_path_out(r, p, p2),
        _ => e2 == e,
    }
}

/// Replaces, in the expression, the paths that apply.
pub fn replace_expr(expr: RegExpr, register: &mut Register) -> (r: RegExpr)
    ensures
        reg_view(*final(register)) == reg_after_expr(reg_view(*old(register)), expr),
        reg_expr_out(reg_view(*old(register)), expr, r),
    decreases expr, 1nat,
{
    match expr {
        RegExpr::If { cond, else_if } => expr_if(cond, else_if, register),
        RegExpr::ForLoop(p) => RegExpr::ForLoop(replace_pat(p, register)),
        RegExpr::Let(ps) => RegExpr::Let(replace_pats(ps, register)),
        RegExpr::Match(ps) => RegExpr::Match(replace_pats(ps, register)),
        RegExpr::Block(Some(b)) => RegExpr::Block(Some(Box::new(replace_expr(*b, register)))),
        RegExpr::Inner(b) => RegExpr::Inner(Box::new(replace_expr(*b, register))),
        RegExpr::Path(p) => RegExpr::Path(replace_path(p, register)),
        other => other,
    }
}

/// Replaces the paths in the condition of an `if`, then in the `if` of its
/// `else if`.
pub fn expr_if(cond: Box<RegExpr>, else_if: Option<Box<RegExpr>>, register: &mut Register) -> (r: RegExpr)
    ensures
        reg_view(*final(register)) == reg_after_expr(reg_view(*old(register)), (RegExpr::If { cond, else_if })),
        reg_expr_out(reg_view(*old(register)), (RegExpr::If { cond, else_if }), r),
    decreases (RegExpr::If { cond, else_if }), 0nat,
{
    let c2 = replace_expr(*cond, register);
    let e2 = match else_if {
        Some(b) => Some(Box::new(replace_expr(*b, register))),
        None => None,
    };
    RegExpr::If { cond: Box::new(c2), else_if: e2 }
}

/// A statement, as far as the replacement reads it.
pub enum RegStmt {
    Expr(RegExpr),
    /// A `let`: its patterns.
    Local(Vec<Pat>),
    /// A function: the statements of its body are rewritten one by one, by
    /// `visit_stmt`.
    ItemFn,
    Other,
}

/// `s2` is the statement `s` rewritten with a fresh register.
pub open spec fn stmt_out(s: RegStmt, s2: RegStmt) -> bool {
    match s {
        RegStmt::Expr(e) => s2 matches RegStmt::Expr(e2) && reg_expr_out(None, e, e2),
        RegStmt::Local(ps) => s2 matches RegStmt::Local(ps2) && reg_pats_out(None, ps@, ps2@),
        _ => s2 == s,
    }
}

/// Rewrites a statement marked `#[project]`, with a fresh register.
pub fn replace_stmt(stmt: RegStmt) -> (r: RegStmt)
    ensures
        stmt_out(stmt, r),
{
    match stmt {
        RegStmt::Expr(e) => {
            let mut reg = Register::default();
            RegStmt::Expr(replace_expr(e, &mut reg))
        },
        RegStmt::Local(ps) => {
            let mut reg = Register::default();
            RegStmt::Local(replace_local(ps, &mut reg))
        },
        other => other,
    }
}

/// Replaces the paths in the patterns of a `let`.
pub fn replace_local(pats: Vec<Pat>, register: &mut Register) -> (r: Vec<Pat>)
    ensures
        reg_view(*final(register)) == reg_after_pats(reg_view(*old(register)), pats@),
        reg_pats_out(reg_view(*old(register)), pats@, r@),
{
    replace_pats(pats, register)
}

/// Inside a function marked `#[project]`: a statement that carries the
/// attribute `#[project]` without arguments loses it and is rewritten.
/// Returns whether it carried it.
pub fn visit_stmt(attrs: &mut Vec<Attr>, stmt: RegStmt) -> (r: (bool, RegStmt))
    ensures
        match bare_position(old(attrs)@, "project"@) {
            Some(i) => r.0 && final(attrs)@ == old(attrs)@.remove(i) && stmt_out(stmt, r.1),
            None => !r.0 && final(attrs)@ == old(attrs)@ && r.1 == stmt,
        },
{
    match crate::pin_projectable::bare_attr(attrs, "project") {
        Some(i) => {
            attrs.remove(i);
            (true, replace_stmt(stmt))
        },
        None => (false, stmt),
    }
}

} // verus!
