//! The attribute `#[project]` (and `#[project_ref]`, `#[project_replace]`):
//! in patterns, the name of the original type is replaced by the name of
//! its projected type.
use vstd::prelude::*;

use crate::attrs::{duplicate_attr, find_spec, position};
use crate::error::{error_at, Diag, Error};
use crate::model::Attr;
use crate::names::{method_name_spec, proj_ident, proj_ident_spec, Mutability};
use crate::pinned_drop::PathShape;

use crate::validate::unit_view;

verus! {

broadcast use vstd::std_specs::vec::axiom_vec_decreases_to_view, vstd::std_specs::vec::axiom_vec_index_decreases;

/// A pattern, as far as the replacement reads it.
pub enum Pat {
    /// `ident` or `ident @ sub`.
    Ident { sub: Option<Box<Pat>> },
    /// `&pat`
    Reference(Box<Pat>),
    /// `box pat`
    Boxed(Box<Pat>),
    /// `pat: ty`
    Typed(Box<Pat>),
    /// `a | b | ...`
    Or(Vec<Pat>),
    /// `Path { .. }`
    Struct(PathShape),
    /// `Path(..)`
    TupleStruct(PathShape),
    /// A path, with or without a qualified self.
    Path { qself: bool, path: PathShape },
    /// Any other pattern.
    Other,
}

/// A `let` statement, as far as the replacement reads it.
pub struct LocalShape {
    pub attrs: Vec<Attr>,
    pub pat: Pat,
    pub pat_loc: usize,
    /// The patterns of the arms, when the initializer is a `match`.
    pub init_match: Option<Vec<Pat>>,
}

/// The message when both sides of a `let` could be replaced.
pub open spec fn ambiguity() -> Seq<char> {
    "Both initializer expression and pattern are replaceable, you need to split the initializer expression into separate let bindings to avoid ambiguity"@
}

/// The state after the initializer of a `let` was seen.
pub open spec fn ctx_after_init(c: CtxP, init: Option<Vec<Pat>>) -> CtxP {
    match init {
        Some(arms) => ctx_after_seq(c, arms@, true),
        None => c,
    }
}

/// `init2` is the initializer `init` after it was seen in state `c`.
pub open spec fn init_out(c: CtxP, init: Option<Vec<Pat>>, init2: Option<Vec<Pat>>) -> bool {
    match init {
        Some(arms) => init2 matches Some(arms2) && seq_out(c, arms@, true, arms2@),
        None => init2 is None,
    }
}

/// The result of the replacement in a `let` statement with these
/// attributes, pattern and initializer, from state `c`.
pub open spec fn local_result(c: CtxP, attrs: Seq<Attr>, pat: Pat, pat_loc: usize, init: Option<Vec<Pat>>) -> Result<(), Diag> {
    match find_spec(attrs, method_name_spec(c.mutability)) {
        Some(i) => Err(duplicate_attr(attrs[i].loc, method_name_spec(c.mutability))),
        None => if ctx_after_init(c, init).replaced && is_replaceable_spec(pat, false) {
            Err(Diag { loc: pat_loc, msg: ambiguity() })
        } else {
            Ok(())
        },
    }
}

/// The state `c2`, pattern `pat2` and initializer `init2` after the
/// replacement in a `let` statement, from state `c`.
pub open spec fn local_out(
    c: CtxP,
    attrs: Seq<Attr>,
    pat: Pat,
    init: Option<Vec<Pat>>,
    c2: CtxP,
    pat2: Pat,
    init2: Option<Vec<Pat>>,
) -> bool {
    match find_spec(attrs, method_name_spec(c.mutability)) {
        Some(_) => c2 == c && pat2 == pat && init2 == init,
        None => {
            let c1 = ctx_after_init(c, init);
            &&& init_out(c, init, init2)
            &&& if c1.replaced {
                c2 == c1 && pat2 == pat
            } else {
                c2 == ctx_after(c1, pat, false) && pat_out(c1, pat, false, pat2)
            }
        },
    }
}

/// The state of a replacement: the first path replaced (its first segment
/// and its length), and whether anything was replaced.
pub struct Context {
    pub register: Option<(String, usize)>,
    pub replaced: bool,
    pub mutability: Mutability,
}

/// The mathematical content of a [`Context`].
pub struct CtxP {
    pub register: Option<(Seq<char>, nat)>,
    pub replaced: bool,
    pub mutability: Mutability,
}

impl View for Context {
    type V = CtxP;

    open spec fn view(&self) -> CtxP {
        CtxP {
            register: match self.register {
                Some((s, l)) => Some((s@, l as nat)),
                None => None,
            },
            replaced: self.replaced,
            mutability: self.mutability,
        }
    }
}

/// The path is replaced: it has one segment (a struct) or two (an enum's
/// variant), and nothing was registered yet or it starts like the
/// registered path.
pub open spec fn path_applies(c: CtxP, p: PathShape) -> bool {
    let len = p.segments@.len();
    &&& len == 1 || len == 2
    &&& match c.register {
        None => true,
        Some((i, l)) => l == len && i == p.segments@[0].0@,
    }
}

/// The state after the path was seen.
pub open spec fn ctx_after_path(c: CtxP, p: PathShape) -> CtxP {
    if path_applies(c, p) {
        CtxP {
            register: match c.register {
                None => Some((p.segments@[0].0@, p.segments@.len())),
                Some(r) => Some(r),
            },
            replaced: true,
            mutability: c.mutability,
        }
    } else {
        c
    }
}

/// `p2` is the path `p` after it was seen in state `c`: when it applies, its
/// first segment names the projected type.
pub open spec fn path_out(c: CtxP, p: PathShape, p2: PathShape) -> bool {
    &&& p2.leading_colon == p.leading_colon
    &&& p2.segments@.len() == p.segments@.len()
    &&& forall|k: int| 1 <= k < p.segments@.len() ==> p2.segments@[k] == p.segments@[k]
    &&& p.segments@.len() > 0 ==> {
        &&& p2.segments@[0].1 == p.segments@[0].1
        &&& p2.segments@[0].0@ == if path_applies(c, p) {
            proj_ident_spec(p.segments@[0].0@, c.mutability)
        } else {
            p.segments@[0].0@
        }
    }
}

/// The state after the pattern was seen.
pub open spec fn ctx_after(c: CtxP, pat: Pat, allow_pat_path: bool) -> CtxP
    decreases pat, 0nat,
{
    match pat {
        Pat::Ident { sub: Some(b) } => ctx_after(c, *b, allow_pat_path),
        Pat::Reference(b) => ctx_after(c, *b, allow_pat_path),
        Pat::Boxed(b) => ctx_after(c, *b, allow_pat_path),
        Pat::Typed(b) => ctx_after(c, *b, allow_pat_path),
        Pat::Or(cases) => ctx_after_seq(c, cases@, allow_pat_path),
        Pat::Struct(p) => ctx_after_path(c, p),
        Pat::TupleStruct(p) => ctx_after_path(c, p),
        Pat::Path { qself, path } => if !qself && allow_pat_path { ctx_after_path(c, path) } else { c },
        _ => c,
    }
}

/// The state after the patterns were seen, in order.
pub open spec fn ctx_after_seq(c: CtxP, s: Seq<Pat>, allow_pat_path: bool) -> CtxP
    decreases s, s.len(),
{
    if s.len() == 0 {
        c
    } else {
        ctx_after(ctx_after_seq(c, s.subrange(0, s.len() - 1), allow_pat_path), s[s.len() - 1], allow_pat_path)
    }
}

/// `p2` is the pattern `p` after it was seen in state `c`.
pub open spec fn pat_out(c: CtxP, p: Pat, allow_pat_path: bool, p2: Pat) -> bool
    decreases p, 0nat,
{
    match p {
        Pat::Ident { sub: Some(b) } => p2 matches Pat::Ident { sub: Some(b2) } && pat_out(c, *b, allow_pat_path, *b2),
        Pat::Reference(b) => p2 matches Pat::Reference(b2) && pat_out(c, *b, allow_pat_path, *b2),
        Pat::Boxed(b) => p2 matches Pat::Boxed(b2) && pat_out(c, *b, allow_pat_path, *b2),
        Pat::Typed(b) => p2 matches Pat::Typed(b2) && pat_out(c, *b, allow_pat_path, *b2),
        Pat::Or(cases) => p2 matches Pat::Or(cases2) && seq_out(c, cases@, allow_pat_path, cases2@),
        Pat::Struct(path) => p2 matches Pat::Struct(path2) && path_out(c, path, path2),
        Pat::TupleStruct(path) => p2 matches Pat::TupleStruct(path2) && path_out(c, path, path2),
        Pat::Path { qself, path } => if !qself && allow_pat_path {
            p2 matches Pat::Path { qself: q2, path: path2 } && q2 == qself && path_out(c, path, path2)
        } else {
            p2 == p
        },
        _ => p2 == p,
    }
}

/// `s2` are the patterns `s` after they were seen, in order, from state `c`.
pub open spec fn seq_out(c: CtxP, s: Seq<Pat>, allow_pat_path: bool, s2: Seq<Pat>) -> bool
    decreases s, s.len(),
{
    &&& s2.len() == s.len()
    &&& s.len() > 0 ==> {
        &&& seq_out(c, s.subrange(0, s.len() - 1), allow_pat_path, s2.subrange(0, s2.len() - 1))
        &&& pat_out(ctx_after_seq(c, s.subrange(0, s.len() - 1), allow_pat_path), s[s.len() - 1], allow_pat_path, s2[s2.len() - 1])
    }
}

/// The pattern holds a path that a replacement could apply to.
pub open spec fn is_replaceable_spec(pat: Pat, allow_pat_path: bool) -> bool
    decreases pat, 0nat,
{
    match pat {
        Pat::Ident { sub: Some(b) } => is_replaceable_spec(*b, allow_pat_path),
        Pat::Reference(b) => is_replaceable_spec(*b, allow_pat_path),
        Pat::Boxed(b) => is_replaceable_spec(*b, allow_pat_path),
        Pat::Typed(b) => is_replaceable_spec(*b, allow_pat_path),
        Pat::Or(cases) => any_replaceable(cases@, allow_pat_path),
        Pat::Struct(_) => true,
        Pat::TupleStruct(_) => true,
        Pat::Path { qself, .. } => !qself && allow_pat_path,
        _ => false,
    }
}

/// Some of the patterns is replaceable.
pub open spec fn any_replaceable(s: Seq<Pat>, allow_pat_path: bool) -> bool
    decreases s, s.len(),
{
    if s.len() == 0 {
        false
    } else {
        any_replaceable(s.subrange(0, s.len() - 1), allow_pat_path) || is_replaceable_spec(s[s.len() - 1], allow_pat_path)
    }
}

/// Whether the pattern holds a path that a replacement could apply to.
pub fn is_replaceable(pat: &Pat, allow_pat_path: bool) -> (b: bool)
    ensures
        b == is_replaceable_spec(*pat, allow_pat_path),
    decreases pat, 0nat,
{
    match pat {
        Pat::Ident { sub: Some(b) } => is_replaceable(b, allow_pat_path),
        Pat::Ident { sub: None } => false,
        Pat::Reference(b) => is_replaceable(b, allow_pat_path),
        Pat::Boxed(b) => is_replaceable(b, allow_pat_path),
        Pat::Typed(b) => is_replaceable(b, allow_pat_path),
        Pat::Or(cases) => any_case_replaceable(cases, allow_pat_path),
        Pat::Struct(_) => true,
        Pat::TupleStruct(_) => true,
        Pat::Path { qself, .. } => !*qself && allow_pat_path,
        Pat::Other => false,
    }
}

/// Whether some of the patterns is replaceable.
fn any_case_replaceable(cases: &Vec<Pat>, allow_pat_path: bool) -> (b: bool)
    ensures
        b == any_replaceable(cases@, allow_pat_path),
    decreases cases@, cases@.len() + 1,
{
    let mut any = false;
    let mut i: usize = 0;
    while i < cases.len()
        invariant
            i <= cases@.len(),
            any == any_replaceable(cases@.subrange(0, i as int), allow_pat_path),
        decreases cases@.len() - i,
    {
        assert(cases@.subrange(0, i + 1).subrange(0, i as int) =~= cases@.subrange(0, i as int));
        assert(decreases_to!(cases@ => cases@[i as int]));
        let here = is_replaceable(&cases[i], allow_pat_path);
        any = any || here;
        i = i + 1;
    }
    assert(cases@.subrange(0, i as int) =~= cases@);
    any
}

impl Context {
    /// A fresh state for the projection `mutability`.
    pub fn new(mutability: Mutability) -> (r: Context)
        ensures
            r@ == (CtxP { register: None, replaced: false, mutability }),
    {
        Context { register: None, replaced: false, mutability }
    }

    /// Registers the path that starts with `ident` and has `len` segments,
    /// unless one is registered already.
    pub fn update(&mut self, ident: &String, len: usize)
        ensures
            final(self)@ == (CtxP {
                register: match old(self)@.register {
                    None => Some((ident@, len as nat)),
                    Some(r) => Some(r),
                },
                ..old(self)@
            }),
    {
        if self.register.is_none() {
            self.register = Some((ident.clone(), len));
        }
    }

    /// Whether the registered path starts with `ident` and has `len` segments.
    pub fn compare_paths(&self, ident: &String, len: usize) -> (b: bool)
        ensures
            b == (self@.register matches Some((i, l)) && l == len && i == ident@),
    {
        match &self.register {
            Some((i, l)) => *l == len && *i == *ident,
            None => false,
        }
    }

    /// Replaces the first segment of the path by the projected type's name,
    /// when the path applies.
    pub fn replace_path(&mut self, path: PathShape) -> (r: PathShape)
        ensures
            final(self)@ == ctx_after_path(old(self)@, path),
            path_out(old(self)@, path, r),
    {
        let ghost p0 = path;
        let len = path.segments.len();
        if len != 1 && len != 2 {
            return path;
        }
        let first = path.segments[0].0.clone();
        if self.register.is_none() || self.compare_paths(&first, len) {
            self.update(&first, len);
            self.replaced = true;
            let mut path = path;
            let (name, args) = path.segments.remove(0);
            let new_name = proj_ident(&name, self.mutability);
            path.segments.insert(0, (new_name, args));
            assert(path.segments@.subrange(1, len as int) =~= p0.segments@.subrange(1, len as int));
            path
        } else {
            path
        }
    }

    /// Replaces, in the pattern, the paths that apply.
    pub fn replace_pat(&mut self, pat: Pat, allow_pat_path: bool) -> (r: Pat)
        ensures
            final(self)@ == ctx_after(old(self)@, pat, allow_pat_path),
            pat_out(old(self)@, pat, allow_pat_path, r),
        decreases pat, 0nat,
    {
        match pat {
            Pat::Ident { sub: Some(b) } => Pat::Ident { sub: Some(Box::new(self.replace_pat(*b, allow_pat_path))) },
            Pat::Reference(b) => Pat::Reference(Box::new(self.replace_pat(*b, allow_pat_path))),
            Pat::Boxed(b) => Pat::Boxed(Box::new(self.replace_pat(*b, allow_pat_path))),
            Pat::Typed(b) => Pat::Typed(Box::new(self.replace_pat(*b, allow_pat_path))),
            Pat::Or(cases) => Pat::Or(self.replace_pats(cases, allow_pat_path)),
            Pat::Struct(p) => Pat::Struct(self.replace_path(p)),
            Pat::TupleStruct(p) => Pat::TupleStruct(self.replace_path(p)),
            Pat::Path { qself, path } => {
                if !qself && allow_pat_path {
                    Pat::Path { qself, path: self.replace_path(path) }
                } else {
                    Pat::Path { qself, path }
                }
            },
            other => other,
        }
    }

    /// Replaces, in the arms of a `match`, the paths that apply; a path
    /// alone is a pattern that may be replaced there.
    pub fn replace_expr_match(&mut self, arms: Vec<Pat>) -> (r: Vec<Pat>)
        ensures
            final(self)@ == ctx_after_seq(old(self)@, arms@, true),
            seq_out(old(self)@, arms@, true, r@),
    {
        self.replace_pats(arms, true)
    }

    /// Replaces, in the pattern of an `if let`, the paths that apply.
    pub fn replace_expr_let(&mut self, pat: Pat) -> (r: Pat)
        ensures
            final(self)@ == ctx_after(old(self)@, pat, true),
            pat_out(old(self)@, pat, true, r),
    {
        self.replace_pat(pat, true)
    }

    /// Replaces the paths in a `let` statement: in the arms of its
    /// initializer when that is a `match`, else in its pattern. A `let`
    /// whose initializer replaced something and whose pattern could be
    /// replaced too is refused as ambiguous.
    pub fn replace_local(&mut self, local: &mut LocalShape) -> (r: Result<(), Error>)
        ensures
            unit_view(r) == local_result(old(self)@, old(local).attrs@, old(local).pat, old(local).pat_loc, old(local).init_match),
            local_out(old(self)@, old(local).attrs@, old(local).pat, old(local).init_match, final(self)@, final(local).pat, final(local).init_match),
            final(local).attrs == old(local).attrs,
            final(local).pat_loc == old(local).pat_loc,
    {
        let name = self.mutability.method_name();
        match position(&local.attrs, name) {
            Some(i) => {
                let mut msg = String::from_str("duplicate #[");
                msg.append(name);
                msg.append("] attribute");
                return Err(Error { loc: local.attrs[i].loc, msg });
            },
            None => {},
        }
        let mut init: Option<Vec<Pat>> = None;
        std::mem::swap(&mut init, &mut local.init_match);
        match init {
            Some(arms) => {
                local.init_match = Some(self.replace_expr_match(arms));
            },
            None => {},
        }
        if self.replaced {
            if is_replaceable(&local.pat, false) {
                return Err(error_at(local.pat_loc, "Both initializer expression and pattern are replaceable, you need to split the initializer expression into separate let bindings to avoid ambiguity"));
            }
        } else {
            let mut pat = Pat::Other;
            std::mem::swap(&mut pat, &mut local.pat);
            local.pat = self.replace_pat(pat, false);
        }
        Ok(())
    }

    /// Replaces, in each pattern in order, the paths that apply.
    pub fn replace_pats(&mut self, pats: Vec<Pat>, allow_pat_path: bool) -> (r: Vec<Pat>)
        ensures
            final(self)@ == ctx_after_seq(old(self)@, pats@, allow_pat_path),
            seq_out(old(self)@, pats@, allow_pat_path, r@),
        decreases pats@, pats@.len() + 1,
    {
        let ghost orig = pats@;
        let ghost c0 = self@;
        let mut rest = pats;
        let mut out: Vec<Pat> = Vec::new();
        let ghost mut n: int = 0;
        while rest.len() > 0
            invariant
                orig == pats@,
                0 <= n <= orig.len(),
                orig.len() == n + rest@.len(),
                rest@ == orig.subrange(n, orig.len() as int),
                self@ == ctx_after_seq(c0, orig.subrange(0, n), allow_pat_path),
                seq_out(c0, orig.subrange(0, n), allow_pat_path, out@),
            decreases rest@.len(),
        {
            let p = rest.remove(0);
            assert(p == orig[n]);
            assert(decreases_to!(orig => p));
            let q = self.replace_pat(p, allow_pat_path);
            let ghost prev = out@;
            out.push(q);
            proof {
                let a = orig.subrange(0, n + 1);
                assert(a.subrange(0, a.len() - 1) =~= orig.subrange(0, n));
                assert(out@.subrange(0, out@.len() - 1) =~= prev);
                assert(a[a.len() - 1] == orig[n]);
                n = n + 1;
                assert(rest@ =~= orig.subrange(n, orig.len() as int));
            }
        }
        assert(orig.subrange(0, n) =~= orig);
        out
    }
}

/// Once something was replaced, it stays replaced; and something is
/// replaced only in a pattern that is replaceable.
pub proof fn lemma_replaced_only_if_replaceable(c: CtxP, pat: Pat, allow_pat_path: bool)
    ensures
        c.replaced ==> ctx_after(c, pat, allow_pat_path).replaced,
        !c.replaced && ctx_after(c, pat, allow_pat_path).replaced ==> is_replaceable_spec(pat, allow_pat_path),
        ctx_after(c, pat, allow_pat_path).mutability == c.mutability,
    decreases pat, 0nat,
{
    match pat {
        Pat::Ident { sub: Some(b) } => lemma_replaced_only_if_replaceable(c, *b, allow_pat_path),
        Pat::Reference(b) => lemma_replaced_only_if_replaceable(c, *b, allow_pat_path),
        Pat::Boxed(b) => lemma_replaced_only_if_replaceable(c, *b, allow_pat_path),
        Pat::Typed(b) => lemma_replaced_only_if_replaceable(c, *b, allow_pat_path),
        Pat::Or(cases) => lemma_replaced_seq(c, cases@, allow_pat_path),
        _ => {},
    }
}

proof fn lemma_replaced_seq(c: CtxP, s: Seq<Pat>, allow_pat_path: bool)
    ensures
        c.replaced ==> ctx_after_seq(c, s, allow_pat_path).replaced,
        !c.replaced && ctx_after_seq(c, s, allow_pat_path).replaced ==> any_replaceable(s, allow_pat_path),
        ctx_after_seq(c, s, allow_pat_path).mutability == c.mutability,
    decreases s, s.len(),
{
    if s.len() > 0 {
        let init = s.subrange(0, s.len() - 1);
        lemma_replaced_seq(c, init, allow_pat_path);
        lemma_replaced_only_if_replaceable(ctx_after_seq(c, init, allow_pat_path), s[s.len() - 1], allow_pat_path);
    }
}

} // verus!
