//! The statements and items `#[project]` (and `#[project_ref]`,
//! `#[project_replace]`) applies to: an expression, a `let`, a function, an
//! impl block of the original type, a `use` item.
use vstd::prelude::*;

use crate::attrs::{duplicate_attr, find_spec, parse_as_empty, position, unexpected_tokens};
use crate::error::{Diag, Error};
use crate::model::{Attr, GenericParam, Generics};
use crate::names::{determine_lifetime_name, fresh_lifetime, insert_lifetime, lifetime_names, method_name_spec, proj_ident, proj_ident_spec, Mutability};
use crate::project::{local_out, local_result, Context, LocalShape};
use crate::project_fn::{expr_out, fresh, replace_expr, ExprShape};
use crate::text::views;
use crate::tokens::TokenTree;

verus! {

broadcast use vstd::std_specs::vec::axiom_vec_decreases_to_view, vstd::std_specs::vec::axiom_vec_index_decreases;

/// The error for an item that already carries the attribute.
fn duplicate_error(attrs: &Vec<Attr>, m: Mutability) -> (r: Option<Error>)
    ensures
        match find_spec(attrs@, method_name_spec(m)) {
            Some(i) => r matches Some(e) && e@ == duplicate_attr(attrs@[i].loc, method_name_spec(m)),
            None => r is None,
        },
{
    let name = m.method_name();
    match position(attrs, name) {
        Some(i) => {
            let mut msg = String::from_str("duplicate #[");
            msg.append(name);
            msg.append("] attribute");
            Some(Error { loc: attrs[i].loc, msg })
        },
        None => None,
    }
}

/// The arguments of the last segment of a path.
pub enum PathArgs {
    Bare,
    /// `<...>`, by the text of each argument.
    Angle(Vec<String>),
    /// `(...) -> ...`
    Parenthesized,
}

/// An impl block, as far as the replacement reads it.
pub struct ImplTarget {
    pub attrs: Vec<Attr>,
    /// The last segment of the self type, when that is a path without a
    /// qualified self: its name and arguments.
    pub self_last: Option<(String, PathArgs)>,
    pub generics: Generics,
    /// The generic parameters of each method of the block, in order.
    pub method_params: Vec<Vec<GenericParam>>,
}

/// The lifetime of the projected type in an impl block: fresh in the
/// block's parameters, then in each method's, in turn.
pub open spec fn impl_lifetime(base: Seq<char>, params: Seq<GenericParam>, methods: Seq<Vec<GenericParam>>) -> Seq<char>
    decreases methods.len(),
{
    if methods.len() == 0 {
        fresh_lifetime(base, lifetime_names(params))
    } else {
        fresh_lifetime(impl_lifetime(base, params, methods.drop_last()), lifetime_names(methods.last()@))
    }
}

/// The texts of the arguments of a path segment, before the lifetime is put in front.
pub open spec fn arg_texts(args: PathArgs) -> Seq<Seq<char>> {
    match args {
        PathArgs::Angle(a) => views(a@),
        _ => Seq::empty(),
    }
}

/// The impl block carries the attribute already.
pub open spec fn impl_duplicate(item: ImplTarget, m: Mutability) -> bool {
    find_spec(item.attrs@, method_name_spec(m)) is Some
}

/// `item2` is the impl block `item` rewritten for the projection `m`: the
/// self type names the projected type, with the lifetime as its first
/// argument, and the lifetime is the block's first parameter.
pub open spec fn impl_out(item: ImplTarget, m: Mutability, item2: ImplTarget) -> bool {
    match item.self_last {
        None => item2 == item,
        Some((name, args)) => {
            let lt = impl_lifetime("'pin"@, item.generics.params@, item.method_params@);
            &&& item2.attrs == item.attrs
            &&& item2.method_params == item.method_params
            &&& item2.generics.where_clause == item.generics.where_clause
            &&& item2.generics.params@.len() == item.generics.params@.len() + 1
            &&& item2.generics.params@[0] matches GenericParam::Lifetime { name: l, bounds }
                && l@ == lt && bounds@ == Seq::<char>::empty()
            &&& item2.generics.params@.subrange(1, item2.generics.params@.len() as int) == item.generics.params@
            &&& item2.self_last matches Some((name2, PathArgs::Angle(args2)))
                && name2@ == proj_ident_spec(name@, m)
                && views(args2@) == seq![lt] + arg_texts(args)
        },
    }
}

/// Rewrites an impl block of the original type into one of the projected
/// type.
pub fn replace_item_impl(item: &mut ImplTarget, m: Mutability) -> (r: Result<(), Error>)
    requires
        !(!impl_duplicate(*old(item), m) && old(item).self_last matches Some((_, PathArgs::Parenthesized))),
    ensures
        match find_spec(old(item).attrs@, method_name_spec(m)) {
            Some(i) => r matches Err(e) && e@ == duplicate_attr(old(item).attrs@[i].loc, method_name_spec(m))
                && *final(item) == *old(item),
            None => r is Ok && impl_out(*old(item), m, *final(item)),
        },
{
    match duplicate_error(&item.attrs, m) {
        Some(e) => return Err(e),
        None => {},
    }
    let mut last: Option<(String, PathArgs)> = None;
    std::mem::swap(&mut last, &mut item.self_last);
    let (name, args) = match last {
        None => {
            item.self_last = None;
            return Ok(());
        },
        Some(pair) => pair,
    };
    let ghost methods = item.method_params@;
    let mut lifetime = String::from_str("'pin");
    determine_lifetime_name(&mut lifetime, &item.generics.params);
    let mut k: usize = 0;
    while k < item.method_params.len()
        invariant
            k <= methods.len(),
            methods == item.method_params@,
            lifetime@ == impl_lifetime("'pin"@, item.generics.params@, methods.subrange(0, k as int)),
        decreases methods.len() - k,
    {
        assert(methods.subrange(0, k + 1).drop_last() =~= methods.subrange(0, k as int));
        determine_lifetime_name(&mut lifetime, &item.method_params[k]);
        k = k + 1;
    }
    assert(methods.subrange(0, k as int) =~= methods);
    let new_args = match args {
        PathArgs::Bare => {
            let mut v: Vec<String> = Vec::new();
            v.push(lifetime.clone());
            assert(views(v@) =~= seq![lifetime@] + arg_texts(PathArgs::Bare));
            v
        },
        PathArgs::Angle(a) => {
            let ghost old_a = a@;
            let mut a = a;
            a.insert(0, lifetime.clone());
            assert(views(a@) =~= seq![lifetime@] + views(old_a));
            a
        },
        PathArgs::Parenthesized => {
            assert(false);
            Vec::new()
        },
    };
    item.self_last = Some((proj_ident(&name, m), PathArgs::Angle(new_args)));
    insert_lifetime(&mut item.generics, lifetime);
    Ok(())
}

/// A tree of a `use` item.
pub enum UseTreeShape {
    /// `segment::tree`: the segment is kept.
    Path(Box<UseTreeShape>),
    /// An imported name.
    Name(String),
    /// `name as rename`, and where it stands.
    Rename(usize),
    /// `*`, and where it stands.
    Glob(usize),
    /// `{a, b, ...}`
    Group(Vec<UseTreeShape>),
}

/// The message for a glob import.
pub open spec fn glob_error(loc: usize, m: Mutability) -> Diag {
    Diag { loc, msg: "#["@ + method_name_spec(m) + "] attribute may not be used on glob imports"@ }
}

/// The message for a renamed import.
pub open spec fn rename_error(loc: usize, m: Mutability) -> Diag {
    Diag { loc, msg: "#["@ + method_name_spec(m) + "] attribute may not be used on renamed imports"@ }
}

/// The first glob or renamed import in the tree, in order.
pub open spec fn use_error(t: UseTreeShape, m: Mutability) -> Option<Diag>
    decreases t, 0nat,
{
    match t {
        UseTreeShape::Path(b) => use_error(*b, m),
        UseTreeShape::Name(_) => None,
        UseTreeShape::Rename(loc) => Some(rename_error(loc, m)),
        UseTreeShape::Glob(loc) => Some(glob_error(loc, m)),
        UseTreeShape::Group(v) => use_error_seq(v@, m),
    }
}

/// The first glob or renamed import in the trees, in order.
pub open spec fn use_error_seq(s: Seq<UseTreeShape>, m: Mutability) -> Option<Diag>
    decreases s, s.len(),
{
    if s.len() == 0 {
        None
    } else {
        match use_error_seq(s.drop_last(), m) {
            Some(d) => Some(d),
            None => use_error(s.last(), m),
        }
    }
}

/// `t2` is the tree `t` in which each imported name is that of the
/// projected type.
pub open spec fn use_out(t: UseTreeShape, m: Mutability, t2: UseTreeShape) -> bool
    decreases t, 0nat,
{
    match t {
        UseTreeShape::Path(b) => t2 matches UseTreeShape::Path(b2) && use_out(*b, m, *b2),
        UseTreeShape::Name(n) => t2 matches UseTreeShape::Name(n2) && n2@ == proj_ident_spec(n@, m),
        UseTreeShape::Group(v) => t2 matches UseTreeShape::Group(v2) && use_out_seq(v@, m, v2@),
        _ => t2 == t,
    }
}

/// Each tree of `s2` is that of `s` with the names replaced.
pub open spec fn use_out_seq(s: Seq<UseTreeShape>, m: Mutability, s2: Seq<UseTreeShape>) -> bool
    decreases s, s.len(),
{
    &&& s2.len() == s.len()
    &&& s.len() > 0 ==> use_out_seq(s.drop_last(), m, s2.drop_last()) && use_out(s.last(), m, s2.last())
}

/// Replaces each imported name by that of the projected type; a glob or a
/// renamed import is an error.
pub fn replace_use_tree(t: UseTreeShape, m: Mutability) -> (r: Result<UseTreeShape, Error>)
    ensures
        match use_error(t, m) {
            Some(d) => r matches Err(e) && e@ == d,
            None => r matches Ok(t2) && use_out(t, m, t2),
        },
    decreases t, 0nat,
{
    match t {
        UseTreeShape::Path(b) => match replace_use_tree(*b, m) {
            Err(e) => Err(e),
            Ok(t2) => Ok(UseTreeShape::Path(Box::new(t2))),
        },
        UseTreeShape::Name(n) => Ok(UseTreeShape::Name(proj_ident(&n, m))),
        UseTreeShape::Rename(loc) => {
            let mut msg = String::from_str("#[");
            msg.append(m.method_name());
            msg.append("] attribute may not be used on renamed imports");
            Err(Error { loc, msg })
        },
        UseTreeShape::Glob(loc) => {
            let mut msg = String::from_str("#[");
            msg.append(m.method_name());
            msg.append("] attribute may not be used on glob imports");
            Err(Error { loc, msg })
        },
        UseTreeShape::Group(v) => match replace_use_trees(v, m) {
            Err(e) => Err(e),
            Ok(v2) => Ok(UseTreeShape::Group(v2)),
        },
    }
}

/// Replaces the imported names in each tree, in order.
fn replace_use_trees(v: Vec<UseTreeShape>, m: Mutability) -> (r: Result<Vec<UseTreeShape>, Error>)
    ensures
        match use_error_seq(v@, m) {
            Some(d) => r matches Err(e) && e@ == d,
            None => r matches Ok(v2) && use_out_seq(v@, m, v2@),
        },
    decreases v@, v@.len() + 1,
{
    let ghost orig = v@;
    let mut rest = v;
    let mut out: Vec<UseTreeShape> = Vec::new();
    while rest.len() > 0
        invariant
            orig == v@,
            out@.len() + rest@.len() == orig.len(),
            rest@ == orig.subrange(out@.len() as int, orig.len() as int),
            use_error_seq(orig.subrange(0, out@.len() as int), m) is None,
            use_out_seq(orig.subrange(0, out@.len() as int), m, out@),
        decreases rest@.len(),
    {
        let ghost n = out@.len() as int;
        let t = rest.remove(0);
        assert(t == orig[n]);
        assert(decreases_to!(orig => t));
        let ghost pre = orig.subrange(0, n + 1);
        assert(pre.drop_last() =~= orig.subrange(0, n));
        assert(pre.last() == t);
        match replace_use_tree(t, m) {
            Err(e) => {
                proof { lemma_use_error_sticks(orig, n + 1, m); }
                return Err(e);
            },
            Ok(t2) => {
                let ghost prev = out@;
                out.push(t2);
                assert(out@.drop_last() =~= prev);
                assert(rest@ =~= orig.subrange(out@.len() as int, orig.len() as int));
            },
        }
    }
    assert(orig.subrange(0, out@.len() as int) =~= orig);
    Ok(out)
}

proof fn lemma_use_error_sticks(s: Seq<UseTreeShape>, k: int, m: Mutability)
    requires
        0 <= k <= s.len(),
        use_error_seq(s.subrange(0, k), m) is Some,
    ensures
        use_error_seq(s, m) == use_error_seq(s.subrange(0, k), m),
    decreases s.len(),
{
    if k == s.len() {
        assert(s.subrange(0, k) =~= s);
    } else {
        assert(s.drop_last().subrange(0, k) =~= s.subrange(0, k));
        lemma_use_error_sticks(s.drop_last(), k, m);
    }
}

/// A statement marked with the attribute, as far as the replacement reads it.
pub enum StmtShape {
    Expr(ExprShape),
    Local(LocalShape),
    /// A function, by its attributes: the statements of its body are
    /// rewritten one by one, by `visit_local` and `visit_expr`.
    ItemFn(Vec<Attr>),
    ItemImpl(ImplTarget),
    ItemUse { attrs: Vec<Attr>, tree: UseTreeShape },
    Other,
}

/// The statement can be rewritten: an impl block's self type is not a
/// path with parenthesized arguments.
pub open spec fn stmt_defined(stmt: StmtShape, m: Mutability) -> bool {
    match stmt {
        StmtShape::ItemImpl(item) => !(!impl_duplicate(item, m) && item.self_last matches Some((_, PathArgs::Parenthesized))),
        _ => true,
    }
}

/// What the rewrite of a statement for the projection `m` gives.
pub open spec fn stmt_out(stmt: StmtShape, m: Mutability, r: Result<StmtShape, Diag>) -> bool {
    match stmt {
        StmtShape::Expr(e) => r matches Ok(StmtShape::Expr(e2)) && expr_out(e, m, e2),
        StmtShape::Local(l) => match local_result(fresh(m), l.attrs@, l.pat, l.pat_loc, l.init_match) {
            Err(d) => r == Err::<StmtShape, Diag>(d),
            Ok(_) => r matches Ok(StmtShape::Local(l2)) && l2.attrs == l.attrs && l2.pat_loc == l.pat_loc
                && exists|c2| #[trigger] local_out(fresh(m), l.attrs@, l.pat, l.init_match, c2, l2.pat, l2.init_match),
        },
        StmtShape::ItemFn(attrs) => match find_spec(attrs@, method_name_spec(m)) {
            Some(i) => r == Err::<StmtShape, Diag>(duplicate_attr(attrs@[i].loc, method_name_spec(m))),
            None => r == Ok::<StmtShape, Diag>(stmt),
        },
        StmtShape::ItemImpl(item) => match find_spec(item.attrs@, method_name_spec(m)) {
            Some(i) => r == Err::<StmtShape, Diag>(duplicate_attr(item.attrs@[i].loc, method_name_spec(m))),
            None => r matches Ok(StmtShape::ItemImpl(item2)) && impl_out(item, m, item2),
        },
        StmtShape::ItemUse { attrs, tree } => match find_spec(attrs@, method_name_spec(m)) {
            Some(i) => r == Err::<StmtShape, Diag>(duplicate_attr(attrs@[i].loc, method_name_spec(m))),
            None => match use_error(tree, m) {
                Some(d) => r == Err::<StmtShape, Diag>(d),
                None => r matches Ok(StmtShape::ItemUse { attrs: a2, tree: t2 }) && a2 == attrs && use_out(tree, m, t2),
            },
        },
        StmtShape::Other => r == Ok::<StmtShape, Diag>(stmt),
    }
}

/// The mathematical content of the result of a rewrite.
pub open spec fn stmt_view(r: Result<StmtShape, Error>) -> Result<StmtShape, Diag> {
    match r {
        Ok(s) => Ok(s),
        Err(e) => Err(e@),
    }
}

/// Rewrites the statement marked with the attribute of the projection `m`.
pub fn parse(stmt: StmtShape, m: Mutability) -> (r: Result<StmtShape, Error>)
    requires
        stmt_defined(stmt, m),
    ensures
        stmt_out(stmt, m, stmt_view(r)),
{
    match stmt {
        StmtShape::Expr(e) => Ok(StmtShape::Expr(replace_expr(e, m))),
        StmtShape::Local(l) => {
            let mut l = l;
            let mut ctx = Context::new(m);
            match ctx.replace_local(&mut l) {
                Err(e) => Err(e),
                Ok(()) => Ok(StmtShape::Local(l)),
            }
        },
        StmtShape::ItemFn(attrs) => match duplicate_error(&attrs, m) {
            Some(e) => Err(e),
            None => Ok(StmtShape::ItemFn(attrs)),
        },
        StmtShape::ItemImpl(item) => {
            let mut item = item;
            match replace_item_impl(&mut item, m) {
                Err(e) => Err(e),
                Ok(()) => Ok(StmtShape::ItemImpl(item)),
            }
        },
        StmtShape::ItemUse { attrs, tree } => match duplicate_error(&attrs, m) {
            Some(e) => Err(e),
            None => match replace_use_tree(tree, m) {
                Err(e) => Err(e),
                Ok(t2) => Ok(StmtShape::ItemUse { attrs, tree: t2 }),
            },
        },
        StmtShape::Other => Ok(StmtShape::Other),
    }
}

/// `#[project]` (and `#[project_ref]`, `#[project_replace]`): takes no
/// arguments, and rewrites the statement it is applied to.
pub fn attribute(args: &Vec<TokenTree>, stmt: StmtShape, m: Mutability) -> (r: Result<StmtShape, Error>)
    requires
        args@.len() > 0 || stmt_defined(stmt, m),
    ensures
        args@.len() > 0 ==> (r matches Err(e) && e@ == unexpected_tokens(args@)),
        args@.len() == 0 ==> stmt_out(stmt, m, stmt_view(r)),
{
    match parse_as_empty(args) {
        Err(e) => Err(e),
        Ok(()) => parse(stmt, m),
    }
}

} // verus!
