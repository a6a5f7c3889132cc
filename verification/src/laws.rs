//! Properties of the expansion that hold for every input.
use vstd::prelude::*;

use crate::attrs::{is_ident, position_exact_spec};
use crate::project_fn::{
    marked_from, node_out, node_result, node_same, rest_result, scan_order, selection, visit_local_result, walk_result, ExprShape, WalkNode,
};
use crate::names::method_name_spec;
use crate::error::Diag;
use crate::model::{Attr, Field};
use crate::project_fields::pin_flags;
use crate::args::{arg_at, parse_args_from, parse_args_spec, parse_pin_args_spec, private_args, Args, Dialect};
use crate::names::{
    clashes, fresh_lifetime, is_fresh_lifetime, proj_ident_spec, proj_suffix, underscore_self, underscores, Mutability,
};
use crate::project_items::impl_lifetime;
use crate::model::GenericParam;
use crate::names::lifetime_names;
use crate::project::{ctx_after, ctx_after_seq, CtxP, Pat};
use crate::project_stmt::{reg_after_expr, reg_after_pat, reg_after_pats, RegExpr};
use crate::text::is_prefix;
use crate::tokens::{stream_contains_fn, stream_folded, tree_contains_fn, tree_folded, TokenTree};

verus! {

broadcast use vstd::std_specs::vec::axiom_vec_decreases_to_view, vstd::std_specs::vec::axiom_vec_index_decreases;

spec fn longest(lts: Seq<Seq<char>>) -> nat
    decreases lts.len(),
{
    if lts.len() == 0 {
        0
    } else {
        let m = longest(lts.drop_last());
        if lts.last().len() > m { lts.last().len() } else { m }
    }
}

proof fn lemma_longest(lts: Seq<Seq<char>>, i: int)
    requires
        0 <= i < lts.len(),
    ensures
        lts[i].len() <= longest(lts),
    decreases lts.len(),
{
    if i < lts.len() - 1 {
        lemma_longest(lts.drop_last(), i);
    }
}

proof fn lemma_first_free(base: Seq<char>, lts: Seq<Seq<char>>, j: nat, k: nat)
    requires
        j <= k,
        !clashes(base + underscores(k), lts),
        forall|i: nat| i < j ==> clashes(base + #[trigger] underscores(i), lts),
    ensures
        exists|name: Seq<char>| is_fresh_lifetime(name, base, lts),
    decreases k - j,
{
    if !clashes(base + underscores(j), lts) {
        assert(is_fresh_lifetime(base + underscores(j), base, lts));
    } else {
        assert forall|i: nat| i < j + 1 implies clashes(base + #[trigger] underscores(i), lts) by {
            if i == j {
            } else {
                assert(i < j);
            }
        }
        lemma_first_free(base, lts, j + 1, k);
    }
}

/// The lifetime given to a projected type exists and is fresh: the base
/// name followed by the fewest underscores that make it the prefix of no
/// lifetime of the original type. In particular it is none of them.
pub proof fn law_fresh_lifetime(base: Seq<char>, lts: Seq<Seq<char>>)
    ensures
        is_fresh_lifetime(fresh_lifetime(base, lts), base, lts),
        forall|i: int| 0 <= i < lts.len() ==> lts[i] != fresh_lifetime(base, lts),
{
    let k = longest(lts) + 1;
    assert forall|i: int| 0 <= i < lts.len() implies !is_prefix(base + underscores(k), #[trigger] lts[i]) by {
        lemma_longest(lts, i);
    }
    lemma_first_free(base, lts, 0, k);
    let name = fresh_lifetime(base, lts);
    assert forall|i: int| 0 <= i < lts.len() implies lts[i] != name by {
        if lts[i] == name {
            assert(lts[i].subrange(0, name.len() as int) =~= name);
            assert(is_prefix(name, lts[i]));
        }
    }
}

/// Each projection of a type has its own name: the projected types of two
/// types, for two projections, have the same name only when the types and
/// the projections are the same.
pub proof fn law_projected_names_distinct(a: Seq<char>, b: Seq<char>, m1: Mutability, m2: Mutability)
    requires
        proj_ident_spec(a, m1) == proj_ident_spec(b, m2),
    ensures
        a == b,
        m1 == m2,
{
    reveal_strlit("");
    reveal_strlit("Ref");
    reveal_strlit("Owned");
    reveal_strlit("__");
    reveal_strlit("Projection");
    let x = proj_ident_spec(a, m1);
    let s1 = proj_suffix(m1);
    let s2 = proj_suffix(m2);
    if s1.len() == s2.len() {
        assert(m1 == m2) by {
            if m1 != m2 {
                assert(s1.len() != s2.len());
            }
        }
        assert(x.len() == 2 + a.len() + 10 + s1.len());
        assert(x.len() == 2 + b.len() + 10 + s2.len());
        assert(a.len() == b.len());
        assert(a =~= x.subrange(2, 2 + a.len() as int));
        assert(b =~= x.subrange(2, 2 + b.len() as int));
    } else {
        // The text after the name ends with `Projection` followed by the
        // suffix; two different suffixes cannot close the same text.
        let n = x.len();
        if s1.len() == 0 {
            assert(x[n - 1] == 'n');
            if m2 == Mutability::Immutable {
                assert(x[n - 1] == 'f');
            } else {
                assert(x[n - 1] == 'd');
            }
        } else if s2.len() == 0 {
            assert(x[n - 1] == 'n');
            if m1 == Mutability::Immutable {
                assert(x[n - 1] == 'f');
            } else {
                assert(x[n - 1] == 'd');
            }
        } else {
            assert(x[n - 1] == 'f' || x[n - 1] == 'd');
            if m1 == Mutability::Immutable {
                assert(x[n - 1] == 'f');
                assert(x[n - 1] == 'd');
            } else {
                assert(x[n - 1] == 'd');
                assert(x[n - 1] == 'f');
            }
        }
    }
}

/// Renaming `self` to `__self` in the tokens of a macro call is done once
/// for all: the renamed tokens are left as they are by a second renaming.
pub proof fn law_fold_idempotent(a: Seq<TokenTree>, b: Seq<TokenTree>)
    requires
        stream_folded(a, b),
    ensures
        stream_folded(b, b),
    decreases a, a.len(),
{
    if a.len() > 0 {
        law_fold_idempotent(a.subrange(0, a.len() - 1), b.subrange(0, b.len() - 1));
        lemma_tree_fold_idempotent(a[a.len() - 1], b[b.len() - 1]);
    }
}

proof fn lemma_tree_fold_idempotent(a: TokenTree, b: TokenTree)
    requires
        tree_folded(a, b),
    ensures
        tree_folded(b, b),
    decreases a, 0nat,
{
    reveal_strlit("self");
    reveal_strlit("__self");
    match a {
        TokenTree::Ident { name, .. } => {
            assert(underscore_self(underscore_self(name@)) == underscore_self(name@));
        },
        TokenTree::Group { stream, .. } => {
            match b {
                TokenTree::Group { stream: s2, .. } => {
                    assert(decreases_to!(a => stream));
                    law_fold_idempotent(stream@, s2@);
                },
                _ => {},
            }
        },
        _ => {},
    }
}

/// Renaming `self` in the tokens of a macro call neither adds nor removes a
/// keyword `fn`: whether the tokens are left alone is decided the same way
/// before and after.
pub proof fn law_fold_keeps_fn(a: Seq<TokenTree>, b: Seq<TokenTree>)
    requires
        stream_folded(a, b),
    ensures
        stream_contains_fn(a) == stream_contains_fn(b),
    decreases a, a.len(),
{
    if a.len() > 0 {
        law_fold_keeps_fn(a.subrange(0, a.len() - 1), b.subrange(0, b.len() - 1));
        lemma_tree_fold_keeps_fn(a[a.len() - 1], b[b.len() - 1]);
    }
}

proof fn lemma_tree_fold_keeps_fn(a: TokenTree, b: TokenTree)
    requires
        tree_folded(a, b),
    ensures
        tree_contains_fn(a) == tree_contains_fn(b),
    decreases a, 0nat,
{
    reveal_strlit("self");
    reveal_strlit("__self");
    reveal_strlit("fn");
    match a {
        TokenTree::Ident { name, .. } => {
            assert(underscore_self(name@) == "fn"@ <==> name@ == "fn"@) by {
                if name@ == "self"@ {
                    assert("__self"@.len() != "fn"@.len());
                    assert("self"@.len() != "fn"@.len());
                }
            }
        },
        TokenTree::Group { stream, .. } => {
            match b {
                TokenTree::Group { stream: s2, .. } => {
                    assert(decreases_to!(a => stream));
                    law_fold_keeps_fn(stream@, s2@);
                },
                _ => {},
            }
        },
        _ => {},
    }
}

/// In `#[project]`, the first path replaced decides which paths are
/// replaced after it: once a path is registered, seeing a pattern leaves
/// the registration, and the projection, as they are.
pub proof fn law_register_fixed(c: CtxP, pat: Pat, allow_pat_path: bool)
    requires
        c.register is Some,
    ensures
        ctx_after(c, pat, allow_pat_path).register == c.register,
        ctx_after(c, pat, allow_pat_path).mutability == c.mutability,
    decreases pat, 0nat,
{
    match pat {
        Pat::Ident { sub: Some(b) } => law_register_fixed(c, *b, allow_pat_path),
        Pat::Reference(b) => law_register_fixed(c, *b, allow_pat_path),
        Pat::Boxed(b) => law_register_fixed(c, *b, allow_pat_path),
        Pat::Typed(b) => law_register_fixed(c, *b, allow_pat_path),
        Pat::Or(cases) => lemma_register_fixed_seq(c, cases@, allow_pat_path),
        _ => {},
    }
}

proof fn lemma_register_fixed_seq(c: CtxP, s: Seq<Pat>, allow_pat_path: bool)
    requires
        c.register is Some,
    ensures
        ctx_after_seq(c, s, allow_pat_path).register == c.register,
        ctx_after_seq(c, s, allow_pat_path).mutability == c.mutability,
    decreases s, s.len(),
{
    if s.len() > 0 {
        let init = s.subrange(0, s.len() - 1);
        lemma_register_fixed_seq(c, init, allow_pat_path);
        law_register_fixed(ctx_after_seq(c, init, allow_pat_path), s[s.len() - 1], allow_pat_path);
    }
}

/// In the statement form of `#[project]` too, the first path replaced
/// decides which paths are replaced after it: once a path is registered,
/// the registration stays.
pub proof fn law_statement_register_fixed(r: (Seq<char>, nat), e: RegExpr)
    ensures
        reg_after_expr(Some(r), e) == Some(r),
    decreases e,
{
    match e {
        RegExpr::If { cond, else_if } => {
            law_statement_register_fixed(r, *cond);
            match else_if {
                Some(b) => law_statement_register_fixed(r, *b),
                None => {},
            }
        },
        RegExpr::ForLoop(p) => lemma_statement_register_fixed_pat(r, p),
        RegExpr::Let(ps) => lemma_statement_register_fixed_pats(r, ps@),
        RegExpr::Match(ps) => lemma_statement_register_fixed_pats(r, ps@),
        RegExpr::Block(Some(b)) => law_statement_register_fixed(r, *b),
        RegExpr::Inner(b) => law_statement_register_fixed(r, *b),
        _ => {},
    }
}

proof fn lemma_statement_register_fixed_pat(r: (Seq<char>, nat), p: Pat)
    ensures
        reg_after_pat(Some(r), p) == Some(r),
    decreases p,
{
    match p {
        Pat::Ident { sub: Some(b) } => lemma_statement_register_fixed_pat(r, *b),
        Pat::Reference(b) => lemma_statement_register_fixed_pat(r, *b),
        Pat::Boxed(b) => lemma_statement_register_fixed_pat(r, *b),
        _ => {},
    }
}

proof fn lemma_statement_register_fixed_pats(r: (Seq<char>, nat), s: Seq<Pat>)
    ensures
        reg_after_pats(Some(r), s) == Some(r),
    decreases s.len(),
{
    if s.len() > 0 {
        lemma_statement_register_fixed_pats(r, s.drop_last());
        lemma_statement_register_fixed_pat(r, s.last());
    }
}

/// The arguments, whether written by the user or handed on to the derive,
/// never ask for both `PinnedDrop` and `Replace`, nor for both
/// `UnsafeUnpin` and `!Unpin`.
pub proof fn law_pinned_drop_excludes_replace(toks: Seq<TokenTree>, dialect: Dialect)
    ensures
        parse_args_spec(toks, dialect) matches Ok(a) ==> !(a.pinned_drop is Some && a.replace is Some)
            && !(a.unsafe_unpin is Some && a.not_unpin is Some),
{
    lemma_args_exclusive(toks, 0, crate::args::no_args(), dialect);
}

proof fn lemma_args_exclusive(toks: Seq<TokenTree>, i: int, acc: Args, dialect: Dialect)
    requires
        !(acc.pinned_drop is Some && acc.replace is Some),
        !(acc.unsafe_unpin is Some && acc.not_unpin is Some),
    ensures
        parse_args_from(toks, i, acc, dialect) matches Ok(a) ==> !(a.pinned_drop is Some && a.replace is Some)
            && !(a.unsafe_unpin is Some && a.not_unpin is Some),
    decreases toks.len() - i,
{
    if 0 <= i < toks.len() {
        match crate::args::arg_at(toks, i, acc, dialect) {
            Ok((next, j)) => {
                if j < toks.len() {
                    lemma_args_exclusive(toks, j + 1, next, dialect);
                }
            },
            Err(_) => {},
        }
    }
}

/// Two tokens of the same kind holding the same word, punctuation,
/// literal or delimiter, wherever they stand.
pub open spec fn same_token(a: TokenTree, b: TokenTree) -> bool {
    match (a, b) {
        (TokenTree::Ident { name: x, .. }, TokenTree::Ident { name: y, .. }) => x@ == y@,
        (TokenTree::Punct { ch: x, .. }, TokenTree::Punct { ch: y, .. }) => x == y,
        (TokenTree::Literal { text: x, .. }, TokenTree::Literal { text: y, .. }) => x@ == y@,
        (TokenTree::Group { delim: x, .. }, TokenTree::Group { delim: y, .. }) => x == y,
        _ => false,
    }
}

/// Two token sequences that hold the same tokens, wherever they stand.
pub open spec fn same_tokens(a: Seq<TokenTree>, b: Seq<TokenTree>) -> bool {
    &&& a.len() == b.len()
    &&& forall|i: int| 0 <= i < a.len() ==> same_token(#[trigger] a[i], b[i])
}

/// Which arguments were given, without where.
pub open spec fn arg_kinds(a: Args) -> (bool, bool, bool, bool) {
    (a.pinned_drop is Some, a.unsafe_unpin is Some, a.replace is Some, a.not_unpin is Some)
}

/// `t` holds the tokens of `#[pin(__private(inner))]` after `pin`.
pub open spec fn wraps_private(t: Seq<TokenTree>, inner: Seq<TokenTree>) -> bool {
    &&& t.len() == 1
    &&& private_args(t) matches Some((c, i)) && c.len() == 2 && i == inner
}

/// The arguments that `#[pin_project]` accepts reach the derive: the
/// attribute writes them into `#[pin(__private(..))]` on the item, and
/// that attribute, read back as tokens holding the same words, gives the
/// derive the same arguments.
pub proof fn law_attribute_args_reach_derive(args: Seq<TokenTree>, inner: Seq<TokenTree>, t: Seq<TokenTree>)
    requires
        same_tokens(args, inner),
        wraps_private(t, inner),
    ensures
        parse_args_spec(args, Dialect::Attribute) matches Ok(a)
            ==> parse_pin_args_spec(t) matches Ok(b) && arg_kinds(a) == arg_kinds(b),
{
    lemma_same_args(args, inner, 0, crate::args::no_args(), crate::args::no_args());
}

proof fn lemma_same_args(x: Seq<TokenTree>, y: Seq<TokenTree>, i: int, ax: Args, ay: Args)
    requires
        same_tokens(x, y),
        arg_kinds(ax) == arg_kinds(ay),
        i >= 0,
    ensures
        parse_args_from(x, i, ax, Dialect::Attribute) matches Ok(a)
            ==> parse_args_from(y, i, ay, Dialect::Derive) matches Ok(b) && arg_kinds(a) == arg_kinds(b),
    decreases x.len() - i,
{
    if i < x.len() {
        assert(same_token(x[i], y[i]));
        if i + 1 < x.len() {
            assert(same_token(x[i + 1], y[i + 1]));
        }
        match arg_at(x, i, ax, Dialect::Attribute) {
            Ok((nx, j)) => {
                assert(arg_at(y, i, ay, Dialect::Derive) matches Ok((ny, k)) && k == j && arg_kinds(nx) == arg_kinds(ny));
                let (ny, k) = arg_at(y, i, ay, Dialect::Derive)->Ok_0;
                if j < x.len() {
                    assert(same_token(x[j], y[j]));
                    lemma_same_args(x, y, j + 1, nx, ny);
                }
            },
            Err(_) => {},
        }
    }
}

proof fn lemma_exact_none(attrs: Seq<Attr>, id: Seq<char>)
    ensures
        position_exact_spec(attrs, id) == Ok::<Option<int>, Diag>(None)
            <==> forall|k: int| 0 <= k < attrs.len() ==> !is_ident(#[trigger] attrs[k], id),
    decreases attrs.len(),
{
    if attrs.len() > 0 {
        let init = attrs.drop_last();
        lemma_exact_none(init, id);
        assert forall|k: int| 0 <= k < init.len() implies init[k] == attrs[k] by {}
        if position_exact_spec(attrs, id) == Ok::<Option<int>, Diag>(None) {
            assert(position_exact_spec(init, id) == Ok::<Option<int>, Diag>(None));
            assert(!is_ident(attrs[attrs.len() - 1], id));
            assert forall|k: int| 0 <= k < attrs.len() implies !is_ident(#[trigger] attrs[k], id) by {
                if k < init.len() {
                    assert(!is_ident(init[k], id));
                }
            }
        }
        if forall|k: int| 0 <= k < attrs.len() ==> !is_ident(#[trigger] attrs[k], id) {
            assert forall|k: int| 0 <= k < init.len() implies !is_ident(#[trigger] init[k], id) by {
                assert(!is_ident(attrs[k], id));
            }
            assert(!is_ident(attrs[attrs.len() - 1], id));
        }
    }
}

proof fn lemma_exact_some(attrs: Seq<Attr>, id: Seq<char>, i: int)
    requires
        position_exact_spec(attrs, id) == Ok::<Option<int>, Diag>(Some(i)),
    ensures
        0 <= i < attrs.len(),
        forall|k: int| 0 <= k < attrs.len() && k != i ==> !is_ident(#[trigger] attrs[k], id),
    decreases attrs.len(),
{
    let init = attrs.drop_last();
    let n = attrs.len() - 1;
    assert forall|k: int| 0 <= k < init.len() implies init[k] == attrs[k] by {}
    if is_ident(attrs[n], id) {
        lemma_exact_none(init, id);
        assert(position_exact_spec(init, id) == Ok::<Option<int>, Diag>(None));
        assert forall|k: int| 0 <= k < attrs.len() && k != i implies !is_ident(#[trigger] attrs[k], id) by {
            assert(!is_ident(init[k], id));
        }
    } else {
        lemma_exact_some(init, id, i);
        assert forall|k: int| 0 <= k < attrs.len() && k != i implies !is_ident(#[trigger] attrs[k], id) by {
            if k < n {
                assert(!is_ident(init[k], id));
            }
        }
    }
}

/// No attribute of `attrs`, other than the one at `i`, is named `id`; then
/// none is once that one is removed.
proof fn lemma_none_left(attrs: Seq<Attr>, i: int, id: Seq<char>)
    requires
        0 <= i < attrs.len(),
        forall|k: int| 0 <= k < attrs.len() && k != i ==> !is_ident(#[trigger] attrs[k], id),
    ensures
        position_exact_spec(attrs.remove(i), id) == Ok::<Option<int>, Diag>(None),
{
    let left = attrs.remove(i);
    assert forall|k: int| 0 <= k < left.len() implies !is_ident(#[trigger] left[k], id) by {
        if k < i {
            assert(left[k] == attrs[k]);
        } else {
            assert(left[k] == attrs[k + 1]);
        }
    }
    lemma_exact_none(left, id);
}

/// Once the projection attribute found on a node is removed, and no other
/// one was there, none is found any more.
proof fn lemma_marked_cleared(attrs: Seq<Attr>)
    ensures
        marked_from(attrs, 0) matches Some((s, Ok(i)))
            ==> (rest_result(attrs.remove(i), s) is Ok ==> marked_from(attrs.remove(i), 0) is None),
{
    reveal_with_fuel(marked_from, 4);
    if let Some((s, Ok(i))) = marked_from(attrs, 0) {
        if rest_result(attrs.remove(i), s) is Ok {
        let left = attrs.remove(i);
        let n0 = method_name_spec(scan_order(0));
        let n1 = method_name_spec(scan_order(1));
        let n2 = method_name_spec(scan_order(2));
        assert(marked_from(left, s + 1) is None);
        // The attribute found names the `s`-th projection, and is the only one so named.
        if s == 0 {
            assert(position_exact_spec(attrs, n0) == Ok::<Option<int>, Diag>(Some(i)));
            lemma_exact_some(attrs, n0, i);
            lemma_none_left(attrs, i, n0);
        } else if s == 1 {
            assert(position_exact_spec(attrs, n0) == Ok::<Option<int>, Diag>(None));
            assert(position_exact_spec(attrs, n1) == Ok::<Option<int>, Diag>(Some(i)));
            lemma_exact_some(attrs, n1, i);
            lemma_none_left(attrs, i, n1);
            lemma_exact_none(attrs, n0);
            lemma_none_left(attrs, i, n0);
            assert(marked_from(left, 1) is None);
        } else {
            assert(s == 2);
            assert(position_exact_spec(attrs, n0) == Ok::<Option<int>, Diag>(None));
            assert(position_exact_spec(attrs, n1) == Ok::<Option<int>, Diag>(None));
            assert(position_exact_spec(attrs, n2) == Ok::<Option<int>, Diag>(Some(i)));
            lemma_exact_some(attrs, n2, i);
            lemma_none_left(attrs, i, n2);
            lemma_exact_none(attrs, n0);
            lemma_none_left(attrs, i, n0);
            lemma_exact_none(attrs, n1);
            lemma_none_left(attrs, i, n1);
            assert(marked_from(left, 2) is None);
            assert(marked_from(left, 1) is None);
        }
        }
    }
}

/// A `let` statement that the walk of a `#[project]` function rewrote
/// carries no projection attribute any more: walking over it again finds
/// nothing to do, whatever its pattern and initializer became, and leaves
/// it as it is.
pub proof fn law_local_rewritten_once(attrs: Seq<Attr>, pat: Pat, pat_loc: usize, init: Option<Vec<Pat>>)
    requires
        visit_local_result(attrs, pat, pat_loc, init) is Ok,
    ensures
        marked_from(attrs, 0) matches Some((_, Ok(i))) ==> marked_from(attrs.remove(i), 0) is None
            && forall|pat2: Pat, loc2: usize, init2: Option<Vec<Pat>>|
                #[trigger] visit_local_result(attrs.remove(i), pat2, loc2, init2) is Ok,
{
    lemma_marked_cleared(attrs);
}

/// A `match` or `if let` that the walk of a `#[project]` function rewrote
/// carries no projection attribute any more: the attributes left name no
/// projection, so walking over it again leaves it as it is.
pub proof fn law_expr_rewritten_once(attrs: Seq<Attr>)
    ensures
        selection(attrs) matches Ok(Some((_, left))) ==> selection(left) == Ok::<Option<(Mutability, Seq<Attr>)>, Diag>(None),
{
    lemma_marked_cleared(attrs);
}

proof fn lemma_walk_ok_each(nodes: Seq<WalkNode>)
    ensures
        walk_result(nodes) is Ok <==> forall|k: int| 0 <= k < nodes.len() ==> #[trigger] node_result(nodes[k]) is Ok,
    decreases nodes.len(),
{
    if nodes.len() > 0 {
        let init = nodes.drop_last();
        lemma_walk_ok_each(init);
        assert forall|k: int| 0 <= k < init.len() implies init[k] == nodes[k] by {}
        if forall|k: int| 0 <= k < nodes.len() ==> #[trigger] node_result(nodes[k]) is Ok {
            assert forall|k: int| 0 <= k < init.len() implies #[trigger] node_result(init[k]) is Ok by {
                assert(node_result(nodes[k]) is Ok);
            }
            assert(node_result(nodes[nodes.len() - 1]) is Ok);
        }
        if walk_result(nodes) is Ok {
            assert forall|k: int| 0 <= k < nodes.len() implies #[trigger] node_result(nodes[k]) is Ok by {
                if k < init.len() {
                    assert(node_result(init[k]) is Ok);
                }
            }
        }
    }
}

/// A node that a visit rewrote is visited again without error and left as
/// it is.
proof fn lemma_node_twice(n: WalkNode, n2: WalkNode)
    requires
        node_result(n) is Ok,
        node_out(n, n2),
    ensures
        node_result(n2) is Ok,
        forall|n3: WalkNode| #[trigger] node_out(n2, n3) ==> node_same(n2, n3),
{
    match (n, n2) {
        (WalkNode::Local(l), WalkNode::Local(l2)) => {
            law_local_rewritten_once(l.attrs@, l.pat, l.pat_loc, l.init_match);
            assert(marked_from(l2.attrs@, 0) is None);
        },
        (WalkNode::Expr { attrs, expr }, WalkNode::Expr { attrs: attrs2, expr: expr2 }) => {
            law_expr_rewritten_once(attrs@);
            match expr {
                ExprShape::Other => {},
                ExprShape::IfLet(pats) => {
                    if pats@.len() > 0 {
                        assert(selection(attrs2@) == Ok::<Option<(Mutability, Seq<Attr>)>, Diag>(None));
                        assert(expr2 matches ExprShape::IfLet(p2) && p2@.len() > 0);
                    }
                },
                ExprShape::Match(_) => {
                    assert(selection(attrs2@) == Ok::<Option<(Mutability, Seq<Attr>)>, Diag>(None));
                    assert(expr2 is Match);
                },
            }
        },
        _ => {},
    }
}

/// Walking twice over the body of a function marked `#[project]` changes
/// nothing the second time. The walk meets the same nodes, in the same
/// order, in the rewritten body; when the first walk succeeded, the second
/// meets no error and leaves every node as it found it.
pub proof fn law_walk_twice(nodes: Seq<WalkNode>, nodes2: Seq<WalkNode>)
    requires
        walk_result(nodes) is Ok,
        nodes2.len() == nodes.len(),
        forall|k: int| 0 <= k < nodes.len() ==> #[trigger] node_out(nodes[k], nodes2[k]),
    ensures
        walk_result(nodes2) is Ok,
        forall|k: int, n3: WalkNode| 0 <= k < nodes2.len() && #[trigger] node_out(nodes2[k], n3) ==> node_same(nodes2[k], n3),
{
    lemma_walk_ok_each(nodes);
    lemma_walk_ok_each(nodes2);
    assert forall|k: int| 0 <= k < nodes2.len() implies #[trigger] node_result(nodes2[k]) is Ok by {
        assert(node_result(nodes[k]) is Ok);
        assert(node_out(nodes[k], nodes2[k]));
        lemma_node_twice(nodes[k], nodes2[k]);
    }
    assert forall|k: int, n3: WalkNode| 0 <= k < nodes2.len() && #[trigger] node_out(nodes2[k], n3) implies node_same(nodes2[k], n3) by {
        assert(node_result(nodes[k]) is Ok);
        assert(node_out(nodes[k], nodes2[k]));
        lemma_node_twice(nodes[k], nodes2[k]);
    }
}

proof fn lemma_longer_name_keeps_clear(n: Seq<char>, s: Seq<char>, lts: Seq<Seq<char>>)
    requires
        !clashes(n, lts),
    ensures
        !clashes(n + s, lts),
{
    assert forall|i: int| 0 <= i < lts.len() implies !is_prefix(n + s, #[trigger] lts[i]) by {
        if is_prefix(n + s, lts[i]) {
            assert(lts[i].subrange(0, n.len() as int) =~= (n + s).subrange(0, n.len() as int));
            assert((n + s).subrange(0, n.len() as int) =~= n);
            assert(is_prefix(n, lts[i]));
        }
    }
}

proof fn lemma_fresh_extends(base: Seq<char>, lts: Seq<Seq<char>>)
    ensures
        exists|k: nat| fresh_lifetime(base, lts) == base + #[trigger] underscores(k),
        !clashes(fresh_lifetime(base, lts), lts),
{
    law_fresh_lifetime(base, lts);
}

/// The lifetime that `#[project]` puts on an impl block is the prefix of
/// no lifetime of the block and of no lifetime of any of its methods: it
/// is chosen fresh for the block, then made longer for each method in
/// turn, and a longer name stays clear of the lifetimes it was clear of.
pub proof fn law_impl_lifetime_fresh(base: Seq<char>, params: Seq<GenericParam>, methods: Seq<Vec<GenericParam>>)
    ensures
        !clashes(impl_lifetime(base, params, methods), lifetime_names(params)),
        forall|k: int| 0 <= k < methods.len() ==> !clashes(impl_lifetime(base, params, methods), lifetime_names(#[trigger] methods[k]@)),
    decreases methods.len(),
{
    if methods.len() == 0 {
        lemma_fresh_extends(base, lifetime_names(params));
    } else {
        let init = methods.drop_last();
        let prev = impl_lifetime(base, params, init);
        law_impl_lifetime_fresh(base, params, init);
        let lts = lifetime_names(methods.last()@);
        lemma_fresh_extends(prev, lts);
        let k = choose|k: nat| fresh_lifetime(prev, lts) == prev + #[trigger] underscores(k);
        let now = impl_lifetime(base, params, methods);
        assert(now == prev + underscores(k));
        lemma_longer_name_keeps_clear(prev, underscores(k), lifetime_names(params));
        assert forall|j: int| 0 <= j < methods.len() implies !clashes(now, lifetime_names(#[trigger] methods[j]@)) by {
            if j < methods.len() - 1 {
                assert(methods[j] == init[j]);
                lemma_longer_name_keeps_clear(prev, underscores(k), lifetime_names(init[j]@));
            }
        }
    }
}

/// An attribute that is looked for exactly (`#[pin]` on a field, the
/// projection attributes in a function) is accepted only alone and without
/// arguments: when it is found, it is the one attribute of its name and it
/// has no tokens; when it is not, no attribute has its name.
pub proof fn law_exact_attribute(attrs: Seq<Attr>, ident: Seq<char>)
    ensures
        position_exact_spec(attrs, ident) matches Ok(Some(i)) ==> {
            &&& 0 <= i < attrs.len()
            &&& is_ident(attrs[i], ident)
            &&& attrs[i].tokens@.len() == 0
            &&& forall|j: int| 0 <= j < attrs.len() && j != i ==> !is_ident(#[trigger] attrs[j], ident)
        },
        position_exact_spec(attrs, ident) matches Ok(None) ==> forall|j: int| 0 <= j < attrs.len() ==> !is_ident(#[trigger] attrs[j], ident),
    decreases attrs.len(),
{
    if attrs.len() > 0 {
        let init = attrs.drop_last();
        law_exact_attribute(init, ident);
        assert forall|j: int| 0 <= j < attrs.len() - 1 implies attrs[j] == init[j] by {}
    }
}

/// A field is projected as pinned exactly when it carries `#[pin]`.
pub proof fn law_pinned_exactly_when_marked(fs: Seq<Field>)
    ensures
        pin_flags(fs) matches Ok(flags) ==> {
            &&& flags.len() == fs.len()
            &&& forall|i: int| 0 <= i < fs.len() ==> (#[trigger] flags[i] <==> exists|j: int| 0 <= j < fs[i].attrs@.len() && is_ident(#[trigger] fs[i].attrs@[j], "pin"@))
        },
    decreases fs.len(),
{
    if fs.len() > 0 {
        let init = fs.drop_last();
        law_pinned_exactly_when_marked(init);
        law_exact_attribute(fs.last().attrs@, "pin"@);
        match pin_flags(fs) {
            Ok(flags) => {
                let prev = pin_flags(init)->Ok_0;
                assert(flags == prev.push(position_exact_spec(fs.last().attrs@, "pin"@)->Ok_0 is Some));
                assert forall|i: int| 0 <= i < fs.len() implies (#[trigger] flags[i] <==> exists|j: int| 0 <= j < fs[i].attrs@.len() && is_ident(#[trigger] fs[i].attrs@[j], "pin"@)) by {
                    if i < fs.len() - 1 {
                        assert(fs[i] == init[i]);
                        assert(flags[i] == prev[i]);
                    } else {
                        let a = fs.last().attrs@;
                        match position_exact_spec(a, "pin"@) {
                            Ok(Some(k)) => {
                                assert(is_ident(fs[i].attrs@[k], "pin"@));
                            },
                            _ => {},
                        }
                    }
                }
            },
            Err(_) => {},
        }
    }
}

} // verus!
