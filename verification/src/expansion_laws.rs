//! Properties of the generated code: what the projected fields, the
//! `Unpin` and `Drop` impls and the rewritten patterns hold, for every input.
use vstd::prelude::*;

use crate::derive::{drop_impl_text, proj_params_text, self_ty, unpin_impl_text, CtxV};
use crate::generics::{params_text, where_text, ParamStyle};
use crate::model::{Field, Generics};
use crate::names::lifetime_names;
use crate::names::{proj_ident_spec, Mutability};
use crate::pin_projectable::unpin_preds;
use crate::project::{ctx_after, ctx_after_path, ctx_after_seq, pat_out, path_applies, seq_out, CtxP, Pat};
use crate::project_fields::{field_name, named_piece, unnamed_id, unnamed_piece, Part};
use crate::text::{join_with, views};

verus! {

broadcast use vstd::std_specs::vec::axiom_vec_decreases_to_view, vstd::std_specs::vec::axiom_vec_index_decreases;

/// `t` ends with `s`.
pub open spec fn ends_with(t: Seq<char>, s: Seq<char>) -> bool {
    s.len() <= t.len() && t.subrange(t.len() - s.len(), t.len() as int) == s
}

/// `t` starts with `s`.
pub open spec fn starts_with(t: Seq<char>, s: Seq<char>) -> bool {
    s.len() <= t.len() && t.subrange(0, s.len() as int) == s
}

/// `t` holds `s` somewhere.
pub open spec fn holds_text(t: Seq<char>, s: Seq<char>) -> bool {
    exists|i: int| 0 <= i && i + s.len() <= t.len() && #[trigger] t.subrange(i, i + s.len()) == s
}

/// A projected field, of either projection, is pinned exactly when the
/// field is marked `#[pin]`, and the shared projection is the mutable one
/// without `mut`: `Pin<&'lt mut (ty)>` and `Pin<&'lt (ty)>` for a pinned
/// field, `&'lt mut (ty)` and `&'lt (ty)` for another. The body wraps the
/// binding of a pinned field in `Pin::new_unchecked`, and hands the
/// binding of any other field on as it is.
pub proof fn law_projected_field_pinned_as_marked(f: Field, i: nat, pinned: bool, lt: Seq<char>, named: bool)
    ensures
        ({
            let id = if named { field_name(f) } else { unnamed_id(i) };
            let pre = if named { f.vis@ + " "@ + id + ": "@ } else { f.vis@ + " "@ };
            let open = if pinned { "::core::pin::Pin<&"@ } else { "&"@ };
            let close = if pinned { ")>"@ } else { ")"@ };
            let piece = |part: Part| if named { named_piece(f, pinned, lt, part) } else { unnamed_piece(f, i, pinned, lt, part) };
            &&& piece(Part::Field) == pre + open + lt + " mut ("@ + f.ty@ + close
            &&& piece(Part::RefField) == pre + open + lt + " ("@ + f.ty@ + close
            &&& piece(Part::Pat) == id
            &&& pinned ==> ends_with(piece(Part::Body), "::core::pin::Pin::new_unchecked("@ + id + ")"@)
            &&& !pinned ==> piece(Part::Body) == id
        }),
{
    let id = if named { field_name(f) } else { unnamed_id(i) };
    let pre = if named { f.vis@ + " "@ + id + ": "@ } else { f.vis@ + " "@ };
    let open = if pinned { "::core::pin::Pin<&"@ } else { "&"@ };
    let close = if pinned { ")>"@ } else { ")"@ };
    let piece = |part: Part| if named { named_piece(f, pinned, lt, part) } else { unnamed_piece(f, i, pinned, lt, part) };
    reveal_strlit(" ");
    reveal_strlit(": ");
    reveal_strlit("::core::pin::Pin<&");
    reveal_strlit("&");
    reveal_strlit(")>");
    reveal_strlit(")");
    reveal_strlit(" mut (");
    reveal_strlit(" (");
    reveal_strlit(">");
    reveal_strlit(": ::core::pin::Pin<&");
    reveal_strlit(": &");
    reveal_strlit(" ::core::pin::Pin<&");
    reveal_strlit(" &");
    reveal_strlit("::core::pin::Pin::new_unchecked(");
    reveal_strlit(": ::core::pin::Pin::new_unchecked(");
    assert(piece(Part::Field) =~= pre + open + lt + " mut ("@ + f.ty@ + close);
    assert(piece(Part::RefField) =~= pre + open + lt + " ("@ + f.ty@ + close);
    if pinned {
        let b = piece(Part::Body);
        let s = "::core::pin::Pin::new_unchecked("@ + id + ")"@;
        if named {
            assert(b =~= id + ": "@ + s);
        } else {
            assert(b =~= s);
        }
        assert(b.subrange(b.len() - s.len(), b.len() as int) =~= s);
    }
}

/// The bound that makes the type `Unpin` exactly when it implements
/// `UnsafeUnpin`.
pub open spec fn unsafe_unpin_bound(lt: Seq<char>) -> Seq<char> {
    "::pin_project::__private::Wrapper<"@ + lt + ", Self>: ::pin_project::UnsafeUnpin"@
}

proof fn lemma_where_ends_with_last(ps: Seq<Seq<char>>, x: Seq<char>)
    ensures
        ends_with(where_text(ps.push(x)), x),
        starts_with(where_text(ps.push(x)), "where "@),
{
    let s = ps.push(x);
    assert(s.drop_last() =~= ps);
    let j = join_with(s, ", "@);
    if ps.len() == 0 {
        assert(j == x);
    } else {
        assert(j == join_with(ps, ", "@) + ", "@ + x);
    }
    let w = where_text(s);
    assert(w == "where "@ + j);
    assert(w.subrange(w.len() - x.len(), w.len() as int) =~= x);
    reveal_strlit("where ");
    assert(w.subrange(0, 6) =~= "where "@);
}

/// With `UnsafeUnpin`, the type is `Unpin` exactly when it implements
/// `UnsafeUnpin`: the generated impl is an `Unpin` impl for the type whose
/// where clause ends with the bound `Wrapper<'lt, Self>: UnsafeUnpin`.
pub proof fn law_unsafe_unpin_impl_is_conditioned(c: CtxV)
    requires
        c.args.unsafe_unpin is Some,
    ensures
        starts_with(
            unpin_impl_text(c),
            "#[allow(single_use_lifetimes)] impl"@ + proj_params_text(c.lt, c.params, ParamStyle::Impl) + " ::core::marker::Unpin for "@
                + self_ty(c) + " where "@,
        ),
        ends_with(unpin_impl_text(c), unsafe_unpin_bound(c.lt) + " {}"@),
{
    let head = "#[allow(single_use_lifetimes)] impl"@ + proj_params_text(c.lt, c.params, ParamStyle::Impl) + " ::core::marker::Unpin for "@
        + self_ty(c) + " "@;
    let b = unsafe_unpin_bound(c.lt);
    let w = where_text(c.preds.push(b));
    lemma_where_ends_with_last(c.preds, b);
    let t = unpin_impl_text(c);
    assert(t == head + w + " {}"@);
    reveal_strlit(" where ");
    reveal_strlit(" ");
    reveal_strlit("where ");
    let s1 = head + "where "@;
    assert(w.len() >= 6);
    assert(w.subrange(0, 6) =~= "where "@);
    assert(t.subrange(0, s1.len() as int) =~= head + w.subrange(0, 6));
    assert(s1 =~= "#[allow(single_use_lifetimes)] impl"@ + proj_params_text(c.lt, c.params, ParamStyle::Impl) + " ::core::marker::Unpin for "@
        + self_ty(c) + " where "@);
    let s2 = b + " {}"@;
    assert(t.subrange(t.len() - s2.len(), t.len() as int) =~= w.subrange(w.len() - b.len(), w.len() as int) + " {}"@);
}

/// The call that the `Drop` impl made with `PinnedDrop` ends with: the
/// user's `PinnedDrop::drop`, on the pinned value.
pub open spec fn pinned_drop_call() -> Seq<char> {
    "unsafe { ::pin_project::__private::PinnedDrop::drop(pinned_self); } } }"@
}

/// With `PinnedDrop`, the generated impl is a `Drop` impl for the type
/// whose `drop` pins the value and then, as its last statement, calls the
/// user's `PinnedDrop::drop` on it.
pub proof fn law_pinned_drop_impl_calls_the_user(c: CtxV)
    requires
        c.args.pinned_drop is Some,
    ensures
        starts_with(drop_impl_text(c), "#[allow(single_use_lifetimes)] impl"@ + params_text(c.params, ParamStyle::Impl) + " ::core::ops::Drop for "@ + self_ty(c)),
        holds_text(drop_impl_text(c), "let pinned_self = unsafe { ::core::pin::Pin::new_unchecked(self) };"@),
        ends_with(drop_impl_text(c), pinned_drop_call()),
{
    let t = drop_impl_text(c);
    let head = "#[allow(single_use_lifetimes)] impl"@ + params_text(c.params, ParamStyle::Impl) + " ::core::ops::Drop for "@ + self_ty(c);
    let mid = " "@ + where_text(c.preds) + " { fn drop(&mut self) { "@;
    let pin = "let pinned_self = unsafe { ::core::pin::Pin::new_unchecked(self) };"@;
    let call = pinned_drop_call();
    reveal_strlit(" { fn drop(&mut self) { let pinned_self = unsafe { ::core::pin::Pin::new_unchecked(self) }; unsafe { ::pin_project::__private::PinnedDrop::drop(pinned_self); } } }");
    reveal_strlit("let pinned_self = unsafe { ::core::pin::Pin::new_unchecked(self) };");
    reveal_strlit("unsafe { ::pin_project::__private::PinnedDrop::drop(pinned_self); } } }");
    reveal_strlit(" { fn drop(&mut self) { ");
    reveal_strlit(" ");
    assert(t =~= head + mid + pin + " "@ + call);
    assert(t.subrange(0, head.len() as int) =~= head);
    let i = (head + mid).len() as int;
    assert(t.subrange(i, i + pin.len()) =~= pin);
    assert(t.subrange(t.len() - call.len(), t.len() as int) =~= call);
}

/// The automatic `Unpin` impl of `#[pin_projectable]` holds the bounds of
/// the type, then `ty: Unpin` for each pinned field type, in order, and
/// nothing more; otherwise it holds the bounds of the type and the bound
/// on `UnsafeUnpin`.
pub proof fn law_auto_unpin_bounds_every_pinned_type(ident: Seq<char>, g: Generics, auto: bool, tys: Seq<Seq<char>>)
    ensures
        ({
            let base = match g.where_clause {
                Some(p) => views(p@),
                None => Seq::empty(),
            };
            let ps = unpin_preds(ident, g, auto, tys);
            &&& ps.subrange(0, base.len() as int) == base
            &&& auto ==> ps.len() == base.len() + tys.len()
                && forall|k: int| 0 <= k < tys.len() ==> #[trigger] ps[base.len() + k] == tys[k] + ": ::core::marker::Unpin"@
            &&& !auto ==> ps.len() == base.len() + 1
                && ends_with(ps[base.len() as int], ">: ::pin_project::UnsafeUnpin"@)
        }),
{
    let base = match g.where_clause {
        Some(p) => views(p@),
        None => Seq::empty(),
    };
    let ps = unpin_preds(ident, g, auto, tys);
    assert(ps.subrange(0, base.len() as int) =~= base);
    if !auto {
        let x = ps[base.len() as int];
        let s = ">: ::pin_project::UnsafeUnpin"@;
        reveal_strlit(">: ::pin_project::UnsafeUnpin");
        assert(x.subrange(x.len() - s.len(), x.len() as int) =~= s);
    }
}

/// The context after a pattern keeps the projection, and a replacement
/// once made stays made.
proof fn lemma_ctx_keeps(c: CtxP, p: Pat, a: bool)
    ensures
        ctx_after(c, p, a).mutability == c.mutability,
        c.replaced ==> ctx_after(c, p, a).replaced,
    decreases p, 0nat,
{
    match p {
        Pat::Ident { sub: Some(b) } => lemma_ctx_keeps(c, *b, a),
        Pat::Reference(b) => lemma_ctx_keeps(c, *b, a),
        Pat::Boxed(b) => lemma_ctx_keeps(c, *b, a),
        Pat::Typed(b) => lemma_ctx_keeps(c, *b, a),
        Pat::Or(cases) => lemma_ctx_keeps_seq(c, cases@, a),
        _ => {},
    }
}

proof fn lemma_ctx_keeps_seq(c: CtxP, s: Seq<Pat>, a: bool)
    ensures
        ctx_after_seq(c, s, a).mutability == c.mutability,
        c.replaced ==> ctx_after_seq(c, s, a).replaced,
    decreases s, s.len(),
{
    if s.len() > 0 {
        let init = s.subrange(0, s.len() - 1);
        lemma_ctx_keeps_seq(c, init, a);
        lemma_ctx_keeps(ctx_after_seq(c, init, a), s[s.len() - 1], a);
    }
}

/// The state after the first `j` patterns is replaced: so is the state
/// after all of them.
proof fn lemma_replaced_prefix(c: CtxP, s: Seq<Pat>, a: bool, j: int)
    requires
        0 <= j <= s.len(),
        ctx_after_seq(c, s.subrange(0, j), a).replaced,
    ensures
        ctx_after_seq(c, s, a).replaced,
    decreases s.len(),
{
    if j == s.len() {
        assert(s.subrange(0, j) =~= s);
    } else {
        let init = s.subrange(0, s.len() - 1);
        assert(init.subrange(0, j) =~= s.subrange(0, j));
        lemma_replaced_prefix(c, init, a, j);
        lemma_ctx_keeps(ctx_after_seq(c, init, a), s[s.len() - 1], a);
    }
}

/// Each pattern of a sequence is replaced in the state the patterns before
/// it left.
proof fn lemma_seq_out_each(c: CtxP, s: Seq<Pat>, a: bool, s2: Seq<Pat>)
    requires
        seq_out(c, s, a, s2),
    ensures
        s2.len() == s.len(),
        forall|k: int| 0 <= k < s.len() ==> #[trigger] pat_out(ctx_after_seq(c, s.subrange(0, k), a), s[k], a, s2[k]),
    decreases s.len(),
{
    if s.len() > 0 {
        let n = s.len() - 1;
        let init = s.subrange(0, n);
        let init2 = s2.subrange(0, n);
        lemma_seq_out_each(c, init, a, init2);
        assert forall|k: int| 0 <= k < s.len() implies #[trigger] pat_out(ctx_after_seq(c, s.subrange(0, k), a), s[k], a, s2[k]) by {
            if k < n {
                assert(init.subrange(0, k) =~= s.subrange(0, k));
                assert(pat_out(ctx_after_seq(c, init.subrange(0, k), a), init[k], a, init2[k]));
            }
        }
    }
}

/// The pattern is `Path(..)` or `Path { .. }`, with a path that the
/// replacement applies to in state `c`.
pub open spec fn applies_to_case(c: CtxP, p: Pat) -> bool {
    match p {
        Pat::TupleStruct(path) => path.segments@.len() > 0 && path_applies(c, path),
        Pat::Struct(path) => path.segments@.len() > 0 && path_applies(c, path),
        _ => false,
    }
}

/// `p2` is the pattern `p` of the same kind, whose path starts with the
/// name of the projected type for the projection `m`.
pub open spec fn names_projection(p: Pat, p2: Pat, m: Mutability) -> bool {
    match (p, p2) {
        (Pat::TupleStruct(path), Pat::TupleStruct(path2)) =>
            path2.segments@.len() > 0 && path2.segments@[0].0@ == proj_ident_spec(path.segments@[0].0@, m),
        (Pat::Struct(path), Pat::Struct(path2)) =>
            path2.segments@.len() > 0 && path2.segments@[0].0@ == proj_ident_spec(path.segments@[0].0@, m),
        _ => false,
    }
}

/// Replacing in an or-pattern replaces in each of its cases, in order: the
/// result is an or-pattern with as many cases, each case `Path(..)` or
/// `Path { .. }` whose path the replacement applies to, in the state the
/// earlier cases left, names the projected type, and once the first case
/// was replaced, the state after the whole or-pattern is replaced too.
pub proof fn law_or_pattern_replaced_case_by_case(c: CtxP, cases: Vec<Pat>, a: bool, p2: Pat)
    requires
        pat_out(c, Pat::Or(cases), a, p2),
    ensures
        p2 is Or,
        p2->Or_0@.len() == cases@.len(),
        forall|k: int| 0 <= k < cases@.len() && applies_to_case(ctx_after_seq(c, cases@.subrange(0, k), a), #[trigger] cases@[k])
            ==> names_projection(cases@[k], p2->Or_0@[k], c.mutability),
        cases@.len() > 0 && ctx_after(c, cases@[0], a).replaced ==> ctx_after(c, Pat::Or(cases), a).replaced,
{
    let s = cases@;
    let s2 = p2->Or_0@;
    lemma_seq_out_each(c, s, a, s2);
    assert forall|k: int| 0 <= k < s.len() && applies_to_case(ctx_after_seq(c, s.subrange(0, k), a), #[trigger] s[k])
        implies names_projection(s[k], s2[k], c.mutability) by {
        assert(pat_out(ctx_after_seq(c, s.subrange(0, k), a), s[k], a, s2[k]));
        lemma_ctx_keeps_seq(c, s.subrange(0, k), a);
    }
    if s.len() > 0 && ctx_after(c, s[0], a).replaced {
        assert(s.subrange(0, 0) =~= Seq::<Pat>::empty());
        assert(ctx_after_seq(c, s.subrange(0, 0), a) == c);
        assert(s.subrange(0, 1).subrange(0, 0) =~= s.subrange(0, 0));
        assert(ctx_after_seq(c, s.subrange(0, 1), a) == ctx_after(c, s[0], a));
        lemma_replaced_prefix(c, s, a, 1);
    }
}

/// The owned projection holds `PhantomData<ty>` in place of a pinned field
/// and the field's own type otherwise; replacing the value moves out the
/// unpinned fields only, and the pinned ones are dropped in place, each by
/// a guard.
pub proof fn law_owned_projection_keeps_pinned_in_place(f: Field, i: nat, pinned: bool, lt: Seq<char>, named: bool)
    ensures
        ({
            let id = if named { field_name(f) } else { unnamed_id(i) };
            let pre = if named { f.vis@ + " "@ + id + ": "@ } else { f.vis@ + " "@ };
            let piece = |part: Part| if named { named_piece(f, pinned, lt, part) } else { unnamed_piece(f, i, pinned, lt, part) };
            &&& piece(Part::OwnField) == pre + (if pinned { "::core::marker::PhantomData<"@ + f.ty@ + ">"@ } else { f.ty@ })
            &&& pinned ==> ends_with(piece(Part::Move), "::core::marker::PhantomData"@)
            &&& !pinned ==> ends_with(piece(Part::Move), "::core::ptr::read("@ + id + ")"@)
            &&& pinned ==> piece(Part::Drop) == "let __guard = ::pin_project::__private::UnsafeDropInPlaceGuard("@ + id + "); "@
            &&& !pinned ==> piece(Part::Drop).len() == 0
        }),
{
    let id = if named { field_name(f) } else { unnamed_id(i) };
    let pre = if named { f.vis@ + " "@ + id + ": "@ } else { f.vis@ + " "@ };
    let piece = |part: Part| if named { named_piece(f, pinned, lt, part) } else { unnamed_piece(f, i, pinned, lt, part) };
    reveal_strlit(" ");
    reveal_strlit(": ");
    reveal_strlit(": ::core::marker::PhantomData<");
    reveal_strlit(" ::core::marker::PhantomData<");
    reveal_strlit("::core::marker::PhantomData<");
    reveal_strlit(": ::core::marker::PhantomData");
    reveal_strlit("::core::marker::PhantomData");
    reveal_strlit(": ::core::ptr::read(");
    reveal_strlit("::core::ptr::read(");
    assert(piece(Part::OwnField) =~= pre + (if pinned { "::core::marker::PhantomData<"@ + f.ty@ + ">"@ } else { f.ty@ }));
    let m = piece(Part::Move);
    if pinned {
        let t = "::core::marker::PhantomData"@;
        if named {
            assert(m =~= id + ": "@ + t);
        }
        assert(m.subrange(m.len() - t.len(), m.len() as int) =~= t);
    } else {
        let t = "::core::ptr::read("@ + id + ")"@;
        if named {
            assert(m =~= id + ": "@ + t);
        }
        assert(m.subrange(m.len() - t.len(), m.len() as int) =~= t);
    }
}

/// The parts of a concatenation each stand in it, one after another.
proof fn lemma_concat_holds(items: Seq<Seq<char>>, k: int)
    requires
        0 <= k < items.len(),
    ensures
        holds_text(crate::text::concat(items), items[k]),
    decreases items.len(),
{
    let c = crate::text::concat(items);
    let init = items.drop_last();
    if k == items.len() - 1 {
        let i = crate::text::concat(init).len() as int;
        assert(c.subrange(i, i + items[k].len()) =~= items[k]);
    } else {
        lemma_concat_holds(init, k);
        let ci = crate::text::concat(init);
        let j = choose|j: int| 0 <= j && j + init[k].len() <= ci.len() && #[trigger] ci.subrange(j, j + init[k].len()) == init[k];
        assert(c.subrange(j, j + items[k].len()) =~= ci.subrange(j, j + init[k].len()));
    }
}

/// Without arguments, the type is `Unpin` exactly when every pinned field
/// is: the generated struct holds one field `__field<k>: ty` for each
/// pinned field type, in order, and the `Unpin` impl of the type ends
/// with the bound that this struct is `Unpin`.
pub proof fn law_auto_unpin_impl_follows_pinned_fields(c: CtxV)
    requires
        c.args.unsafe_unpin is None,
        c.args.not_unpin is None,
    ensures
        forall|k: int| 0 <= k < c.pinned.len() ==> holds_text(unpin_impl_text(c),
            "__field"@ + crate::text::decimal(k as nat) + ": "@ + #[trigger] c.pinned[k] + ", "@),
        ends_with(unpin_impl_text(c), "__"@ + c.ident + proj_params_text(c.lt, c.params, ParamStyle::Argument) + ": ::core::marker::Unpin"@ + " {}"@),
{
    let t = unpin_impl_text(c);
    let items = Seq::new(c.pinned.len(), |i: int| "__field"@ + crate::text::decimal(i as nat) + ": "@ + c.pinned[i] + ", "@);
    let u = crate::derive::unpin_fields(c.pinned);
    let ip = proj_params_text(c.lt, c.params, ParamStyle::Impl);
    let pre = c.vis + " struct __"@ + c.ident + proj_params_text(c.lt, c.params, ParamStyle::Declaration) + " "@ + where_text(c.preds)
        + " { __pin_project_use_generics: ::pin_project::__private::AlwaysUnpin<"@ + c.lt + ", ("@
        + join_with(crate::derive::type_param_names(c.params), ", "@) + ")>, "@;
    let bound = "__"@ + c.ident + proj_params_text(c.lt, c.params, ParamStyle::Argument) + ": ::core::marker::Unpin"@;
    let rest = crate::derive::lifetime_fields(lifetime_names(c.params)) + "} impl"@ + ip + " ::core::marker::Unpin for "@ + self_ty(c) + " "@
        + where_text(c.preds.push(bound)) + " {}"@;
    assert(t =~= pre + u + rest);
    assert forall|k: int| 0 <= k < c.pinned.len() implies holds_text(t,
        "__field"@ + crate::text::decimal(k as nat) + ": "@ + #[trigger] c.pinned[k] + ", "@) by {
        lemma_concat_holds(items, k);
        let x = items[k];
        let j = choose|j: int| 0 <= j && j + x.len() <= u.len() && #[trigger] u.subrange(j, j + x.len()) == x;
        let o = pre.len() + j;
        assert(t.subrange(o, o + x.len()) =~= u.subrange(j, j + x.len()));
    }
    lemma_where_ends_with_last(c.preds, bound);
    let w = where_text(c.preds.push(bound));
    let e = bound + " {}"@;
    assert(t.subrange(t.len() - e.len(), t.len() as int) =~= w.subrange(w.len() - bound.len(), w.len() as int) + " {}"@);
}

/// With `!Unpin`, the type is never `Unpin`: its `Unpin` impl is bounded
/// on `PhantomPinned` being `Unpin`, and an `UnsafeUnpin` impl for the
/// type follows, with which any impl of the user would conflict.
pub proof fn law_not_unpin_impl_never_applies(c: CtxV)
    requires
        c.args.unsafe_unpin is None,
        c.args.not_unpin is Some,
    ensures
        starts_with(unpin_impl_text(c), "#[allow(single_use_lifetimes)] impl"@ + proj_params_text(c.lt, c.params, ParamStyle::Impl)
            + " ::core::marker::Unpin for "@ + self_ty(c) + " where "@),
        holds_text(unpin_impl_text(c), "::pin_project::__private::Wrapper<"@ + c.lt + ", ::core::marker::PhantomPinned>: ::core::marker::Unpin"@ + " {}"@),
        ends_with(unpin_impl_text(c), " impl"@ + params_text(c.params, ParamStyle::Impl) + " ::pin_project::UnsafeUnpin for "@ + self_ty(c) + " "@
            + where_text(c.preds) + " {}"@),
{
    let t = unpin_impl_text(c);
    let head = "#[allow(single_use_lifetimes)] impl"@ + proj_params_text(c.lt, c.params, ParamStyle::Impl) + " ::core::marker::Unpin for "@
        + self_ty(c) + " "@;
    let b = "::pin_project::__private::Wrapper<"@ + c.lt + ", ::core::marker::PhantomPinned>: ::core::marker::Unpin"@;
    let w = where_text(c.preds.push(b));
    let tail = " impl"@ + params_text(c.params, ParamStyle::Impl) + " ::pin_project::UnsafeUnpin for "@ + self_ty(c) + " "@
        + where_text(c.preds) + " {}"@;
    assert(t =~= head + w + " {}"@ + tail);
    lemma_where_ends_with_last(c.preds, b);
    reveal_strlit(" where ");
    reveal_strlit(" ");
    reveal_strlit("where ");
    reveal_strlit(" {}");
    assert(w.subrange(0, 6) =~= "where "@);
    let s1 = head + "where "@;
    assert(t.subrange(0, s1.len() as int) =~= head + w.subrange(0, 6));
    assert(s1 =~= "#[allow(single_use_lifetimes)] impl"@ + proj_params_text(c.lt, c.params, ParamStyle::Impl)
        + " ::core::marker::Unpin for "@ + self_ty(c) + " where "@);
    let x = b + " {}"@;
    let o = (head + w).len() - b.len();
    assert(t.subrange(o, o + x.len()) =~= w.subrange(w.len() - b.len(), w.len() as int) + " {}"@);
    assert(t.subrange(t.len() - tail.len(), t.len() as int) =~= tail);
}

/// Without `PinnedDrop`, the type gets no `Drop` impl of its own: a trait
/// is declared and implemented for every type that implements `Drop`, and
/// for the type itself, so that an impl of `Drop` by the user conflicts;
/// and the type gets an empty `PinnedDrop` impl, so that one by the user
/// conflicts too.
#[verifier::rlimit(60)]
#[verifier::spinoff_prover]
pub proof fn law_no_pinned_drop_forbids_drop(c: CtxV)
    requires
        c.args.pinned_drop is None,
    ensures
        starts_with(drop_impl_text(c), "trait "@ + c.ident + "MustNotImplDrop"@
            + " {} #[allow(clippy::drop_bounds)] impl<T: ::core::ops::Drop> "@ + c.ident + "MustNotImplDrop"@),
        holds_text(drop_impl_text(c), " for T {} #[allow(single_use_lifetimes)] impl"@ + params_text(c.params, ParamStyle::Impl) + " "@
            + c.ident + "MustNotImplDrop"@ + " for "@ + self_ty(c)),
        ends_with(drop_impl_text(c), " ::pin_project::__private::PinnedDrop for "@ + self_ty(c) + " "@ + where_text(c.preds)
            + " { unsafe fn drop(self: ::core::pin::Pin<&mut Self>) {} }"@),
{
    let t = drop_impl_text(c);
    let n = c.ident + "MustNotImplDrop"@;
    let ig = params_text(c.params, ParamStyle::Impl);
    let wc = where_text(c.preds);
    let a = "trait "@ + n + " {} #[allow(clippy::drop_bounds)] impl<T: ::core::ops::Drop> "@ + n;
    let x = " for T {} #[allow(single_use_lifetimes)] impl"@ + ig + " "@ + n + " for "@ + self_ty(c);
    let m = " "@ + wc + " {} #[allow(single_use_lifetimes)] impl"@ + ig;
    let e = " ::pin_project::__private::PinnedDrop for "@ + self_ty(c) + " "@ + wc + " { unsafe fn drop(self: ::core::pin::Pin<&mut Self>) {} }"@;
    assert(t =~= a + x + m + e);
    assert(t.subrange(0, a.len() as int) =~= a);
    assert(a =~= "trait "@ + c.ident + "MustNotImplDrop"@
        + " {} #[allow(clippy::drop_bounds)] impl<T: ::core::ops::Drop> "@ + c.ident + "MustNotImplDrop"@);
    let i: int = a.len() as int;
    assert(t.subrange(i, i + x.len()) =~= x);
    assert(x =~= " for T {} #[allow(single_use_lifetimes)] impl"@ + params_text(c.params, ParamStyle::Impl) + " "@
        + c.ident + "MustNotImplDrop"@ + " for "@ + self_ty(c));
    assert(t.subrange(t.len() - e.len(), t.len() as int) =~= e);
}

} // verus!
