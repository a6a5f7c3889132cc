//! The expansion of the derive that `#[pin_project]` attaches to the item:
//! the projected types, the projection methods, the `Unpin` and `Drop`
//! implementations and the check against `#[repr(packed)]`.
use vstd::prelude::*;

use crate::args::{get_args, get_args_defined, get_args_spec, Args};
use crate::error::{Diag, Error};
use crate::generics::{angle, params_of, params_text, params_to_text, push_params, where_text, ParamStyle};
use crate::model::{Field, Fields, GenericParam, Generics, Variant, Vis};
use crate::names::Mutability;
use crate::project_fields::{pin_flags, projection, visit_fields, pinned_types, unit_fields, unit_projection, ProjTexts, ProjectedFields};
use crate::names::{determine_lifetime_name, fresh_lifetime, lifetime_names, vis_text, vis_to_text};
use crate::text::{concat, decimal, decimal_text, join_strings, join_with, text_is, views};
use crate::tokens::{tree_loc, Delimiter, TokenTree};
use crate::args::{is_comma, token_loc};
use crate::model::{Attr, Item};
use crate::validate::{validate_enum, validate_enum_spec, validate_struct, validate_struct_spec};
use crate::project_fields::field_name;
use crate::attrs::is_ident;

verus! {

/// What the expansion knows of the original type.
pub struct Context {
    /// Visibility of the original type, as text.
    pub orig_vis: String,
    /// Visibility of the projected types and methods, as text.
    pub proj_vis: String,
    pub orig_ident: String,
    pub orig_params: Vec<GenericParam>,
    /// Predicates of the original where clause.
    pub orig_preds: Vec<String>,
    /// Lifetime of the projected types.
    pub lifetime: String,
    /// Types of the pinned fields seen so far.
    pub pinned_fields: Vec<String>,
    pub args: Args,
}

/// The mathematical content of a [`Context`].
pub struct CtxV {
    pub vis: Seq<char>,
    pub proj_vis: Seq<char>,
    pub ident: Seq<char>,
    pub params: Seq<GenericParam>,
    pub preds: Seq<Seq<char>>,
    pub lt: Seq<char>,
    pub pinned: Seq<Seq<char>>,
    pub args: Args,
}

impl View for Context {
    type V = CtxV;

    open spec fn view(&self) -> CtxV {
        CtxV {
            vis: self.orig_vis@,
            proj_vis: self.proj_vis@,
            ident: self.orig_ident@,
            params: self.orig_params@,
            preds: views(self.orig_preds@),
            lt: self.lifetime@,
            pinned: views(self.pinned_fields@),
            args: self.args,
        }
    }
}

/// Visibility of the projected types and methods: `pub` is narrowed to
/// `pub(crate)`, any other is kept.
pub open spec fn proj_vis_text(vis: Vis) -> Seq<char> {
    match vis {
        Vis::Public => "pub(crate)"@,
        _ => vis_text(vis),
    }
}

/// The lifetime of the projected types: `'pin`, followed by as few
/// underscores as make it clash with no lifetime of the original type.
pub open spec fn proj_lifetime(params: Seq<GenericParam>) -> Seq<char> {
    fresh_lifetime("'pin"@, lifetime_names(params))
}

/// The where predicates of `g`, a clause being made where there was none.
pub open spec fn made_preds(g: Generics) -> Seq<Seq<char>> {
    match g.where_clause {
        Some(p) => views(p@),
        None => Seq::empty(),
    }
}

/// The context made for an item, when its arguments parse.
pub open spec fn context_spec(vis: Vis, ident: Seq<char>, g: Generics, args: Args) -> CtxV {
    CtxV {
        vis: vis_text(vis),
        proj_vis: proj_vis_text(vis),
        ident,
        params: g.params@,
        preds: made_preds(g),
        lt: proj_lifetime(g.params@),
        pinned: Seq::empty(),
        args,
    }
}

fn clone_params(ps: &Vec<GenericParam>) -> (r: Vec<GenericParam>)
    ensures
        r@ == ps@,
{
    let mut r: Vec<GenericParam> = Vec::new();
    let mut i: usize = 0;
    while i < ps.len()
        invariant
            i <= ps@.len(),
            r@ == ps@.subrange(0, i as int),
        decreases ps@.len() - i,
    {
        let p = match &ps[i] {
            GenericParam::Lifetime { name, bounds } => GenericParam::Lifetime { name: name.clone(), bounds: bounds.clone() },
            GenericParam::Type { name, bounds, default } => GenericParam::Type { name: name.clone(), bounds: bounds.clone(), default: default.clone() },
            GenericParam::Const { name, ty, default } => GenericParam::Const { name: name.clone(), ty: ty.clone(), default: default.clone() },
        };
        r.push(p);
        assert(r@ =~= ps@.subrange(0, i + 1));
        i = i + 1;
    }
    assert(ps@.subrange(0, i as int) =~= ps@);
    r
}

fn clone_strings(v: &Vec<String>) -> (r: Vec<String>)
    ensures
        views(r@) == views(v@),
{
    let mut r: Vec<String> = Vec::new();
    let mut i: usize = 0;
    while i < v.len()
        invariant
            i <= v@.len(),
            views(r@) == views(v@.subrange(0, i as int)),
        decreases v@.len() - i,
    {
        let ghost prev = r@;
        r.push(v[i].clone());
        assert(views(r@) =~= views(prev).push(v@[i as int]@));
        assert(views(v@.subrange(0, i + 1)) =~= views(v@.subrange(0, i as int)).push(v@[i as int]@));
        i = i + 1;
    }
    assert(v@.subrange(0, i as int) =~= v@);
    r
}

impl Context {
    /// Reads the arguments handed on by `#[pin_project]` and works out the
    /// names, visibility and lifetime of the projection.
    pub fn new(attrs: &Vec<crate::model::Attr>, vis: &Vis, ident: &String, generics: &Generics) -> (r: Result<Context, Error>)
        requires
            get_args_defined(attrs@),
        ensures
            match get_args_spec(attrs@) {
                Err(d) => r matches Err(e) && e@ == d,
                Ok(a) => r matches Ok(c) && c@ == context_spec(*vis, ident@, *generics, a),
            },
    {
        let args = match get_args(attrs) {
            Err(e) => return Err(e),
            Ok(a) => a,
        };
        let orig_preds = match &generics.where_clause {
            Some(p) => clone_strings(p),
            None => Vec::new(),
        };
        let mut lifetime = String::from_str("'pin");
        determine_lifetime_name(&mut lifetime, &generics.params);
        let proj_vis = match vis {
            Vis::Public => String::from_str("pub(crate)"),
            _ => vis_to_text(vis),
        };
        let c = Context {
            orig_vis: vis_to_text(vis),
            proj_vis,
            orig_ident: ident.clone(),
            orig_params: clone_params(&generics.params),
            orig_preds,
            lifetime,
            pinned_fields: Vec::new(),
            args,
        };
        assert(views(c.pinned_fields@) =~= Seq::<Seq<char>>::empty());
        Ok(c)
    }
}

/// The parameters of the projected types: their lifetime, then those of
/// the original type.
pub open spec fn proj_params_text(lt: Seq<char>, ps: Seq<GenericParam>, style: ParamStyle) -> Seq<char> {
    angle(seq![lt] + params_of(ps, true, style) + params_of(ps, false, style))
}

/// Writes the parameters of the projected types.
pub fn proj_params_to_text(lt: &String, ps: &Vec<GenericParam>, style: ParamStyle) -> (r: String)
    ensures
        r@ == proj_params_text(lt@, ps@, style),
{
    let mut items: Vec<String> = Vec::new();
    items.push(lt.clone());
    push_params(ps, true, style, &mut items);
    push_params(ps, false, style, &mut items);
    assert(views(items@) =~= seq![lt@] + params_of(ps@, true, style) + params_of(ps@, false, style));
    let mut r = String::from_str("<");
    let j = join_strings(&items, ", ");
    r.append(j.as_str());
    r.append(">");
    r
}

/// Writes `where` with the predicates `preds` and then `extra`.
pub fn where_plus_to_text(preds: &Vec<String>, extra: String) -> (r: String)
    ensures
        r@ == where_text(views(preds@).push(extra@)),
{
    let mut all = clone_strings(preds);
    let ghost prev = all@;
    all.push(extra);
    assert(views(all@) =~= views(prev).push(extra@));
    crate::generics::where_to_text(&all)
}

/// The type of the original item: its name and its parameters.
pub open spec fn self_ty(c: CtxV) -> Seq<char> {
    c.ident + params_text(c.params, ParamStyle::Argument)
}

/// The predicate that ties the lifetime of the projected types to the original type.
pub open spec fn lifetime_pred(c: CtxV) -> Seq<char> {
    self_ty(c) + ": "@ + c.lt
}

/// The where clause of the projected types.
pub open spec fn proj_where(c: CtxV) -> Seq<char> {
    where_text(c.preds.push(lifetime_pred(c)))
}

impl Context {
    /// Name of a projected type.
    pub fn proj_ident(&self, m: crate::names::Mutability) -> (r: String)
        ensures
            r@ == crate::names::proj_ident_spec(self.orig_ident@, m),
    {
        crate::names::proj_ident(&self.orig_ident, m)
    }

    /// The type of the original item.
    pub fn self_ty(&self) -> (r: String)
        ensures
            r@ == self_ty(self@),
    {
        let mut r = self.orig_ident.clone();
        let g = params_to_text(&self.orig_params, ParamStyle::Argument);
        r.append(g.as_str());
        r
    }

    /// The where clause of the projected types.
    pub fn proj_where(&self) -> (r: String)
        ensures
            r@ == proj_where(self@),
    {
        let mut p = self.self_ty();
        p.append(": ");
        p.append(self.lifetime.as_str());
        where_plus_to_text(&self.orig_preds, p)
    }
}

/// The inherent impl with the projection methods, given their bodies.
pub open spec fn proj_impl_text(c: CtxV, mut_body: Seq<char>, ref_body: Seq<char>, own_body: Seq<char>) -> Seq<char> {
    let lt = c.lt;
    let pty = proj_params_text(lt, c.params, ParamStyle::Argument);
    let replace_method = if c.args.replace is Some {
        "#[allow(unsafe_code)] "@ + c.proj_vis + " fn project_replace(self: ::core::pin::Pin<&mut Self>, __replacement: Self) -> "@
            + crate::names::proj_ident_spec(c.ident, crate::names::Mutability::Owned) + params_text(c.params, ParamStyle::Argument)
            + " { unsafe { "@ + own_body + " } } "@
    } else {
        Seq::empty()
    };
    "impl"@ + params_text(c.params, ParamStyle::Impl) + " "@ + self_ty(c) + " "@ + where_text(c.preds) + " { "@
        + c.proj_vis + " fn project<"@ + lt + ">(self: ::core::pin::Pin<&"@ + lt + " mut Self>) -> "@
        + crate::names::proj_ident_spec(c.ident, crate::names::Mutability::Mutable) + pty
        + " { unsafe { "@ + mut_body + " } } "@
        + c.proj_vis + " fn project_ref<"@ + lt + ">(self: ::core::pin::Pin<&"@ + lt + " Self>) -> "@
        + crate::names::proj_ident_spec(c.ident, crate::names::Mutability::Immutable) + pty
        + " { unsafe { "@ + ref_body + " } } "@
        + replace_method + "}"@
}

impl Context {
    /// Creates the inherent impl with the projection methods `project`,
    /// `project_ref` and, with the `Replace` argument, `project_replace`.
    pub fn make_proj_impl(&self, mut_body: &String, ref_body: &String, own_body: &String) -> (r: String)
        ensures
            r@ == proj_impl_text(self@, mut_body@, ref_body@, own_body@),
    {
        let lt = &self.lifetime;
        let pty = proj_params_to_text(lt, &self.orig_params, ParamStyle::Argument);
        let mut r = String::from_str("impl");
        r.append(params_to_text(&self.orig_params, ParamStyle::Impl).as_str());
        r.append(" ");
        r.append(self.self_ty().as_str());
        r.append(" ");
        r.append(crate::generics::where_to_text(&self.orig_preds).as_str());
        r.append(" { ");
        r.append(self.proj_vis.as_str());
        r.append(" fn project<");
        r.append(lt.as_str());
        r.append(">(self: ::core::pin::Pin<&");
        r.append(lt.as_str());
        r.append(" mut Self>) -> ");
        r.append(self.proj_ident(crate::names::Mutability::Mutable).as_str());
        r.append(pty.as_str());
        r.append(" { unsafe { ");
        r.append(mut_body.as_str());
        r.append(" } } ");
        r.append(self.proj_vis.as_str());
        r.append(" fn project_ref<");
        r.append(lt.as_str());
        r.append(">(self: ::core::pin::Pin<&");
        r.append(lt.as_str());
        r.append(" Self>) -> ");
        r.append(self.proj_ident(crate::names::Mutability::Immutable).as_str());
        r.append(pty.as_str());
        r.append(" { unsafe { ");
        r.append(ref_body.as_str());
        r.append(" } } ");
        let ghost before = r@;
        let mut m = String::new();
        if self.args.replace.is_some() {
            m.append("#[allow(unsafe_code)] ");
            m.append(self.proj_vis.as_str());
            m.append(" fn project_replace(self: ::core::pin::Pin<&mut Self>, __replacement: Self) -> ");
            m.append(self.proj_ident(crate::names::Mutability::Owned).as_str());
            m.append(params_to_text(&self.orig_params, ParamStyle::Argument).as_str());
            m.append(" { unsafe { ");
            m.append(own_body.as_str());
            m.append(" } } ");
        }
        r.append(m.as_str());
        r.append("}");
        proof {
            reveal_strlit("");
        }
        assert(r@ =~= proj_impl_text(self@, mut_body@, ref_body@, own_body@));
        r
    }
}

/// The fields of a struct with its where clause: before the fields for
/// named fields, after them (and a `;`) for a tuple struct.
pub open spec fn with_where(named: bool, w: Seq<char>, fields: Seq<char>) -> Seq<char> {
    if named {
        w + " "@ + fields
    } else {
        fields + " "@ + w + ";"@
    }
}

/// The statements that move the unpinned fields out, overwrite the value
/// with the replacement and drop the pinned fields in place.
pub open spec fn own_result(head: Seq<char>, moves: Seq<char>, drops: Seq<char>) -> Seq<char> {
    "let __result = "@ + head + " "@ + moves
        + "; let __guard = ::pin_project::__private::UnsafeOverwriteGuard { target: __self_ptr, value: ::core::mem::ManuallyDrop::new(__replacement) }; { "@
        + drops + "} __result"@
}

/// Writes [`own_result`].
pub fn own_result_text(head: &String, moves: &String, drops: &String) -> (r: String)
    ensures
        r@ == own_result(head@, moves@, drops@),
{
    let mut r = String::from_str("let __result = ");
    r.append(head.as_str());
    r.append(" ");
    r.append(moves.as_str());
    r.append("; let __guard = ::pin_project::__private::UnsafeOverwriteGuard { target: __self_ptr, value: ::core::mem::ManuallyDrop::new(__replacement) }; { ");
    r.append(drops.as_str());
    r.append("} __result");
    r
}

/// The projected struct types.
pub open spec fn struct_items_text(c: CtxV, pt: ProjTexts, named: bool) -> Seq<char> {
    let dp = proj_params_text(c.lt, c.params, ParamStyle::Declaration);
    let own = if c.args.replace is Some {
        " #[allow(dead_code)] "@ + c.proj_vis + " struct "@ + crate::names::proj_ident_spec(c.ident, Mutability::Owned)
            + params_text(c.params, ParamStyle::Declaration) + " "@ + with_where(named, where_text(c.preds), pt.own_fields)
    } else {
        Seq::empty()
    };
    "#[allow(clippy::mut_mut)] #[allow(dead_code)] "@ + c.proj_vis + " struct "@ + crate::names::proj_ident_spec(c.ident, Mutability::Mutable)
        + dp + " "@ + with_where(named, proj_where(c), pt.fields)
        + " #[allow(dead_code)] "@ + c.proj_vis + " struct "@ + crate::names::proj_ident_spec(c.ident, Mutability::Immutable)
        + dp + " "@ + with_where(named, proj_where(c), pt.ref_fields)
        + own
}

/// Body of `project` for a struct.
pub open spec fn struct_mut_body(c: CtxV, pt: ProjTexts) -> Seq<char> {
    "let "@ + c.ident + " "@ + pt.pat + " = self.get_unchecked_mut(); "@ + crate::names::proj_ident_spec(c.ident, Mutability::Mutable) + " "@ + pt.body
}

/// Body of `project_ref` for a struct.
pub open spec fn struct_ref_body(c: CtxV, pt: ProjTexts) -> Seq<char> {
    "let "@ + c.ident + " "@ + pt.pat + " = self.get_ref(); "@ + crate::names::proj_ident_spec(c.ident, Mutability::Immutable) + " "@ + pt.body
}

/// Body of `project_replace` for a struct.
pub open spec fn struct_own_body(c: CtxV, pt: ProjTexts) -> Seq<char> {
    "let __self_ptr: *mut Self = self.get_unchecked_mut(); let "@ + c.ident + " "@ + pt.pat + " = &mut *__self_ptr; "@
        + own_result(crate::names::proj_ident_spec(c.ident, Mutability::Owned), pt.moves, pt.drops)
}

/// The list of fields and whether they are named.
pub open spec fn field_list(fields: Fields) -> (Seq<Field>, bool) {
    match fields {
        Fields::Named(fs) => (fs@, true),
        Fields::Unnamed(fs) => (fs@, false),
        Fields::Unit => (Seq::empty(), true),
    }
}

impl Context {
    /// Projects the fields of a struct: the projected types and the impl
    /// with the projection methods.
    pub fn parse_struct(&mut self, fields: &Fields) -> (r: Result<(String, String), Error>)
        requires
            !(fields is Unit),
        ensures
            match pin_flags(field_list(*fields).0) {
                Err(d) => r matches Err(e) && e@ == d,
                Ok(flags) => {
                    let (fs, named) = field_list(*fields);
                    let pt = projection(fs, flags, old(self)@.lt, named);
                    &&& r matches Ok((items, imp))
                    &&& items@ == struct_items_text(old(self)@, pt, named)
                    &&& imp@ == proj_impl_text(old(self)@, struct_mut_body(old(self)@, pt),
                            struct_ref_body(old(self)@, pt), struct_own_body(old(self)@, pt))
                    &&& final(self)@ == (CtxV { pinned: old(self)@.pinned + pinned_types(fs, flags), ..old(self)@ })
                },
            },
    {
        let (fs, named) = match fields {
            Fields::Named(f) => (f, true),
            Fields::Unnamed(f) => (f, false),
            Fields::Unit => {
                proof { assert(false); }
                return Err(crate::error::error_at(0, "unreachable"));
            },
        };
        let lt = self.lifetime.clone();
        let p = match visit_fields(fs, named, &lt, &mut self.pinned_fields) {
            Err(e) => return Err(e),
            Ok(p) => p,
        };
        let dp = proj_params_to_text(&self.lifetime, &self.orig_params, ParamStyle::Declaration);
        let pw = self.proj_where();
        let ow = crate::generics::where_to_text(&self.orig_preds);
        let mut items = String::from_str("#[allow(clippy::mut_mut)] #[allow(dead_code)] ");
        items.append(self.proj_vis.as_str());
        items.append(" struct ");
        items.append(self.proj_ident(Mutability::Mutable).as_str());
        items.append(dp.as_str());
        items.append(" ");
        items.append(with_where_text(named, &pw, &p.proj_fields).as_str());
        items.append(" #[allow(dead_code)] ");
        items.append(self.proj_vis.as_str());
        items.append(" struct ");
        items.append(self.proj_ident(Mutability::Immutable).as_str());
        items.append(dp.as_str());
        items.append(" ");
        items.append(with_where_text(named, &pw, &p.proj_ref_fields).as_str());
        let mut own = String::new();
        if self.args.replace.is_some() {
            own.append(" #[allow(dead_code)] ");
            own.append(self.proj_vis.as_str());
            own.append(" struct ");
            own.append(self.proj_ident(Mutability::Owned).as_str());
            own.append(params_to_text(&self.orig_params, ParamStyle::Declaration).as_str());
            own.append(" ");
            own.append(with_where_text(named, &ow, &p.proj_own_fields).as_str());
        }
        items.append(own.as_str());
        proof {
            reveal_strlit("");
        }
        assert(items@ =~= struct_items_text(old(self)@, p@, named));

        let mut mb = String::from_str("let ");
        mb.append(self.orig_ident.as_str());
        mb.append(" ");
        mb.append(p.proj_pat.as_str());
        mb.append(" = self.get_unchecked_mut(); ");
        mb.append(self.proj_ident(Mutability::Mutable).as_str());
        mb.append(" ");
        mb.append(p.proj_body.as_str());

        let mut rb = String::from_str("let ");
        rb.append(self.orig_ident.as_str());
        rb.append(" ");
        rb.append(p.proj_pat.as_str());
        rb.append(" = self.get_ref(); ");
        rb.append(self.proj_ident(Mutability::Immutable).as_str());
        rb.append(" ");
        rb.append(p.proj_body.as_str());

        let mut ob = String::from_str("let __self_ptr: *mut Self = self.get_unchecked_mut(); let ");
        ob.append(self.orig_ident.as_str());
        ob.append(" ");
        ob.append(p.proj_pat.as_str());
        ob.append(" = &mut *__self_ptr; ");
        ob.append(own_result_text(&self.proj_ident(Mutability::Owned), &p.proj_move, &p.proj_drop).as_str());

        let imp = self.make_proj_impl(&mb, &rb, &ob);
        Ok((items, imp))
    }
}

/// Writes [`with_where`].
pub fn with_where_text(named: bool, w: &String, fields: &String) -> (r: String)
    ensures
        r@ == with_where(named, w@, fields@),
{
    if named {
        let mut r = w.clone();
        r.append(" ");
        r.append(fields.as_str());
        r
    } else {
        let mut r = fields.clone();
        r.append(" ");
        r.append(w.as_str());
        r.append(";");
        r
    }
}

/// Whether each field of each variant is pinned.
pub open spec fn variant_flags(vs: Seq<Variant>) -> Result<Seq<Seq<bool>>, Diag>
    decreases vs.len(),
{
    if vs.len() == 0 {
        Ok(Seq::empty())
    } else {
        match variant_flags(vs.drop_last()) {
            Err(d) => Err(d),
            Ok(fl) => match pin_flags(field_list(vs.last().fields).0) {
                Err(d) => Err(d),
                Ok(f) => Ok(fl.push(f)),
            },
        }
    }
}

proof fn lemma_variant_flags_len(vs: Seq<Variant>)
    ensures
        variant_flags(vs) matches Ok(fl) ==> fl.len() == vs.len(),
    decreases vs.len(),
{
    if vs.len() > 0 {
        lemma_variant_flags_len(vs.drop_last());
    }
}

proof fn lemma_variant_flags_err_sticks(vs: Seq<Variant>, k: int)
    requires
        0 <= k <= vs.len(),
        variant_flags(vs.subrange(0, k)) is Err,
    ensures
        variant_flags(vs) == variant_flags(vs.subrange(0, k)),
    decreases vs.len(),
{
    if k == vs.len() {
        assert(vs.subrange(0, k) =~= vs);
    } else {
        assert(vs.drop_last().subrange(0, k) =~= vs.subrange(0, k));
        lemma_variant_flags_err_sticks(vs.drop_last(), k);
    }
}

/// The projections of the fields of a variant.
pub open spec fn variant_pt(lt: Seq<char>, v: Variant, flags: Seq<bool>) -> ProjTexts {
    match v.fields {
        Fields::Unit => unit_projection(),
        _ => projection(field_list(v.fields).0, flags, lt, field_list(v.fields).1),
    }
}

/// The pieces of the projected enums and of the projection methods.
#[derive(Clone, Copy, PartialEq, Eq, Structural)]
pub enum VariantPart {
    MutVariant,
    RefVariant,
    OwnVariant,
    MutArm,
    RefArm,
    OwnArm,
}

/// A piece made from one variant.
pub open spec fn variant_piece(c: CtxV, v: Variant, pt: ProjTexts, part: VariantPart) -> Seq<char> {
    let head = c.ident + "::"@ + v.ident@ + " "@ + pt.pat + " => { "@;
    match part {
        VariantPart::MutVariant => v.ident@ + " "@ + pt.fields + ", "@,
        VariantPart::RefVariant => v.ident@ + " "@ + pt.ref_fields + ", "@,
        VariantPart::OwnVariant => v.ident@ + " "@ + pt.own_fields + ", "@,
        VariantPart::MutArm => head + crate::names::proj_ident_spec(c.ident, Mutability::Mutable) + "::"@ + v.ident@ + " "@ + pt.body + " } "@,
        VariantPart::RefArm => head + crate::names::proj_ident_spec(c.ident, Mutability::Immutable) + "::"@ + v.ident@ + " "@ + pt.body + " } "@,
        VariantPart::OwnArm => head + own_result(crate::names::proj_ident_spec(c.ident, Mutability::Owned) + "::"@ + v.ident@, pt.moves, pt.drops) + " } "@,
    }
}

/// A piece made from each variant, one after another.
pub open spec fn variants_text(c: CtxV, vs: Seq<Variant>, fl: Seq<Seq<bool>>, part: VariantPart) -> Seq<char> {
    concat(Seq::new(vs.len(), |i: int| variant_piece(c, vs[i], variant_pt(c.lt, vs[i], fl[i]), part)))
}

/// The types of the pinned fields of all variants, in order.
pub open spec fn variants_pinned(vs: Seq<Variant>, fl: Seq<Seq<bool>>) -> Seq<Seq<char>>
    decreases vs.len(),
{
    if vs.len() == 0 {
        Seq::empty()
    } else {
        variants_pinned(vs.drop_last(), fl.subrange(0, vs.len() - 1))
            + pinned_types(field_list(vs.last().fields).0, fl[vs.len() - 1])
    }
}

/// The texts collected from the variants.
pub struct ProjectedVariants {
    pub proj_variants: String,
    pub proj_ref_variants: String,
    pub proj_own_variants: String,
    pub proj_arms: String,
    pub proj_ref_arms: String,
    pub proj_own_arms: String,
}

impl Context {
    fn variant_piece_text(&self, v: &Variant, p: &ProjectedFields, part: VariantPart) -> (r: String)
        ensures
            r@ == variant_piece(self@, *v, p@, part),
    {
        match part {
            VariantPart::MutVariant | VariantPart::RefVariant | VariantPart::OwnVariant => {
                let mut r = v.ident.clone();
                r.append(" ");
                match part {
                    VariantPart::MutVariant => r.append(p.proj_fields.as_str()),
                    VariantPart::RefVariant => r.append(p.proj_ref_fields.as_str()),
                    _ => r.append(p.proj_own_fields.as_str()),
                }
                r.append(", ");
                r
            },
            _ => {
                let mut r = self.orig_ident.clone();
                r.append("::");
                r.append(v.ident.as_str());
                r.append(" ");
                r.append(p.proj_pat.as_str());
                r.append(" => { ");
                match part {
                    VariantPart::MutArm | VariantPart::RefArm => {
                        let m = if part == VariantPart::MutArm { Mutability::Mutable } else { Mutability::Immutable };
                        r.append(self.proj_ident(m).as_str());
                        r.append("::");
                        r.append(v.ident.as_str());
                        r.append(" ");
                        r.append(p.proj_body.as_str());
                    },
                    _ => {
                        let mut head = self.proj_ident(Mutability::Owned);
                        head.append("::");
                        head.append(v.ident.as_str());
                        r.append(own_result_text(&head, &p.proj_move, &p.proj_drop).as_str());
                    },
                }
                r.append(" } ");
                r
            },
        }
    }

    /// Projects the variants of an enum.
    pub fn visit_variants(&mut self, variants: &Vec<Variant>) -> (r: Result<ProjectedVariants, Error>)
        ensures
            match variant_flags(variants@) {
                Err(d) => r matches Err(e) && e@ == d,
                Ok(fl) => r matches Ok(p)
                    && p.proj_variants@ == variants_text(old(self)@, variants@, fl, VariantPart::MutVariant)
                    && p.proj_ref_variants@ == variants_text(old(self)@, variants@, fl, VariantPart::RefVariant)
                    && p.proj_own_variants@ == variants_text(old(self)@, variants@, fl, VariantPart::OwnVariant)
                    && p.proj_arms@ == variants_text(old(self)@, variants@, fl, VariantPart::MutArm)
                    && p.proj_ref_arms@ == variants_text(old(self)@, variants@, fl, VariantPart::RefArm)
                    && p.proj_own_arms@ == variants_text(old(self)@, variants@, fl, VariantPart::OwnArm)
                    && final(self)@ == (CtxV { pinned: old(self)@.pinned + variants_pinned(variants@, fl), ..old(self)@ }),
            },
    {
        let mut out = ProjectedVariants {
            proj_variants: String::new(),
            proj_ref_variants: String::new(),
            proj_own_variants: String::new(),
            proj_arms: String::new(),
            proj_ref_arms: String::new(),
            proj_own_arms: String::new(),
        };
        let ghost c0 = self@;
        let ghost mut fl: Seq<Seq<bool>> = Seq::empty();
        let mut i: usize = 0;
        while i < variants.len()
            invariant
                i <= variants@.len(),
                fl.len() == i,
                variant_flags(variants@.subrange(0, i as int)) == Ok::<Seq<Seq<bool>>, Diag>(fl),
                self@ == (CtxV { pinned: c0.pinned + variants_pinned(variants@.subrange(0, i as int), fl), ..c0 }),
                c0 == old(self)@,
                out.proj_variants@ == variants_text(c0, variants@.subrange(0, i as int), fl, VariantPart::MutVariant),
                out.proj_ref_variants@ == variants_text(c0, variants@.subrange(0, i as int), fl, VariantPart::RefVariant),
                out.proj_own_variants@ == variants_text(c0, variants@.subrange(0, i as int), fl, VariantPart::OwnVariant),
                out.proj_arms@ == variants_text(c0, variants@.subrange(0, i as int), fl, VariantPart::MutArm),
                out.proj_ref_arms@ == variants_text(c0, variants@.subrange(0, i as int), fl, VariantPart::RefArm),
                out.proj_own_arms@ == variants_text(c0, variants@.subrange(0, i as int), fl, VariantPart::OwnArm),
            decreases variants@.len() - i,
        {
            let v = &variants[i];
            assert(variants@.subrange(0, i + 1).drop_last() =~= variants@.subrange(0, i as int));
            let ghost pinned_before = self@.pinned;
            let lt = self.lifetime.clone();
            let p = match &v.fields {
                Fields::Named(fs) => visit_fields(fs, true, &lt, &mut self.pinned_fields),
                Fields::Unnamed(fs) => visit_fields(fs, false, &lt, &mut self.pinned_fields),
                Fields::Unit => {
                    assert(pin_flags(Seq::<Field>::empty()) == Ok::<Seq<bool>, Diag>(Seq::empty()));
                    Ok(unit_fields())
                },
            };
            let p = match p {
                Err(e) => {
                    proof { lemma_variant_flags_err_sticks(variants@, i + 1); }
                    return Err(e);
                },
                Ok(p) => p,
            };
            let ghost f = pin_flags(field_list(v.fields).0)->Ok_0;
            proof {
                if v.fields is Unit {
                    assert(views(self.pinned_fields@) =~= pinned_before + pinned_types(Seq::<Field>::empty(), f));
                }
            }
            assert(p@ == variant_pt(c0.lt, *v, f));
            let ghost nfl = fl.push(f);
            let ghost pre = variants@.subrange(0, i as int);
            let ghost post = variants@.subrange(0, i + 1);
            proof {
                assert(post.drop_last() =~= pre);
                assert(nfl.subrange(0, i as int) =~= fl);
            }
            let ghost old_out = out;
            out.proj_variants.append(self.variant_piece_text(v, &p, VariantPart::MutVariant).as_str());
            out.proj_ref_variants.append(self.variant_piece_text(v, &p, VariantPart::RefVariant).as_str());
            out.proj_own_variants.append(self.variant_piece_text(v, &p, VariantPart::OwnVariant).as_str());
            out.proj_arms.append(self.variant_piece_text(v, &p, VariantPart::MutArm).as_str());
            out.proj_ref_arms.append(self.variant_piece_text(v, &p, VariantPart::RefArm).as_str());
            out.proj_own_arms.append(self.variant_piece_text(v, &p, VariantPart::OwnArm).as_str());
            proof {
                assert forall|part: VariantPart| #[trigger] variants_text(c0, post, nfl, part)
                    == variants_text(c0, pre, fl, part) + variant_piece(c0, *v, p@, part) by {
                    let sq = Seq::new(post.len(), |k: int| variant_piece(c0, post[k], variant_pt(c0.lt, post[k], nfl[k]), part));
                    assert(sq.drop_last() =~= Seq::new(pre.len(), |k: int| variant_piece(c0, pre[k], variant_pt(c0.lt, pre[k], fl[k]), part)));
                }
                assert(variants_text(c0, post, nfl, VariantPart::MutVariant) == variants_text(c0, pre, fl, VariantPart::MutVariant) + variant_piece(c0, *v, p@, VariantPart::MutVariant));
                assert(variants_text(c0, post, nfl, VariantPart::RefVariant) == variants_text(c0, pre, fl, VariantPart::RefVariant) + variant_piece(c0, *v, p@, VariantPart::RefVariant));
                assert(variants_text(c0, post, nfl, VariantPart::OwnVariant) == variants_text(c0, pre, fl, VariantPart::OwnVariant) + variant_piece(c0, *v, p@, VariantPart::OwnVariant));
                assert(variants_text(c0, post, nfl, VariantPart::MutArm) == variants_text(c0, pre, fl, VariantPart::MutArm) + variant_piece(c0, *v, p@, VariantPart::MutArm));
                assert(variants_text(c0, post, nfl, VariantPart::RefArm) == variants_text(c0, pre, fl, VariantPart::RefArm) + variant_piece(c0, *v, p@, VariantPart::RefArm));
                assert(variants_text(c0, post, nfl, VariantPart::OwnArm) == variants_text(c0, pre, fl, VariantPart::OwnArm) + variant_piece(c0, *v, p@, VariantPart::OwnArm));
                assert(variants_pinned(post, nfl) =~= variants_pinned(pre, fl) + pinned_types(field_list(v.fields).0, f));
                assert(self@.pinned == pinned_before + pinned_types(field_list(v.fields).0, f));
                assert(self@.pinned =~= c0.pinned + variants_pinned(post, nfl));
                fl = nfl;
            }
            i = i + 1;
        }
        assert(variants@.subrange(0, i as int) =~= variants@);
        Ok(out)
    }
}

/// The projected enum types.
pub open spec fn enum_items_text(c: CtxV, vs: Seq<Variant>, fl: Seq<Seq<bool>>) -> Seq<char> {
    let dp = proj_params_text(c.lt, c.params, ParamStyle::Declaration);
    let own = if c.args.replace is Some {
        " #[allow(dead_code)] "@ + c.proj_vis + " enum "@ + crate::names::proj_ident_spec(c.ident, Mutability::Owned)
            + params_text(c.params, ParamStyle::Declaration) + " "@ + where_text(c.preds) + " { "@
            + variants_text(c, vs, fl, VariantPart::OwnVariant) + "}"@
    } else {
        Seq::empty()
    };
    "#[allow(clippy::mut_mut)] #[allow(dead_code)] "@ + c.proj_vis + " enum "@ + crate::names::proj_ident_spec(c.ident, Mutability::Mutable)
        + dp + " "@ + proj_where(c) + " { "@ + variants_text(c, vs, fl, VariantPart::MutVariant) + "}"@
        + " #[allow(dead_code)] "@ + c.proj_vis + " enum "@ + crate::names::proj_ident_spec(c.ident, Mutability::Immutable)
        + dp + " "@ + proj_where(c) + " { "@ + variants_text(c, vs, fl, VariantPart::RefVariant) + "}"@
        + own
}

/// Body of `project` for an enum.
pub open spec fn enum_mut_body(c: CtxV, vs: Seq<Variant>, fl: Seq<Seq<bool>>) -> Seq<char> {
    "match self.get_unchecked_mut() { "@ + variants_text(c, vs, fl, VariantPart::MutArm) + "}"@
}

/// Body of `project_ref` for an enum.
pub open spec fn enum_ref_body(c: CtxV, vs: Seq<Variant>, fl: Seq<Seq<bool>>) -> Seq<char> {
    "match self.get_ref() { "@ + variants_text(c, vs, fl, VariantPart::RefArm) + "}"@
}

/// Body of `project_replace` for an enum.
pub open spec fn enum_own_body(c: CtxV, vs: Seq<Variant>, fl: Seq<Seq<bool>>) -> Seq<char> {
    "let __self_ptr: *mut Self = self.get_unchecked_mut(); match &mut *__self_ptr { "@ + variants_text(c, vs, fl, VariantPart::OwnArm) + "}"@
}

impl Context {
    /// Projects the variants of an enum: the projected types and the impl
    /// with the projection methods.
    pub fn parse_enum(&mut self, variants: &Vec<Variant>) -> (r: Result<(String, String), Error>)
        ensures
            match variant_flags(variants@) {
                Err(d) => r matches Err(e) && e@ == d,
                Ok(fl) => {
                    &&& r matches Ok((items, imp))
                    &&& items@ == enum_items_text(old(self)@, variants@, fl)
                    &&& imp@ == proj_impl_text(old(self)@, enum_mut_body(old(self)@, variants@, fl),
                            enum_ref_body(old(self)@, variants@, fl), enum_own_body(old(self)@, variants@, fl))
                    &&& final(self)@ == (CtxV { pinned: old(self)@.pinned + variants_pinned(variants@, fl), ..old(self)@ })
                },
            },
    {
        let ghost c0 = self@;
        let p = match self.visit_variants(variants) {
            Err(e) => return Err(e),
            Ok(p) => p,
        };
        let dp = proj_params_to_text(&self.lifetime, &self.orig_params, ParamStyle::Declaration);
        let pw = self.proj_where();
        let mut items = String::from_str("#[allow(clippy::mut_mut)] #[allow(dead_code)] ");
        items.append(self.proj_vis.as_str());
        items.append(" enum ");
        items.append(self.proj_ident(Mutability::Mutable).as_str());
        items.append(dp.as_str());
        items.append(" ");
        items.append(pw.as_str());
        items.append(" { ");
        items.append(p.proj_variants.as_str());
        items.append("}");
        items.append(" #[allow(dead_code)] ");
        items.append(self.proj_vis.as_str());
        items.append(" enum ");
        items.append(self.proj_ident(Mutability::Immutable).as_str());
        items.append(dp.as_str());
        items.append(" ");
        items.append(pw.as_str());
        items.append(" { ");
        items.append(p.proj_ref_variants.as_str());
        items.append("}");
        let mut own = String::new();
        if self.args.replace.is_some() {
            own.append(" #[allow(dead_code)] ");
            own.append(self.proj_vis.as_str());
            own.append(" enum ");
            own.append(self.proj_ident(Mutability::Owned).as_str());
            own.append(params_to_text(&self.orig_params, ParamStyle::Declaration).as_str());
            own.append(" ");
            own.append(crate::generics::where_to_text(&self.orig_preds).as_str());
            own.append(" { ");
            own.append(p.proj_own_variants.as_str());
            own.append("}");
        }
        items.append(own.as_str());
        proof {
            reveal_strlit("");
        }
        assert(items@ =~= enum_items_text(c0, variants@, variant_flags(variants@)->Ok_0));

        let mut mb = String::from_str("match self.get_unchecked_mut() { ");
        mb.append(p.proj_arms.as_str());
        mb.append("}");
        let mut rb = String::from_str("match self.get_ref() { ");
        rb.append(p.proj_ref_arms.as_str());
        rb.append("}");
        let mut ob = String::from_str("let __self_ptr: *mut Self = self.get_unchecked_mut(); match &mut *__self_ptr { ");
        ob.append(p.proj_own_arms.as_str());
        ob.append("}");
        let imp = self.make_proj_impl(&mb, &rb, &ob);
        Ok((items, imp))
    }
}

/// The names of the type parameters, in order.
pub open spec fn type_param_names(ps: Seq<GenericParam>) -> Seq<Seq<char>>
    decreases ps.len(),
{
    if ps.len() == 0 {
        Seq::empty()
    } else {
        let rest = type_param_names(ps.drop_last());
        match ps.last() {
            GenericParam::Type { name, .. } => rest.push(name@),
            _ => rest,
        }
    }
}

/// The fields of the struct that carries the conditions of the automatic
/// `Unpin` impl: one for each pinned field.
pub open spec fn unpin_fields(pinned: Seq<Seq<char>>) -> Seq<char> {
    concat(Seq::new(pinned.len(), |i: int| "__field"@ + decimal(i as nat) + ": "@ + pinned[i] + ", "@))
}

/// The fields that use each lifetime of the original type.
pub open spec fn lifetime_fields(lts: Seq<Seq<char>>) -> Seq<char> {
    concat(Seq::new(lts.len(), |i: int| "__lifetime"@ + decimal(i as nat) + ": &"@ + lts[i] + " (), "@))
}

/// The `Unpin` impl: with `UnsafeUnpin`, conditioned on the user's
/// `UnsafeUnpin` impl; with `!Unpin`, conditioned on `PhantomPinned` being
/// `Unpin`, which it never is, beside an `UnsafeUnpin` impl that any impl
/// of the user would conflict with; otherwise conditioned on every pinned
/// field being `Unpin`, through a struct with one field per pinned field.
pub open spec fn unpin_impl_text(c: CtxV) -> Seq<char> {
    let ip = proj_params_text(c.lt, c.params, ParamStyle::Impl);
    match c.args.unsafe_unpin {
        Some(_) => "#[allow(single_use_lifetimes)] impl"@ + ip + " ::core::marker::Unpin for "@ + self_ty(c) + " "@
            + where_text(c.preds.push("::pin_project::__private::Wrapper<"@ + c.lt + ", Self>: ::pin_project::UnsafeUnpin"@)) + " {}"@,
        None => if c.args.not_unpin is Some {
            "#[allow(single_use_lifetimes)] impl"@ + ip + " ::core::marker::Unpin for "@ + self_ty(c) + " "@
                + where_text(c.preds.push("::pin_project::__private::Wrapper<"@ + c.lt + ", ::core::marker::PhantomPinned>: ::core::marker::Unpin"@)) + " {}"@
                + " impl"@ + params_text(c.params, ParamStyle::Impl) + " ::pin_project::UnsafeUnpin for "@ + self_ty(c) + " "@ + where_text(c.preds) + " {}"@
        } else {
            c.vis + " struct __"@ + c.ident + proj_params_text(c.lt, c.params, ParamStyle::Declaration) + " "@ + where_text(c.preds)
            + " { __pin_project_use_generics: ::pin_project::__private::AlwaysUnpin<"@ + c.lt + ", ("@
            + join_with(type_param_names(c.params), ", "@) + ")>, "@ + unpin_fields(c.pinned) + lifetime_fields(lifetime_names(c.params))
            + "} impl"@ + ip + " ::core::marker::Unpin for "@ + self_ty(c) + " "@
            + where_text(c.preds.push("__"@ + c.ident + proj_params_text(c.lt, c.params, ParamStyle::Argument) + ": ::core::marker::Unpin"@))
            + " {}"@
        },
    }
}

/// The name of the trait that a `Drop` impl of the user would conflict with.
pub open spec fn must_not_impl_drop(ident: Seq<char>) -> Seq<char> {
    ident + "MustNotImplDrop"@
}

/// The `Drop` impl: with `PinnedDrop`, one that calls the user's
/// `PinnedDrop` impl; otherwise impls that conflict with any `Drop` or
/// `PinnedDrop` impl of the user.
pub open spec fn drop_impl_text(c: CtxV) -> Seq<char> {
    let ig = params_text(c.params, ParamStyle::Impl);
    let wc = where_text(c.preds);
    let t = must_not_impl_drop(c.ident);
    match c.args.pinned_drop {
        Some(_) => "#[allow(single_use_lifetimes)] impl"@ + ig + " ::core::ops::Drop for "@ + self_ty(c) + " "@ + wc
            + " { fn drop(&mut self) { let pinned_self = unsafe { ::core::pin::Pin::new_unchecked(self) }; unsafe { ::pin_project::__private::PinnedDrop::drop(pinned_self); } } }"@,
        None => "trait "@ + t + " {} #[allow(clippy::drop_bounds)] impl<T: ::core::ops::Drop> "@ + t + " for T {} #[allow(single_use_lifetimes)] impl"@
            + ig + " "@ + t + " for "@ + self_ty(c) + " "@ + wc
            + " {} #[allow(single_use_lifetimes)] impl"@ + ig + " ::pin_project::__private::PinnedDrop for "@ + self_ty(c) + " "@ + wc
            + " { unsafe fn drop(self: ::core::pin::Pin<&mut Self>) {} }"@,
    }
}

fn collect_type_params(ps: &Vec<GenericParam>) -> (r: Vec<String>)
    ensures
        views(r@) == type_param_names(ps@),
{
    let mut r: Vec<String> = Vec::new();
    let mut i: usize = 0;
    while i < ps.len()
        invariant
            i <= ps@.len(),
            views(r@) == type_param_names(ps@.subrange(0, i as int)),
        decreases ps@.len() - i,
    {
        assert(ps@.subrange(0, i + 1).drop_last() =~= ps@.subrange(0, i as int));
        let ghost prev = r@;
        match &ps[i] {
            GenericParam::Type { name, .. } => {
                r.push(name.clone());
                assert(views(r@) =~= views(prev).push(name@));
            },
            _ => {},
        }
        i = i + 1;
    }
    assert(ps@.subrange(0, i as int) =~= ps@);
    r
}

/// Writes `prefix + i + mid + items[i] + suffix` for each item, one after another.
fn numbered_text(items: &Vec<String>, prefix: &str, mid: &str, suffix: &str) -> (r: String)
    ensures
        r@ == concat(Seq::new(items@.len(), |i: int| prefix@ + decimal(i as nat) + mid@ + items@[i]@ + suffix@)),
{
    let ghost f = |i: int| prefix@ + decimal(i as nat) + mid@ + items@[i]@ + suffix@;
    let mut r = String::new();
    let mut i: usize = 0;
    while i < items.len()
        invariant
            i <= items@.len(),
            f == (|i: int| prefix@ + decimal(i as nat) + mid@ + items@[i]@ + suffix@),
            r@ == concat(Seq::new(i as nat, f)),
        decreases items@.len() - i,
    {
        let mut piece = String::from_str(prefix);
        piece.append(decimal_text(i).as_str());
        piece.append(mid);
        piece.append(items[i].as_str());
        piece.append(suffix);
        r.append(piece.as_str());
        assert(Seq::new((i + 1) as nat, f).drop_last() =~= Seq::new(i as nat, f));
        i = i + 1;
    }
    r
}

impl Context {
    /// Creates the conditional `Unpin` impl for the original type.
    pub fn make_unpin_impl(&self) -> (r: String)
        ensures
            r@ == unpin_impl_text(self@),
    {
        let ip = proj_params_to_text(&self.lifetime, &self.orig_params, ParamStyle::Impl);
        match self.args.unsafe_unpin {
            Some(_) => {
                let mut pred = String::from_str("::pin_project::__private::Wrapper<");
                pred.append(self.lifetime.as_str());
                pred.append(", Self>: ::pin_project::UnsafeUnpin");
                let mut r = String::from_str("#[allow(single_use_lifetimes)] impl");
                r.append(ip.as_str());
                r.append(" ::core::marker::Unpin for ");
                r.append(self.self_ty().as_str());
                r.append(" ");
                r.append(where_plus_to_text(&self.orig_preds, pred).as_str());
                r.append(" {}");
                r
            },
            None => if self.args.not_unpin.is_some() {
                let mut pred = String::from_str("::pin_project::__private::Wrapper<");
                pred.append(self.lifetime.as_str());
                pred.append(", ::core::marker::PhantomPinned>: ::core::marker::Unpin");
                let mut r = String::from_str("#[allow(single_use_lifetimes)] impl");
                r.append(ip.as_str());
                r.append(" ::core::marker::Unpin for ");
                r.append(self.self_ty().as_str());
                r.append(" ");
                r.append(where_plus_to_text(&self.orig_preds, pred).as_str());
                r.append(" {}");
                // Any impl of `UnsafeUnpin` by the user conflicts with this one.
                r.append(" impl");
                r.append(params_to_text(&self.orig_params, ParamStyle::Impl).as_str());
                r.append(" ::pin_project::UnsafeUnpin for ");
                r.append(self.self_ty().as_str());
                r.append(" ");
                r.append(crate::generics::where_to_text(&self.orig_preds).as_str());
                r.append(" {}");
                r
            } else {
                let tps = collect_type_params(&self.orig_params);
                let lts = crate::names::collect_lifetimes(&self.orig_params);
                let mut r = self.orig_vis.clone();
                r.append(" struct __");
                r.append(self.orig_ident.as_str());
                r.append(proj_params_to_text(&self.lifetime, &self.orig_params, ParamStyle::Declaration).as_str());
                r.append(" ");
                r.append(crate::generics::where_to_text(&self.orig_preds).as_str());
                r.append(" { __pin_project_use_generics: ::pin_project::__private::AlwaysUnpin<");
                r.append(self.lifetime.as_str());
                r.append(", (");
                r.append(join_strings(&tps, ", ").as_str());
                r.append(")>, ");
                let uf = numbered_text(&self.pinned_fields, "__field", ": ", ", ");
                proof {
                    let a = Seq::new(self.pinned_fields@.len(), |i: int| "__field"@ + decimal(i as nat) + ": "@ + self.pinned_fields@[i]@ + ", "@);
                    let b = Seq::new(self@.pinned.len(), |i: int| "__field"@ + decimal(i as nat) + ": "@ + self@.pinned[i] + ", "@);
                    assert(a =~= b);
                }
                r.append(uf.as_str());
                let lf = numbered_text(&lts, "__lifetime", ": &", " (), ");
                proof {
                    let ln = lifetime_names(self@.params);
                    assert(views(lts@) == ln);
                    let a = Seq::new(lts@.len(), |i: int| "__lifetime"@ + decimal(i as nat) + ": &"@ + lts@[i]@ + " (), "@);
                    let b = Seq::new(ln.len(), |i: int| "__lifetime"@ + decimal(i as nat) + ": &"@ + ln[i] + " (), "@);
                    assert(a =~= b);
                }
                r.append(lf.as_str());
                r.append("} impl");
                r.append(ip.as_str());
                r.append(" ::core::marker::Unpin for ");
                r.append(self.self_ty().as_str());
                r.append(" ");
                let mut pred = String::from_str("__");
                pred.append(self.orig_ident.as_str());
                pred.append(proj_params_to_text(&self.lifetime, &self.orig_params, ParamStyle::Argument).as_str());
                pred.append(": ::core::marker::Unpin");
                r.append(where_plus_to_text(&self.orig_preds, pred).as_str());
                r.append(" {}");
                r
            },
        }
    }

    /// Creates the `Drop` impl for the original type.
    pub fn make_drop_impl(&self) -> (r: String)
        ensures
            r@ == drop_impl_text(self@),
    {
        let ig = params_to_text(&self.orig_params, ParamStyle::Impl);
        let wc = crate::generics::where_to_text(&self.orig_preds);
        let st = self.self_ty();
        match self.args.pinned_drop {
            Some(_) => {
                let mut r = String::from_str("#[allow(single_use_lifetimes)] impl");
                r.append(ig.as_str());
                r.append(" ::core::ops::Drop for ");
                r.append(st.as_str());
                r.append(" ");
                r.append(wc.as_str());
                r.append(" { fn drop(&mut self) { let pinned_self = unsafe { ::core::pin::Pin::new_unchecked(self) }; unsafe { ::pin_project::__private::PinnedDrop::drop(pinned_self); } } }");
                r
            },
            None => {
                let mut t = self.orig_ident.clone();
                t.append("MustNotImplDrop");
                let mut r = String::from_str("trait ");
                r.append(t.as_str());
                r.append(" {} #[allow(clippy::drop_bounds)] impl<T: ::core::ops::Drop> ");
                r.append(t.as_str());
                r.append(" for T {} #[allow(single_use_lifetimes)] impl");
                r.append(ig.as_str());
                r.append(" ");
                r.append(t.as_str());
                r.append(" for ");
                r.append(st.as_str());
                r.append(" ");
                r.append(wc.as_str());
                r.append(" {} #[allow(single_use_lifetimes)] impl");
                r.append(ig.as_str());
                r.append(" ::pin_project::__private::PinnedDrop for ");
                r.append(st.as_str());
                r.append(" ");
                r.append(wc.as_str());
                r.append(" { unsafe fn drop(self: ::core::pin::Pin<&mut Self>) {} }");
                r
            },
        }
    }
}

/// The token at `j` is a `packed` element of a `repr(...)` list: `packed`
/// alone or `packed(...)`, between commas.
pub open spec fn is_packed_at(toks: Seq<TokenTree>, j: int) -> bool {
    &&& 0 <= j < toks.len()
    &&& toks[j] matches TokenTree::Ident { name, .. } && name@ == "packed"@
    &&& j == 0 || is_comma(toks[j - 1])
    &&& j + 1 == toks.len() || is_comma(toks[j + 1]) || (toks[j + 1] matches TokenTree::Group { delim: Delimiter::Parenthesis, .. }
        && (j + 2 == toks.len() || is_comma(toks[j + 2])))
}

/// The first `packed` element of a `repr(...)` list from position `j` on.
pub open spec fn first_packed_from(toks: Seq<TokenTree>, j: int) -> Option<int>
    decreases toks.len() - j,
{
    if j < 0 || j >= toks.len() {
        None
    } else if is_packed_at(toks, j) {
        Some(j)
    } else {
        first_packed_from(toks, j + 1)
    }
}

/// The list of a `#[repr(...)]` attribute.
/// It is one only when `syn` reads the attribute as a `Meta`; an
/// attribute it cannot read is passed over.
pub open spec fn repr_list(attr: Attr) -> Option<Seq<TokenTree>> {
    if is_ident(attr, "repr"@) && crate::attrs::meta_error(crate::attrs::meta_text(attr)) is None && attr.tokens@.len() == 1 {
        match attr.tokens@[0] {
            TokenTree::Group { delim: Delimiter::Parenthesis, stream, .. } => Some(stream@),
            _ => None,
        }
    } else {
        None
    }
}

/// The error for the first `#[repr(packed)]` among the attributes.
pub open spec fn packed_problem(attrs: Seq<Attr>) -> Option<Diag>
    decreases attrs.len(),
{
    if attrs.len() == 0 {
        None
    } else {
        match packed_problem(attrs.drop_last()) {
            Some(d) => Some(d),
            None => match repr_list(attrs.last()) {
                Some(l) => match first_packed_from(l, 0) {
                    Some(j) => Some(Diag { loc: tree_loc(l[j]), msg: "#[pin_project] attribute may not be used on #[repr(packed)] types"@ }),
                    None => None,
                },
                None => None,
            },
        }
    }
}

/// A function that takes a reference to every field, which is an error if
/// the struct is `#[repr(packed)]` after all.
pub open spec fn packed_check_text(c: CtxV, fs: Seq<Field>, named: bool) -> Seq<char> {
    let refs = Seq::new(fs.len(), |i: int| "&val."@ + (if named { field_name(fs[i]) } else { decimal(i as nat) }) + "; "@);
    "#[allow(single_use_lifetimes)] #[deny(safe_packed_borrows)] fn __assert_not_repr_packed"@ + params_text(c.params, ParamStyle::Impl)
        + "(val: &"@ + self_ty(c) + ") "@ + where_text(c.preds) + " { "@ + concat(refs) + "}"@
}

fn packed_at(toks: &Vec<TokenTree>, j: usize) -> (b: bool)
    requires
        j < toks@.len(),
    ensures
        b == is_packed_at(toks@, j as int),
{
    let n = toks.len();
    let packed = match &toks[j] {
        TokenTree::Ident { name, .. } => text_is(name, "packed"),
        _ => false,
    };
    if !packed {
        return false;
    }
    if j > 0 && !crate::args::is_comma_token(&toks[j - 1]) {
        return false;
    }
    if j + 1 == n || crate::args::is_comma_token(&toks[j + 1]) {
        return true;
    }
    match &toks[j + 1] {
        TokenTree::Group { delim: Delimiter::Parenthesis, .. } => j + 2 == n || crate::args::is_comma_token(&toks[j + 2]),
        _ => false,
    }
}

proof fn lemma_packed_problem_sticks(attrs: Seq<Attr>, k: int)
    requires
        0 <= k <= attrs.len(),
        packed_problem(attrs.subrange(0, k)) is Some,
    ensures
        packed_problem(attrs) == packed_problem(attrs.subrange(0, k)),
    decreases attrs.len(),
{
    if k == attrs.len() {
        assert(attrs.subrange(0, k) =~= attrs);
    } else {
        assert(attrs.drop_last().subrange(0, k) =~= attrs.subrange(0, k));
        lemma_packed_problem_sticks(attrs.drop_last(), k);
    }
}

/// Finds a `#[repr(packed)]` attribute.
pub fn find_packed(attrs: &Vec<Attr>) -> (r: Option<Error>)
    ensures
        match packed_problem(attrs@) {
            Some(d) => r matches Some(e) && e@ == d,
            None => r is None,
        },
{
    let mut i: usize = 0;
    while i < attrs.len()
        invariant
            i <= attrs@.len(),
            packed_problem(attrs@.subrange(0, i as int)) is None,
        decreases attrs@.len() - i,
    {
        assert(attrs@.subrange(0, i + 1).drop_last() =~= attrs@.subrange(0, i as int));
        let a = &attrs[i];
        if crate::attrs::attr_is(a, "repr") && crate::attrs::attr_meta_error(a).is_none() && a.tokens.len() == 1 {
            match &a.tokens[0] {
                TokenTree::Group { delim: Delimiter::Parenthesis, stream, .. } => {
                    let mut j: usize = 0;
                    while j < stream.len()
                        invariant
                            j <= stream@.len(),
                            i < attrs@.len(),
                            packed_problem(attrs@.subrange(0, i as int)) is None,
                            attrs@.subrange(0, i + 1).drop_last() == attrs@.subrange(0, i as int),
                            repr_list(attrs@[i as int]) == Some(stream@),
                            first_packed_from(stream@, 0) == first_packed_from(stream@, j as int),
                        decreases stream@.len() - j,
                    {
                        if packed_at(stream, j) {
                            proof { lemma_packed_problem_sticks(attrs@, i + 1); }
                            return Some(crate::error::error_at(token_loc(&stream[j]), "#[pin_project] attribute may not be used on #[repr(packed)] types"));
                        }
                        j = j + 1;
                    }
                },
                _ => {},
            }
        }
        i = i + 1;
    }
    assert(attrs@.subrange(0, i as int) =~= attrs@);
    None
}

impl Context {
    /// Rejects `#[repr(packed)]` types, and creates the function that takes
    /// a reference to every field.
    pub fn ensure_not_packed(&self, attrs: &Vec<Attr>, fields: &Fields) -> (r: Result<String, Error>)
        ensures
            match packed_problem(attrs@) {
                Some(d) => r matches Err(e) && e@ == d,
                None => r matches Ok(t) && t@ == packed_check_text(self@, field_list(*fields).0, field_list(*fields).1),
            },
    {
        match find_packed(attrs) {
            Some(e) => return Err(e),
            None => {},
        }
        let (fs, named) = match fields {
            Fields::Named(f) => (f, true),
            Fields::Unnamed(f) => (f, false),
            Fields::Unit => {
                let mut r = String::from_str("#[allow(single_use_lifetimes)] #[deny(safe_packed_borrows)] fn __assert_not_repr_packed");
                r.append(params_to_text(&self.orig_params, ParamStyle::Impl).as_str());
                r.append("(val: &");
                r.append(self.self_ty().as_str());
                r.append(") ");
                r.append(crate::generics::where_to_text(&self.orig_preds).as_str());
                r.append(" { ");
                r.append("}");
                proof {
                    reveal_strlit("");
                    let refs = Seq::new(0, |i: int| "&val."@ + decimal(i as nat) + "; "@);
                    assert(refs =~= Seq::<Seq<char>>::empty());
                    assert(concat(refs) =~= Seq::<char>::empty());
                }
                assert(r@ =~= packed_check_text(self@, field_list(*fields).0, field_list(*fields).1));
                return Ok(r);
            },
        };
        let ghost f = |i: int| "&val."@ + (if named { field_name(fs@[i]) } else { decimal(i as nat) }) + "; "@;
        let mut refs = String::new();
        let mut i: usize = 0;
        while i < fs.len()
            invariant
                i <= fs@.len(),
                f == (|i: int| "&val."@ + (if named { field_name(fs@[i]) } else { decimal(i as nat) }) + "; "@),
                refs@ == concat(Seq::new(i as nat, f)),
            decreases fs@.len() - i,
        {
            let mut piece = String::from_str("&val.");
            if named {
                match &fs[i].ident {
                    Some(n) => piece.append(n.as_str()),
                    None => {},
                }
            } else {
                piece.append(decimal_text(i).as_str());
            }
            piece.append("; ");
            proof { reveal_strlit(""); }
            assert(piece@ =~= f(i as int));
            refs.append(piece.as_str());
            assert(Seq::new((i + 1) as nat, f).drop_last() =~= Seq::new(i as nat, f));
            i = i + 1;
        }
        let mut r = String::from_str("#[allow(single_use_lifetimes)] #[deny(safe_packed_borrows)] fn __assert_not_repr_packed");
        r.append(params_to_text(&self.orig_params, ParamStyle::Impl).as_str());
        r.append("(val: &");
        r.append(self.self_ty().as_str());
        r.append(") ");
        r.append(crate::generics::where_to_text(&self.orig_preds).as_str());
        r.append(" { ");
        r.append(refs.as_str());
        r.append("}");
        Ok(r)
    }
}

/// The mathematical content of a result that carries text.
pub open spec fn text_view(r: Result<String, Error>) -> Result<Seq<char>, Diag> {
    match r {
        Ok(t) => Ok(t@),
        Err(e) => Err(e@),
    }
}

/// The derive is defined on the item: where the item passes the checks of
/// its shape, it carries a `#[pin]` attribute and its first two `#[pin]`
/// attributes do not both parse.
pub open spec fn derive_defined(item: Item) -> bool {
    match item {
        Item::Struct(s) => validate_struct_spec(s.ident_loc, s.fields, s.fields_loc) is Ok ==> get_args_defined(s.attrs@),
        Item::Enum(e) => validate_enum_spec(e.brace_loc, e.variants@, e.variants_loc, true) is Ok ==> get_args_defined(e.attrs@),
        Item::Other { .. } => true,
    }
}

/// The items put inside the `const` that hides them.
pub open spec fn scope_text(ident: Seq<char>, body: Seq<char>) -> Seq<char> {
    " #[allow(non_upper_case_globals)] const __SCOPE_"@ + ident + ": () = { "@ + body + " };"@
}

/// What the derive expands an item to: the projected types, then, inside
/// a `const`, the projection methods, the `Unpin` impl, the `Drop` impl
/// and, for a struct, the check against `#[repr(packed)]`.
pub open spec fn derive_spec(item: Item) -> Result<Seq<char>, Diag> {
    match item {
        Item::Struct(s) => match validate_struct_spec(s.ident_loc, s.fields, s.fields_loc) {
            Err(d) => Err(d),
            Ok(_) => match get_args_spec(s.attrs@) {
                Err(d) => Err(d),
                Ok(a) => {
                    let c = context_spec(s.vis, s.ident@, s.generics, a);
                    match packed_problem(s.attrs@) {
                        Some(d) => Err(d),
                        None => {
                            let (fs, named) = field_list(s.fields);
                            match pin_flags(fs) {
                                Err(d) => Err(d),
                                Ok(flags) => {
                                    let pt = projection(fs, flags, c.lt, named);
                                    let c2 = CtxV { pinned: pinned_types(fs, flags), ..c };
                                    Ok(struct_items_text(c, pt, named) + scope_text(c.ident,
                                        proj_impl_text(c, struct_mut_body(c, pt), struct_ref_body(c, pt), struct_own_body(c, pt))
                                        + " "@ + unpin_impl_text(c2) + " "@ + drop_impl_text(c2) + " "@ + packed_check_text(c, fs, named)))
                                },
                            }
                        },
                    }
                },
            },
        },
        Item::Enum(e) => match validate_enum_spec(e.brace_loc, e.variants@, e.variants_loc, true) {
            Err(d) => Err(d),
            Ok(_) => match get_args_spec(e.attrs@) {
                Err(d) => Err(d),
                Ok(a) => {
                    let c = context_spec(e.vis, e.ident@, e.generics, a);
                    let vs = e.variants@;
                    match variant_flags(vs) {
                        Err(d) => Err(d),
                        Ok(fl) => {
                            let c2 = CtxV { pinned: variants_pinned(vs, fl), ..c };
                            Ok(enum_items_text(c, vs, fl) + scope_text(c.ident,
                                proj_impl_text(c, enum_mut_body(c, vs, fl), enum_ref_body(c, vs, fl), enum_own_body(c, vs, fl))
                                + " "@ + unpin_impl_text(c2) + " "@ + drop_impl_text(c2)))
                        },
                    }
                },
            },
        },
        Item::Other { loc } => Err(Diag { loc, msg: "#[pin_project] attribute may only be used on structs or enums"@ }),
    }
}

fn scope(ident: &String, body: &String) -> (r: String)
    ensures
        r@ == scope_text(ident@, body@),
{
    let mut r = String::from_str(" #[allow(non_upper_case_globals)] const __SCOPE_");
    r.append(ident.as_str());
    r.append(": () = { ");
    r.append(body.as_str());
    r.append(" };");
    r
}

/// Expands the item that `#[pin_project]` was applied to.
pub fn parse_derive(item: &Item) -> (r: Result<String, Error>)
    requires
        derive_defined(*item),
    ensures
        text_view(r) == derive_spec(*item),
{
    match item {
        Item::Struct(s) => {
            match validate_struct(s.ident_loc, &s.fields, s.fields_loc) {
                Err(e) => return Err(e),
                Ok(()) => {},
            }
            let mut cx = match Context::new(&s.attrs, &s.vis, &s.ident, &s.generics) {
                Err(e) => return Err(e),
                Ok(c) => c,
            };
            let ghost c0 = cx@;
            let packed_check = match cx.ensure_not_packed(&s.attrs, &s.fields) {
                Err(e) => return Err(e),
                Ok(t) => t,
            };
            let (mut proj_items, proj_impl) = match cx.parse_struct(&s.fields) {
                Err(e) => return Err(e),
                Ok(p) => p,
            };
            proof {
                let (fs, named) = field_list(s.fields);
                let flags = pin_flags(fs)->Ok_0;
                assert(cx@ == (CtxV { pinned: pinned_types(fs, flags), ..c0 }));
            }
            let unpin_impl = cx.make_unpin_impl();
            let drop_impl = cx.make_drop_impl();
            let mut body = proj_impl;
            body.append(" ");
            body.append(unpin_impl.as_str());
            body.append(" ");
            body.append(drop_impl.as_str());
            body.append(" ");
            body.append(packed_check.as_str());
            proj_items.append(scope(&s.ident, &body).as_str());
            Ok(proj_items)
        },
        Item::Enum(e) => {
            match validate_enum(e.brace_loc, &e.variants, e.variants_loc, true) {
                Err(err) => return Err(err),
                Ok(()) => {},
            }
            let mut cx = match Context::new(&e.attrs, &e.vis, &e.ident, &e.generics) {
                Err(err) => return Err(err),
                Ok(c) => c,
            };
            let ghost c0 = cx@;
            let (mut proj_items, proj_impl) = match cx.parse_enum(&e.variants) {
                Err(err) => return Err(err),
                Ok(p) => p,
            };
            proof {
                let fl = variant_flags(e.variants@)->Ok_0;
                assert(cx@ == (CtxV { pinned: variants_pinned(e.variants@, fl), ..c0 }));
            }
            let unpin_impl = cx.make_unpin_impl();
            let drop_impl = cx.make_drop_impl();
            let mut body = proj_impl;
            body.append(" ");
            body.append(unpin_impl.as_str());
            body.append(" ");
            body.append(drop_impl.as_str());
            proj_items.append(scope(&e.ident, &body).as_str());
            Ok(proj_items)
        },
        Item::Other { loc } => Err(crate::error::error_at(*loc, "#[pin_project] attribute may only be used on structs or enums")),
    }
}

} // verus!
