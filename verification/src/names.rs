//! Names of generated items and the small rewrites of identifiers.
use vstd::prelude::*;

use crate::model::{GenericParam, Generics, Vis};
use crate::text::{is_prefix, starts_with, text_is};

verus! {

/// Which projection a name or method is for.
#[derive(Clone, Copy, PartialEq, Eq, Structural)]
pub enum Mutability {
    Mutable,
    Immutable,
    Owned,
}

/// Suffix of the projected type's name for each projection.
pub open spec fn proj_suffix(m: Mutability) -> Seq<char> {
    match m {
        Mutability::Mutable => ""@,
        Mutability::Immutable => "Ref"@,
        Mutability::Owned => "Owned"@,
    }
}

/// Name of the projected type made from the original type's name.
pub open spec fn proj_ident_spec(ident: Seq<char>, m: Mutability) -> Seq<char> {
    "__"@ + ident + "Projection"@ + proj_suffix(m)
}

/// Name of the projection method for each projection.
pub open spec fn method_name_spec(m: Mutability) -> Seq<char> {
    match m {
        Mutability::Mutable => "project"@,
        Mutability::Immutable => "project_ref"@,
        Mutability::Owned => "project_replace"@,
    }
}

impl Mutability {
    /// The name of the projection method, which is also the name of the
    /// attribute that refers to its projected type.
    pub fn method_name(self) -> (r: &'static str)
        ensures
            r@ == method_name_spec(self),
    {
        match self {
            Mutability::Mutable => "project",
            Mutability::Immutable => "project_ref",
            Mutability::Owned => "project_replace",
        }
    }

    /// The name of the projected type for the type named `ident`.
    pub fn proj_ident(self, ident: &String) -> (r: String)
        ensures
            r@ == proj_ident_spec(ident@, self),
    {
        proj_ident(ident, self)
    }
}

/// Creates the name of the projected type from the name of the original type.
pub fn proj_ident(ident: &String, mutability: Mutability) -> (r: String)
    ensures
        r@ == proj_ident_spec(ident@, mutability),
{
    let mut r = String::from_str("__");
    r.append(ident.as_str());
    r.append("Projection");
    match mutability {
        Mutability::Mutable => {},
        Mutability::Immutable => r.append("Ref"),
        Mutability::Owned => r.append("Owned"),
    }
    proof {
        if mutability == Mutability::Mutable {
            reveal_strlit("");
            assert(r@ =~= proj_ident_spec(ident@, mutability));
        }
    }
    r
}

/// The lifetime names among generic parameters, in order.
pub open spec fn lifetime_names(ps: Seq<GenericParam>) -> Seq<Seq<char>>
    decreases ps.len(),
{
    if ps.len() == 0 {
        Seq::empty()
    } else {
        let rest = lifetime_names(ps.drop_last());
        match ps.last() {
            GenericParam::Lifetime { name, .. } => rest.push(name@),
            _ => rest,
        }
    }
}

/// Some existing lifetime starts with `name`.
pub open spec fn clashes(name: Seq<char>, lifetimes: Seq<Seq<char>>) -> bool {
    exists|i: int| 0 <= i < lifetimes.len() && is_prefix(name, #[trigger] lifetimes[i])
}

/// `k` underscores.
pub open spec fn underscores(k: nat) -> Seq<char> {
    Seq::new(k, |i: int| '_')
}

/// `name` is `base` followed by the fewest underscores that make it clash
/// with no existing lifetime.
pub open spec fn is_fresh_lifetime(name: Seq<char>, base: Seq<char>, lifetimes: Seq<Seq<char>>) -> bool {
    exists|k: nat|
        {
            &&& name == base + #[trigger] underscores(k)
            &&& !clashes(name, lifetimes)
            &&& forall|j: nat| j < k ==> clashes(base + #[trigger] underscores(j), lifetimes)
        }
}

/// There is exactly one fresh lifetime name.
pub proof fn lemma_fresh_lifetime_unique(a: Seq<char>, b: Seq<char>, base: Seq<char>, lts: Seq<Seq<char>>)
    requires
        is_fresh_lifetime(a, base, lts),
        is_fresh_lifetime(b, base, lts),
    ensures
        a == b,
{
    let ka = choose|k: nat| {
        &&& a == base + #[trigger] underscores(k)
        &&& !clashes(a, lts)
        &&& forall|j: nat| j < k ==> clashes(base + #[trigger] underscores(j), lts)
    };
    let kb = choose|k: nat| {
        &&& b == base + #[trigger] underscores(k)
        &&& !clashes(b, lts)
        &&& forall|j: nat| j < k ==> clashes(base + #[trigger] underscores(j), lts)
    };
    if ka < kb {
        assert(clashes(base + underscores(ka), lts));
    } else if kb < ka {
        assert(clashes(base + underscores(kb), lts));
    }
}

/// The fresh lifetime name made from `base`.
pub open spec fn fresh_lifetime(base: Seq<char>, lifetimes: Seq<Seq<char>>) -> Seq<char> {
    choose|name: Seq<char>| is_fresh_lifetime(name, base, lifetimes)
}

spec fn max_len(s: Seq<Seq<char>>) -> nat
    decreases s.len(),
{
    if s.len() == 0 {
        0
    } else {
        let m = max_len(s.drop_last());
        if s.last().len() > m {
            s.last().len()
        } else {
            m
        }
    }
}

proof fn lemma_max_len(s: Seq<Seq<char>>, i: int)
    requires
        0 <= i < s.len(),
    ensures
        s[i].len() <= max_len(s),
    decreases s.len(),
{
    if i < s.len() - 1 {
        lemma_max_len(s.drop_last(), i);
    }
}

/// Collects the names of the lifetime parameters.
pub fn collect_lifetimes(params: &Vec<GenericParam>) -> (r: Vec<String>)
    ensures
        r@.map_values(|s: String| s@) == lifetime_names(params@),
{
    let mut r: Vec<String> = Vec::new();
    let mut i: usize = 0;
    while i < params.len()
        invariant
            i <= params@.len(),
            r@.map_values(|s: String| s@) == lifetime_names(params@.subrange(0, i as int)),
        decreases params@.len() - i,
    {
        assert(params@.subrange(0, i + 1).drop_last() =~= params@.subrange(0, i as int));
        match &params[i] {
            GenericParam::Lifetime { name, .. } => {
                r.push(name.clone());
            },
            _ => {},
        }
        assert(r@.map_values(|s: String| s@) =~= lifetime_names(params@.subrange(0, i + 1)));
        i = i + 1;
    }
    assert(params@.subrange(0, i as int) =~= params@);
    r
}

/// Determines the name of the lifetime of the projected type: the given name,
/// lengthened by underscores until no existing lifetime starts with it.
pub fn determine_lifetime_name(lifetime_name: &mut String, params: &Vec<GenericParam>)
    ensures
        is_fresh_lifetime(final(lifetime_name)@, old(lifetime_name)@, lifetime_names(params@)),
        final(lifetime_name)@ == fresh_lifetime(old(lifetime_name)@, lifetime_names(params@)),
{
    let existing = collect_lifetimes(params);
    let ghost lts = lifetime_names(params@);
    let ghost base = lifetime_name@;
    let ghost mut k: nat = 0;
    assert(lifetime_name@ =~= base + underscores(0));
    loop
        invariant
            existing@.map_values(|s: String| s@) == lts,
            lts == lifetime_names(params@),
            base == old(lifetime_name)@,
            lifetime_name@ == base + underscores(k),
            forall|j: nat| j < k ==> clashes(base + #[trigger] underscores(j), lts),
            k <= max_len(lts) + 1,
        ensures
            lifetime_name@ == base + underscores(k),
            !clashes(lifetime_name@, lts),
            forall|j: nat| j < k ==> clashes(base + #[trigger] underscores(j), lts),
        decreases max_len(lts) + 1 - k,
    {
        let mut found = false;
        let mut i: usize = 0;
        while i < existing.len()
            invariant
                i <= existing@.len(),
                existing@.map_values(|s: String| s@) == lts,
                found == exists|j: int| 0 <= j < i && is_prefix(lifetime_name@, #[trigger] lts[j]),
            decreases existing@.len() - i,
        {
            assert(existing@[i as int]@ == lts[i as int]);
            if starts_with(&existing[i], lifetime_name) {
                found = true;
            }
            i = i + 1;
        }
        if !found {
            break;
        }
        proof {
            let j = choose|j: int| 0 <= j < lts.len() && is_prefix(lifetime_name@, #[trigger] lts[j]);
            lemma_max_len(lts, j);
            assert(clashes(base + underscores(k), lts));
        }
        lifetime_name.append("_");
        proof {
            reveal_strlit("_");
            assert(base + underscores(k + 1) =~= base + underscores(k) + "_"@);
            k = k + 1;
        }
    }
    proof {
        assert(is_fresh_lifetime(lifetime_name@, base, lts));
        lemma_fresh_lifetime_unique(lifetime_name@, fresh_lifetime(base, lts), base, lts);
    }
}

/// Inserts the lifetime `lifetime` as the first generic parameter.
pub fn insert_lifetime(generics: &mut Generics, lifetime: String)
    ensures
        final(generics).params@.len() == old(generics).params@.len() + 1,
        final(generics).params@[0] matches GenericParam::Lifetime { name, bounds }
            && name@ == lifetime@ && bounds@ == Seq::<char>::empty(),
        final(generics).params@.subrange(1, final(generics).params@.len() as int) == old(generics).params@,
        final(generics).where_clause == old(generics).where_clause,
{
    generics.params.insert(0, GenericParam::Lifetime { name: lifetime, bounds: String::new() });
    assert(generics.params@.subrange(1, generics.params@.len() as int) =~= old(generics).params@);
}

/// Text of a visibility.
pub open spec fn vis_text(vis: Vis) -> Seq<char> {
    match vis {
        Vis::Public => "pub"@,
        Vis::Crate => "crate"@,
        Vis::Restricted(t) => t@,
        Vis::Inherited => Seq::empty(),
    }
}

/// Determines the visibility of the projected type and projection methods.
pub fn determine_visibility(vis: &Vis) -> (r: Vis)
    ensures
        match *vis {
            Vis::Public => r matches Vis::Restricted(t) && t@ == "pub(crate)"@,
            _ => vis_text(r) == vis_text(*vis) && (r is Public) == (*vis is Public),
        },
{
    match vis {
        Vis::Public => Vis::Restricted(String::from_str("pub(crate)")),
        Vis::Crate => Vis::Crate,
        Vis::Restricted(t) => Vis::Restricted(t.clone()),
        Vis::Inherited => Vis::Inherited,
    }
}

/// Text of a visibility.
pub fn vis_to_text(vis: &Vis) -> (r: String)
    ensures
        r@ == vis_text(*vis),
{
    match vis {
        Vis::Public => String::from_str("pub"),
        Vis::Crate => String::from_str("crate"),
        Vis::Restricted(t) => t.clone(),
        Vis::Inherited => String::new(),
    }
}

/// `self` after the rewrite that frees the name for the receiver.
pub open spec fn underscore_self(ident: Seq<char>) -> Seq<char> {
    if ident == "self"@ {
        "__self"@
    } else {
        ident
    }
}

/// Renames the identifier `self` to `__self`; any other identifier is kept.
pub fn prepend_underscore_to_self(ident: &mut String)
    ensures
        final(ident)@ == underscore_self(old(ident)@),
{
    if text_is(ident, "self") {
        *ident = String::from_str("__self");
    }
}

} // verus!
