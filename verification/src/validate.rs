//! The shapes of items that the attributes refuse.
use vstd::prelude::*;

use crate::attrs::{find_spec, position};
use crate::error::{Diag, Error};
use crate::model::{Fields, Variant};

verus! {

/// The fields of a struct that pin projection accepts: at least one field.
pub open spec fn validate_struct_spec(ident_loc: usize, fields: Fields, fields_loc: usize) -> Result<(), Diag> {
    match fields {
        Fields::Named(f) => if f@.len() == 0 {
            Err(Diag { loc: fields_loc, msg: "#[pin_project] attribute may not be used on structs with zero fields"@ })
        } else {
            Ok(())
        },
        Fields::Unnamed(f) => if f@.len() == 0 {
            Err(Diag { loc: fields_loc, msg: "#[pin_project] attribute may not be used on structs with zero fields"@ })
        } else {
            Ok(())
        },
        Fields::Unit => Err(Diag { loc: ident_loc, msg: "#[pin_project] attribute may not be used on structs with units"@ }),
    }
}

/// The mathematical content of a result that carries no value.
pub open spec fn unit_view(r: Result<(), Error>) -> Result<(), Diag> {
    match r {
        Ok(()) => Ok(()),
        Err(e) => Err(e@),
    }
}

/// Checks that a struct has at least one field.
pub fn validate_struct(ident_loc: usize, fields: &Fields, fields_loc: usize) -> (r: Result<(), Error>)
    ensures
        unit_view(r) == validate_struct_spec(ident_loc, *fields, fields_loc),
{
    let zero = match fields {
        Fields::Named(f) => f.len() == 0,
        Fields::Unnamed(f) => f.len() == 0,
        Fields::Unit => {
            return Err(crate::error::error_at(ident_loc, "#[pin_project] attribute may not be used on structs with units"));
        },
    };
    if zero {
        Err(crate::error::error_at(fields_loc, "#[pin_project] attribute may not be used on structs with zero fields"))
    } else {
        Ok(())
    }
}

/// What is wrong with a variant, if anything: a discriminant, or (when
/// `check_pin`) a `#[pin]` attribute on the variant itself.
pub open spec fn variant_problem(v: Variant, check_pin: bool) -> Option<Diag> {
    match v.discriminant {
        Some(l) => Some(Diag { loc: l, msg: "#[pin_project] attribute may not be used on enums with discriminants"@ }),
        None => if check_pin && find_spec(v.attrs@, "pin"@) is Some {
            Some(Diag {
                loc: v.attrs@[find_spec(v.attrs@, "pin"@)->0].loc,
                msg: "#[pin] attribute may only be used on fields of structs or variants"@,
            })
        } else {
            None
        },
    }
}

/// The problem of the first variant that has one.
pub open spec fn first_problem(vs: Seq<Variant>, check_pin: bool) -> Option<Diag>
    decreases vs.len(),
{
    if vs.len() == 0 {
        None
    } else {
        match first_problem(vs.drop_last(), check_pin) {
            Some(d) => Some(d),
            None => variant_problem(vs.last(), check_pin),
        }
    }
}

/// Some variant has fields.
pub open spec fn has_field(vs: Seq<Variant>) -> bool {
    exists|i: int| 0 <= i < vs.len() && !(#[trigger] vs[i].fields is Unit)
}

/// The variants of an enum that pin projection accepts: at least one
/// variant, no discriminant, some field; with `check_pin`, no `#[pin]` on a
/// variant either.
pub open spec fn validate_enum_spec(brace_loc: usize, vs: Seq<Variant>, variants_loc: usize, check_pin: bool) -> Result<(), Diag> {
    if vs.len() == 0 {
        Err(Diag { loc: brace_loc, msg: "#[pin_project] attribute may not be used on enums without variants"@ })
    } else {
        match first_problem(vs, check_pin) {
            Some(d) => Err(d),
            None => if has_field(vs) {
                Ok(())
            } else {
                Err(Diag { loc: variants_loc, msg: "#[pin_project] attribute may not be used on enums that have no field"@ })
            },
        }
    }
}

proof fn lemma_first_problem_sticks(vs: Seq<Variant>, check_pin: bool, k: int)
    requires
        0 <= k <= vs.len(),
        first_problem(vs.subrange(0, k), check_pin) is Some,
    ensures
        first_problem(vs, check_pin) == first_problem(vs.subrange(0, k), check_pin),
    decreases vs.len(),
{
    if k == vs.len() {
        assert(vs.subrange(0, k) =~= vs);
    } else {
        assert(vs.drop_last().subrange(0, k) =~= vs.subrange(0, k));
        lemma_first_problem_sticks(vs.drop_last(), check_pin, k);
    }
}

/// Checks the variants of an enum.
pub fn validate_enum(brace_loc: usize, variants: &Vec<Variant>, variants_loc: usize, check_pin: bool) -> (r: Result<(), Error>)
    ensures
        unit_view(r) == validate_enum_spec(brace_loc, variants@, variants_loc, check_pin),
{
    if variants.len() == 0 {
        return Err(crate::error::error_at(brace_loc, "#[pin_project] attribute may not be used on enums without variants"));
    }
    let mut has = false;
    let mut i: usize = 0;
    while i < variants.len()
        invariant
            i <= variants@.len(),
            first_problem(variants@.subrange(0, i as int), check_pin) is None,
            has == exists|j: int| 0 <= j < i && !(#[trigger] variants@[j].fields is Unit),
        decreases variants@.len() - i,
    {
        assert(variants@.subrange(0, i + 1).drop_last() =~= variants@.subrange(0, i as int));
        let v = &variants[i];
        match v.discriminant {
            Some(l) => {
                proof { lemma_first_problem_sticks(variants@, check_pin, i + 1); }
                return Err(crate::error::error_at(l, "#[pin_project] attribute may not be used on enums with discriminants"));
            },
            None => {},
        }
        if check_pin {
            match position(&v.attrs, "pin") {
                Some(p) => {
                    proof { lemma_first_problem_sticks(variants@, check_pin, i + 1); }
                    return Err(crate::error::error_at(v.attrs[p].loc, "#[pin] attribute may only be used on fields of structs or variants"));
                },
                None => {},
            }
        }
        match &v.fields {
            Fields::Unit => {},
            _ => {
                has = true;
            },
        }
        i = i + 1;
    }
    assert(variants@.subrange(0, i as int) =~= variants@);
    if has {
        Ok(())
    } else {
        Err(crate::error::error_at(variants_loc, "#[pin_project] attribute may not be used on enums that have no field"))
    }
}

} // verus!
