//! The projections of the fields of a struct or variant.
//!
//! A field marked `#[pin]` is projected to a pinned reference, any other
//! field to a plain reference; the owned projection keeps a marker for a
//! pinned field and moves any other field out.
use vstd::prelude::*;

use crate::attrs::{find_exact, position_exact_spec};
use crate::error::{Diag, Error};
use crate::model::Field;
use crate::text::{concat, concat_strings, decimal, decimal_text, join_strings, join_with, views};

verus! {

/// The pieces of text made from each field.
#[derive(Clone, Copy, PartialEq, Eq, Structural)]
pub enum Part {
    /// The binding in the pattern that destructures the original value.
    Pat,
    /// The expression that initializes the projected field.
    Body,
    /// The field of the mutable projection.
    Field,
    /// The field of the shared projection.
    RefField,
    /// The field of the owned projection.
    OwnField,
    /// The expression that moves the field into the owned projection.
    Move,
    /// The statement that drops a pinned field in place.
    Drop,
}

/// The name of a named field.
pub open spec fn field_name(f: Field) -> Seq<char> {
    match f.ident {
        Some(n) => n@,
        None => Seq::empty(),
    }
}

/// Whether each field is marked `#[pin]`; a second `#[pin]`, or one with
/// arguments, is an error.
pub open spec fn pin_flags(fs: Seq<Field>) -> Result<Seq<bool>, Diag>
    decreases fs.len(),
{
    if fs.len() == 0 {
        Ok(Seq::empty())
    } else {
        match pin_flags(fs.drop_last()) {
            Err(d) => Err(d),
            Ok(flags) => match position_exact_spec(fs.last().attrs@, "pin"@) {
                Err(d) => Err(d),
                Ok(p) => Ok(flags.push(p is Some)),
            },
        }
    }
}

proof fn lemma_pin_flags_len(fs: Seq<Field>)
    ensures
        pin_flags(fs) matches Ok(flags) ==> flags.len() == fs.len(),
    decreases fs.len(),
{
    if fs.len() > 0 {
        lemma_pin_flags_len(fs.drop_last());
    }
}

proof fn lemma_pin_flags_err_sticks(fs: Seq<Field>, k: int)
    requires
        0 <= k <= fs.len(),
        pin_flags(fs.subrange(0, k)) is Err,
    ensures
        pin_flags(fs) == pin_flags(fs.subrange(0, k)),
    decreases fs.len(),
{
    if k == fs.len() {
        assert(fs.subrange(0, k) =~= fs);
    } else {
        assert(fs.drop_last().subrange(0, k) =~= fs.subrange(0, k));
        lemma_pin_flags_err_sticks(fs.drop_last(), k);
    }
}

/// The types of the pinned fields, in order.
pub open spec fn pinned_types(fs: Seq<Field>, flags: Seq<bool>) -> Seq<Seq<char>>
    decreases fs.len(),
{
    if fs.len() == 0 {
        Seq::empty()
    } else {
        let rest = pinned_types(fs.drop_last(), flags.subrange(0, fs.len() - 1));
        if flags[fs.len() - 1] {
            rest.push(fs.last().ty@)
        } else {
            rest
        }
    }
}

/// A piece made from a named field.
pub open spec fn named_piece(f: Field, pinned: bool, lt: Seq<char>, part: Part) -> Seq<char> {
    let id = field_name(f);
    match part {
        Part::Pat => id,
        Part::Body => if pinned { id + ": ::core::pin::Pin::new_unchecked("@ + id + ")"@ } else { id },
        Part::Field => if pinned {
            f.vis@ + " "@ + id + ": ::core::pin::Pin<&"@ + lt + " mut ("@ + f.ty@ + ")>"@
        } else {
            f.vis@ + " "@ + id + ": &"@ + lt + " mut ("@ + f.ty@ + ")"@
        },
        Part::RefField => if pinned {
            f.vis@ + " "@ + id + ": ::core::pin::Pin<&"@ + lt + " ("@ + f.ty@ + ")>"@
        } else {
            f.vis@ + " "@ + id + ": &"@ + lt + " ("@ + f.ty@ + ")"@
        },
        Part::OwnField => if pinned {
            f.vis@ + " "@ + id + ": ::core::marker::PhantomData<"@ + f.ty@ + ">"@
        } else {
            f.vis@ + " "@ + id + ": "@ + f.ty@
        },
        Part::Move => if pinned {
            id + ": ::core::marker::PhantomData"@
        } else {
            id + ": ::core::ptr::read("@ + id + ")"@
        },
        Part::Drop => if pinned {
            "let __guard = ::pin_project::__private::UnsafeDropInPlaceGuard("@ + id + "); "@
        } else {
            Seq::empty()
        },
    }
}

/// The binding of the `i`-th field of a tuple struct or variant.
pub open spec fn unnamed_id(i: nat) -> Seq<char> {
    "_"@ + decimal(i)
}

/// A piece made from the `i`-th field of a tuple struct or variant.
pub open spec fn unnamed_piece(f: Field, i: nat, pinned: bool, lt: Seq<char>, part: Part) -> Seq<char> {
    let id = unnamed_id(i);
    match part {
        Part::Pat => id,
        Part::Body => if pinned { "::core::pin::Pin::new_unchecked("@ + id + ")"@ } else { id },
        Part::Field => if pinned {
            f.vis@ + " ::core::pin::Pin<&"@ + lt + " mut ("@ + f.ty@ + ")>"@
        } else {
            f.vis@ + " &"@ + lt + " mut ("@ + f.ty@ + ")"@
        },
        Part::RefField => if pinned {
            f.vis@ + " ::core::pin::Pin<&"@ + lt + " ("@ + f.ty@ + ")>"@
        } else {
            f.vis@ + " &"@ + lt + " ("@ + f.ty@ + ")"@
        },
        Part::OwnField => if pinned {
            f.vis@ + " ::core::marker::PhantomData<"@ + f.ty@ + ">"@
        } else {
            f.vis@ + " "@ + f.ty@
        },
        Part::Move => if pinned {
            "::core::marker::PhantomData"@
        } else {
            "::core::ptr::read("@ + id + ")"@
        },
        Part::Drop => if pinned {
            "let __guard = ::pin_project::__private::UnsafeDropInPlaceGuard("@ + id + "); "@
        } else {
            Seq::empty()
        },
    }
}

/// The pieces made from all fields.
pub open spec fn pieces(fs: Seq<Field>, flags: Seq<bool>, lt: Seq<char>, named: bool, part: Part) -> Seq<Seq<char>> {
    Seq::new(
        fs.len(),
        |i: int|
            if named {
                named_piece(fs[i], flags[i], lt, part)
            } else {
                unnamed_piece(fs[i], i as nat, flags[i], lt, part)
            },
    )
}

/// The text of the projections of a list of fields.
pub struct ProjTexts {
    pub pat: Seq<char>,
    pub body: Seq<char>,
    pub fields: Seq<char>,
    pub ref_fields: Seq<char>,
    pub own_fields: Seq<char>,
    pub moves: Seq<char>,
    pub drops: Seq<char>,
}

/// The projections of a list of fields, as text.
pub struct ProjectedFields {
    pub proj_pat: String,
    pub proj_body: String,
    pub proj_fields: String,
    pub proj_ref_fields: String,
    pub proj_own_fields: String,
    pub proj_move: String,
    pub proj_drop: String,
}

impl View for ProjectedFields {
    type V = ProjTexts;

    open spec fn view(&self) -> ProjTexts {
        ProjTexts {
            pat: self.proj_pat@,
            body: self.proj_body@,
            fields: self.proj_fields@,
            ref_fields: self.proj_ref_fields@,
            own_fields: self.proj_own_fields@,
            moves: self.proj_move@,
            drops: self.proj_drop@,
        }
    }
}

/// `{ a, b }` for named fields, `(a, b)` for unnamed ones.
pub open spec fn wrap(items: Seq<Seq<char>>, named: bool) -> Seq<char> {
    if named {
        "{ "@ + join_with(items, ", "@) + " }"@
    } else {
        "("@ + join_with(items, ", "@) + ")"@
    }
}

/// The projections of the fields, given which of them are pinned.
pub open spec fn projection(fs: Seq<Field>, flags: Seq<bool>, lt: Seq<char>, named: bool) -> ProjTexts {
    ProjTexts {
        pat: wrap(pieces(fs, flags, lt, named, Part::Pat), named),
        body: wrap(pieces(fs, flags, lt, named, Part::Body), named),
        fields: wrap(pieces(fs, flags, lt, named, Part::Field), named),
        ref_fields: wrap(pieces(fs, flags, lt, named, Part::RefField), named),
        own_fields: wrap(pieces(fs, flags, lt, named, Part::OwnField), named),
        moves: wrap(pieces(fs, flags, lt, named, Part::Move), named),
        drops: concat(pieces(fs, flags, lt, named, Part::Drop)),
    }
}

/// The projections of a unit variant: nothing.
pub open spec fn unit_projection() -> ProjTexts {
    ProjTexts {
        pat: Seq::empty(),
        body: Seq::empty(),
        fields: Seq::empty(),
        ref_fields: Seq::empty(),
        own_fields: Seq::empty(),
        moves: Seq::empty(),
        drops: Seq::empty(),
    }
}

/// Makes one piece from a field.
pub fn piece_text(f: &Field, i: usize, pinned: bool, lt: &String, named: bool, part: Part) -> (r: String)
    ensures
        named ==> r@ == named_piece(*f, pinned, lt@, part),
        !named ==> r@ == unnamed_piece(*f, i as nat, pinned, lt@, part),
{
    let id = if named {
        match &f.ident {
            Some(n) => n.clone(),
            None => String::new(),
        }
    } else {
        let mut id = String::from_str("_");
        let d = decimal_text(i);
        id.append(d.as_str());
        id
    };
    let ghost idv = if named { field_name(*f) } else { unnamed_id(i as nat) };
    assert(id@ == idv);
    let r = match part {
        Part::Pat => id,
        Part::Body => if pinned {
            let mut r = if named {
                let mut r = id.clone();
                r.append(": ");
                r
            } else {
                String::new()
            };
            r.append("::core::pin::Pin::new_unchecked(");
            r.append(id.as_str());
            r.append(")");
            r
        } else {
            id
        },
        Part::Field | Part::RefField | Part::OwnField => {
            let mut r = f.vis.clone();
            r.append(" ");
            if named {
                r.append(id.as_str());
                r.append(": ");
            }
            if part == Part::OwnField {
                if pinned {
                    r.append("::core::marker::PhantomData<");
                    r.append(f.ty.as_str());
                    r.append(">");
                } else {
                    r.append(f.ty.as_str());
                }
            } else {
                if pinned {
                    r.append("::core::pin::Pin<");
                }
                r.append("&");
                r.append(lt.as_str());
                if part == Part::Field {
                    r.append(" mut (");
                } else {
                    r.append(" (");
                }
                r.append(f.ty.as_str());
                r.append(")");
                if pinned {
                    r.append(">");
                }
            }
            r
        },
        Part::Move => {
            let mut r = if named {
                let mut r = id.clone();
                r.append(": ");
                r
            } else {
                String::new()
            };
            if pinned {
                r.append("::core::marker::PhantomData");
            } else {
                r.append("::core::ptr::read(");
                r.append(id.as_str());
                r.append(")");
            }
            r
        },
        Part::Drop => if pinned {
            let mut r = String::from_str("let __guard = ::pin_project::__private::UnsafeDropInPlaceGuard(");
            r.append(id.as_str());
            r.append("); ");
            r
        } else {
            String::new()
        },
    };
    proof {
        reveal_strlit(": ");
        reveal_strlit(" ");
        reveal_strlit("");
        reveal_strlit("&");
        reveal_strlit(" mut (");
        reveal_strlit(" (");
        reveal_strlit(")");
        reveal_strlit(">");
        reveal_strlit("::core::pin::Pin<");
        reveal_strlit("::core::pin::Pin<&");
        reveal_strlit(" ::core::pin::Pin<&");
        reveal_strlit(" &");
        reveal_strlit(": &");
        reveal_strlit(": ::core::pin::Pin<&");
        reveal_strlit("::core::pin::Pin::new_unchecked(");
        reveal_strlit(": ::core::pin::Pin::new_unchecked(");
        reveal_strlit("::core::marker::PhantomData");
        reveal_strlit(": ::core::marker::PhantomData");
        reveal_strlit("::core::marker::PhantomData<");
        reveal_strlit(": ::core::marker::PhantomData<");
        reveal_strlit(" ::core::marker::PhantomData<");
        reveal_strlit("::core::ptr::read(");
        reveal_strlit(": ::core::ptr::read(");
        reveal_strlit(")>");
        if named {
            assert(r@ =~= named_piece(*f, pinned, lt@, part));
        } else {
            assert(r@ =~= unnamed_piece(*f, i as nat, pinned, lt@, part));
        }
    }
    r
}


proof fn lemma_pieces_push(fs: Seq<Field>, flags: Seq<bool>, lt: Seq<char>, named: bool, part: Part, i: int, b: bool)
    requires
        0 <= i < fs.len(),
        flags.len() == i,
    ensures
        pieces(fs.subrange(0, i + 1), flags.push(b), lt, named, part)
            =~= pieces(fs.subrange(0, i), flags, lt, named, part).push(
                if named { named_piece(fs[i], b, lt, part) } else { unnamed_piece(fs[i], i as nat, b, lt, part) }),
{
}

/// Projects each field: pinned fields (marked `#[pin]`) to pinned references,
/// others to plain references; the types of the pinned fields are appended
/// to `pinned_fields`.
pub fn visit_fields(fields: &Vec<Field>, named: bool, lt: &String, pinned_fields: &mut Vec<String>) -> (r: Result<ProjectedFields, Error>)
    ensures
        match pin_flags(fields@) {
            Err(d) => r matches Err(e) && e@ == d,
            Ok(flags) => r matches Ok(p) && p@ == projection(fields@, flags, lt@, named)
                && views(final(pinned_fields)@) == views(old(pinned_fields)@) + pinned_types(fields@, flags),
        },
{
    let mut pat: Vec<String> = Vec::new();
    let mut body: Vec<String> = Vec::new();
    let mut fld: Vec<String> = Vec::new();
    let mut rfld: Vec<String> = Vec::new();
    let mut ofld: Vec<String> = Vec::new();
    let mut mv: Vec<String> = Vec::new();
    let mut drp: Vec<String> = Vec::new();
    let ghost mut flags: Seq<bool> = Seq::empty();
    let mut i: usize = 0;
    while i < fields.len()
        invariant
            i <= fields@.len(),
            flags.len() == i,
            pin_flags(fields@.subrange(0, i as int)) == Ok::<Seq<bool>, Diag>(flags),
            views(pinned_fields@) == views(old(pinned_fields)@) + pinned_types(fields@.subrange(0, i as int), flags),
            views(pat@) == pieces(fields@.subrange(0, i as int), flags, lt@, named, Part::Pat),
            views(body@) == pieces(fields@.subrange(0, i as int), flags, lt@, named, Part::Body),
            views(fld@) == pieces(fields@.subrange(0, i as int), flags, lt@, named, Part::Field),
            views(rfld@) == pieces(fields@.subrange(0, i as int), flags, lt@, named, Part::RefField),
            views(ofld@) == pieces(fields@.subrange(0, i as int), flags, lt@, named, Part::OwnField),
            views(mv@) == pieces(fields@.subrange(0, i as int), flags, lt@, named, Part::Move),
            views(drp@) == pieces(fields@.subrange(0, i as int), flags, lt@, named, Part::Drop),
        decreases fields@.len() - i,
    {
        let f = &fields[i];
        assert(fields@.subrange(0, i + 1).drop_last() =~= fields@.subrange(0, i as int));
        let pinned = match find_exact(&f.attrs, "pin") {
            Err(e) => {
                proof { lemma_pin_flags_err_sticks(fields@, i + 1); }
                return Err(e);
            },
            Ok(a) => a.is_some(),
        };
        let ghost old_pat = pat@;
        pat.push(piece_text(f, i, pinned, lt, named, Part::Pat));
        let ghost old_body = body@;
        body.push(piece_text(f, i, pinned, lt, named, Part::Body));
        let ghost old_fld = fld@;
        fld.push(piece_text(f, i, pinned, lt, named, Part::Field));
        let ghost old_rfld = rfld@;
        rfld.push(piece_text(f, i, pinned, lt, named, Part::RefField));
        let ghost old_ofld = ofld@;
        ofld.push(piece_text(f, i, pinned, lt, named, Part::OwnField));
        let ghost old_mv = mv@;
        mv.push(piece_text(f, i, pinned, lt, named, Part::Move));
        let ghost old_drp = drp@;
        drp.push(piece_text(f, i, pinned, lt, named, Part::Drop));
        let ghost old_pinned = pinned_fields@;
        if pinned {
            pinned_fields.push(f.ty.clone());
        }
        proof {
            lemma_pin_flags_len(fields@.subrange(0, i as int));
            assert(flags.push(pinned).subrange(0, i as int) =~= flags);
            if pinned {
                assert(views(pinned_fields@) =~= views(old_pinned).push(f.ty@));
            } else {
                assert(views(pinned_fields@) =~= views(old_pinned));
            }
            lemma_pieces_push(fields@, flags, lt@, named, Part::Pat, i as int, pinned);
            lemma_pieces_push(fields@, flags, lt@, named, Part::Body, i as int, pinned);
            lemma_pieces_push(fields@, flags, lt@, named, Part::Field, i as int, pinned);
            lemma_pieces_push(fields@, flags, lt@, named, Part::RefField, i as int, pinned);
            lemma_pieces_push(fields@, flags, lt@, named, Part::OwnField, i as int, pinned);
            lemma_pieces_push(fields@, flags, lt@, named, Part::Move, i as int, pinned);
            lemma_pieces_push(fields@, flags, lt@, named, Part::Drop, i as int, pinned);
            assert(views(pat@) =~= pieces(fields@.subrange(0, i + 1), flags.push(pinned), lt@, named, Part::Pat)) by {
                assert(views(pat@) =~= views(old_pat).push(pat@[i as int]@));
            }
            assert(views(body@) =~= pieces(fields@.subrange(0, i + 1), flags.push(pinned), lt@, named, Part::Body)) by {
                assert(views(body@) =~= views(old_body).push(body@[i as int]@));
            }
            assert(views(fld@) =~= pieces(fields@.subrange(0, i + 1), flags.push(pinned), lt@, named, Part::Field)) by {
                assert(views(fld@) =~= views(old_fld).push(fld@[i as int]@));
            }
            assert(views(rfld@) =~= pieces(fields@.subrange(0, i + 1), flags.push(pinned), lt@, named, Part::RefField)) by {
                assert(views(rfld@) =~= views(old_rfld).push(rfld@[i as int]@));
            }
            assert(views(ofld@) =~= pieces(fields@.subrange(0, i + 1), flags.push(pinned), lt@, named, Part::OwnField)) by {
                assert(views(ofld@) =~= views(old_ofld).push(ofld@[i as int]@));
            }
            assert(views(mv@) =~= pieces(fields@.subrange(0, i + 1), flags.push(pinned), lt@, named, Part::Move)) by {
                assert(views(mv@) =~= views(old_mv).push(mv@[i as int]@));
            }
            assert(views(drp@) =~= pieces(fields@.subrange(0, i + 1), flags.push(pinned), lt@, named, Part::Drop)) by {
                assert(views(drp@) =~= views(old_drp).push(drp@[i as int]@));
            }
            flags = flags.push(pinned);
        }
        i = i + 1;
    }
    assert(fields@.subrange(0, i as int) =~= fields@);
    let proj_pat = wrap_strings(&pat, named);
    let proj_body = wrap_strings(&body, named);
    let proj_fields = wrap_strings(&fld, named);
    let proj_ref_fields = wrap_strings(&rfld, named);
    let proj_own_fields = wrap_strings(&ofld, named);
    let proj_move = wrap_strings(&mv, named);
    let proj_drop = concat_strings(&drp);
    Ok(ProjectedFields { proj_pat, proj_body, proj_fields, proj_ref_fields, proj_own_fields, proj_move, proj_drop })
}

/// `{ a, b }` or `(a, b)`.
fn wrap_strings(items: &Vec<String>, named: bool) -> (r: String)
    ensures
        r@ == wrap(views(items@), named),
{
    let mut r = if named { String::from_str("{ ") } else { String::from_str("(") };
    let j = join_strings(items, ", ");
    r.append(j.as_str());
    if named {
        r.append(" }");
    } else {
        r.append(")");
    }
    r
}

/// The projections of a unit variant: nothing.
pub fn unit_fields() -> (r: ProjectedFields)
    ensures
        r@ == unit_projection(),
{
    ProjectedFields {
        proj_pat: String::new(),
        proj_body: String::new(),
        proj_fields: String::new(),
        proj_ref_fields: String::new(),
        proj_own_fields: String::new(),
        proj_move: String::new(),
        proj_drop: String::new(),
    }
}

} // verus!
