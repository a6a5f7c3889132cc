//! The syntax that the expansion reads, as plain values.
//!
//! Types, bounds and predicates appear as their source text: the expansion
//! only copies them into its output. Every element that a diagnostic can
//! point at carries a `loc`, a number chosen by whoever built the value.
use vstd::prelude::*;

use crate::tokens::TokenTree;

verus! {

/// Visibility of an item or field.
pub enum Vis {
    /// `pub`
    Public,
    /// `crate`
    Crate,
    /// `pub(...)`, given by its text.
    Restricted(String),
    /// No visibility written.
    Inherited,
}

/// An outer attribute `#[path tokens]`.
pub struct Attr {
    /// The path when it is a single identifier; `None` for any other path.
    pub name: Option<String>,
    /// The tokens after the path.
    pub tokens: Vec<TokenTree>,
    pub loc: usize,
}

/// One generic parameter. Empty text stands for an absent part.
pub enum GenericParam {
    /// `'a: bounds`
    Lifetime { name: String, bounds: String },
    /// `T: bounds = default`
    Type { name: String, bounds: String, default: String },
    /// `const N: ty = default`
    Const { name: String, ty: String, default: String },
}

/// Generic parameters and where clause of an item.
pub struct Generics {
    pub params: Vec<GenericParam>,
    /// The predicates of the `where` clause, when one was written or made.
    pub where_clause: Option<Vec<String>>,
}

/// A field of a struct or variant.
pub struct Field {
    pub attrs: Vec<Attr>,
    /// Visibility, as text (empty when inherited).
    pub vis: String,
    /// Name of a named field.
    pub ident: Option<String>,
    /// Type, as text.
    pub ty: String,
    pub loc: usize,
}

/// The fields of a struct or variant.
pub enum Fields {
    Named(Vec<Field>),
    Unnamed(Vec<Field>),
    Unit,
}

/// A variant of an enum.
pub struct Variant {
    pub attrs: Vec<Attr>,
    pub ident: String,
    pub fields: Fields,
    /// Where the discriminant expression stands, if the variant has one.
    pub discriminant: Option<usize>,
    pub loc: usize,
}

/// A struct item.
pub struct ItemStruct {
    pub attrs: Vec<Attr>,
    pub vis: Vis,
    pub ident: String,
    pub ident_loc: usize,
    pub generics: Generics,
    pub fields: Fields,
    pub fields_loc: usize,
}

/// An enum item.
pub struct ItemEnum {
    pub attrs: Vec<Attr>,
    pub vis: Vis,
    pub ident: String,
    pub ident_loc: usize,
    pub generics: Generics,
    pub variants: Vec<Variant>,
    pub brace_loc: usize,
    pub variants_loc: usize,
}

/// An item an attribute is applied to.
pub enum Item {
    Struct(ItemStruct),
    Enum(ItemEnum),
    /// Any other kind of item.
    Other { loc: usize },
}

} // verus!
