use vstd::prelude::*;

pub mod args;
pub mod attribute;
pub mod attrs;
pub mod derive;
pub mod expansion_laws;
pub mod error;
pub mod generics;
pub mod laws;
pub mod model;
pub mod names;
pub mod pin_projectable;
pub mod pinned_drop;
pub mod project;
pub mod project_args;
pub mod project_fn;
pub mod project_items;
pub mod project_stmt;
pub mod project_fields;
pub mod text;
pub mod tokens;
pub mod unsafe_project;
pub mod validate;

verus! {

/// A trait used for custom implementations of `Unpin`: with
/// `#[pin_project(UnsafeUnpin)]`, the type is `Unpin` exactly when it
/// implements this trait, whatever its pinned fields are.
///
/// An implementation is a promise that no pinned field of the type is
/// moved while the type is pinned; nothing in the type system holds the
/// implementer to it. The trait is declared without `unsafe`, so an
/// implementation is written with a plain `impl`.
pub trait UnsafeUnpin {}

/// Helper struct used to make the generated `Unpin` bound for
/// `UnsafeUnpin` types depend on a type of this crate.
pub struct Wrapper<T>(pub T);

impl<T> UnsafeUnpin for Wrapper<T> where T: UnsafeUnpin {}

} // verus!
