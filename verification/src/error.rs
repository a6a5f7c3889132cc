use vstd::prelude::*;

verus! {

/// A diagnostic produced by the expansion: where it points and what it says.
///
/// `loc` identifies the syntax element the message is attached to; the
/// caller that built the syntax model decides what each number stands for.
pub struct Error {
    pub loc: usize,
    pub msg: String,
}

/// The mathematical content of an [`Error`].
pub struct Diag {
    pub loc: usize,
    pub msg: Seq<char>,
}

impl View for Error {
    type V = Diag;

    open spec fn view(&self) -> Diag {
        Diag { loc: self.loc, msg: self.msg@ }
    }
}

/// Builds an error at `loc` whose message is the literal `msg`.
pub fn error_at(loc: usize, msg: &str) -> (e: Error)
    ensures
        e@ == (Diag { loc, msg: msg@ }),
{
    Error { loc, msg: String::from_str(msg) }
}

} // verus!
