//! The failure taxonomy of the codec.
use vstd::prelude::*;

verus! {

/// Everything that can go wrong while reading native-info text.
///
/// The first three variants are per-line parse failures: the document
/// assembler catches them locally and drops the offending line.
/// [`Error::UnclosedBlock`] is a stream-level failure and aborts a whole
/// load.
#[derive(Clone, Copy, Debug, PartialEq, Eq, Structural)]
pub enum Error {
    /// A fixed-width read reached past the end of a line.
    OutOfBounds,
    /// A field's trimmed text is not a valid numeric literal for its type.
    MalformedNumber,
    /// The two unit columns inside a particle group disagree.
    InconsistentUnit,
    /// End of input was reached while still inside an open block.
    UnclosedBlock,
}

impl Error {
    /// A short human-readable description of the failure.
    pub fn describe(&self) -> (r: &'static str)
        ensures
            r@ == self.spec_describe(),
    {
        match self {
            Error::OutOfBounds => "field read past the end of the line",
            Error::MalformedNumber => "field is not a valid number",
            Error::InconsistentUnit => "unit columns of a particle group disagree",
            Error::UnclosedBlock => "end of input inside an unclosed block",
        }
    }

    /// What [`Error::describe`] returns for each variant.
    pub open spec fn spec_describe(&self) -> Seq<char> {
        match self {
            Error::OutOfBounds => "field read past the end of the line"@,
            Error::MalformedNumber => "field is not a valid number"@,
            Error::InconsistentUnit => "unit columns of a particle group disagree"@,
            Error::UnclosedBlock => "end of input inside an unclosed block"@,
        }
    }
}

} // verus!
