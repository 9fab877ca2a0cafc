//! The builder boundary: the error taxonomy of a reference-building run and
//! the one operation a surrounding tool invokes to turn a grammar into
//! written documentation pages.

use vstd::prelude::*;

verus! {

/// The failures a reference-building run can surface: the grammar source
/// could not be read, an output page could not be written, or the grammar
/// source did not parse.
#[derive(Clone, Copy, Debug, PartialEq, Eq, Structural)]
pub enum LalrdocError {
    CannotReadGrammar,
    IoError,
    ParseError,
}

impl LalrdocError {
    /// A short human-readable description of the failure kind.
    pub fn message(&self) -> (r: &'static str)
        ensures
            match *self {
                LalrdocError::CannotReadGrammar => r@ == "cannot read grammar"@,
                LalrdocError::IoError => r@ == "io error"@,
                LalrdocError::ParseError => r@ == "parse error; run lalrpop for more"@,
            },
    {
        match self {
            LalrdocError::CannotReadGrammar => "cannot read grammar",
            LalrdocError::IoError => "io error",
            LalrdocError::ParseError => "parse error; run lalrpop for more",
        }
    }
}

/// One backend that can turn the grammar it holds into a written reference.
/// Writing is I/O, so implementations live with the surrounding tool; the
/// page text they write comes from this crate's page-assembly functions.
pub trait ReferenceBuilder {
    fn build_reference(&self) -> Result<(), LalrdocError>;
}

} // verus!
