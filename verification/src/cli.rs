//! The command-line surface as plain data: the grammar source path and the
//! chosen output format. Argument parsing itself is done by the surrounding
//! tool, which hands these values over.

use vstd::prelude::*;

verus! {

/// The output format chosen on the command line, with its output directory.
#[derive(Debug)]
pub enum ReferenceFormat {
    Mdbook { output: String },
}

/// The parsed command line: the grammar source path and the output format.
#[derive(Debug)]
pub struct Cli {
    pub lalrpop_grammar: String,
    pub format: ReferenceFormat,
}

} // verus!
