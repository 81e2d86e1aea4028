//! Errors of the response-table tooling: applications generate their
//! response-code enums from description files at build time, and report
//! malformed inputs with these variants.

use vstd::prelude::*;

verus! {

/// What can be wrong with a response description file.
#[derive(Debug, Clone, Copy, PartialEq, Eq, Structural)]
pub enum BuildError {
    /// The file's content is not a table of code/message entries.
    Format,
    /// The file's name cannot be turned into an enum name.
    File,
}

impl BuildError {
    /// A short description of the error.
    pub fn message(&self) -> (r: &'static str)
        ensures
            *self is Format ==> r@ == "response file format invalid"@,
            *self is File ==> r@ == "response file name invalid"@,
    {
        match self {
            BuildError::Format => "response file format invalid",
            BuildError::File => "response file name invalid",
        }
    }
}

} // verus!
