//! The run configuration for executing a program file: the name of the
//! file to run.  Opening and reading the file is input/output and lives
//! with the embedding program, which hands the file's text to the lexer
//! and parser and the parsed program to the machine.

use vstd::prelude::*;

verus! {

/// Names the program file a batch run should execute.
#[derive(Debug)]
pub struct Runner {
    pub filename: String,
}

impl Runner {
    /// Returns a runner for the named file.
    pub fn new(filename: String) -> (r: Runner)
        ensures
            r.filename@ == filename@,
    {
        Runner { filename }
    }
}

} // verus!
