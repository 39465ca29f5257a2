//! Small executable helpers shared by the modules that work with label
//! and mnemonic strings.

use vstd::prelude::*;
use vstd::string::StringExecFns;

verus! {

/// Whether the string `s` spells exactly the literal `lit`.
pub fn string_is(s: &String, lit: &str) -> (b: bool)
    ensures
        b == (s@ == lit@),
{
    let other = String::from_str(lit);
    *s == other
}

} // verus!
