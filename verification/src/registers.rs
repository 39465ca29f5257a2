//! The register file's address space: a closed enumeration of register
//! names, together with their positions in the register bank and their
//! textual names in assembly source.

use vstd::prelude::*;

verus! {

/// A register name.  The machine has exactly six general-purpose
/// registers; every instruction operand that names a register names one
/// of these.
#[derive(Debug, PartialEq, Eq, Structural, Clone, Copy)]
pub enum Register {
    RA,
    RB,
    RC,
    RD,
    RE,
    RF,
}

/// How many registers the register file holds.
pub const REG_COUNT: usize = 6;

impl Register {
    /// The position of this register within the register file.
    pub open spec fn spec_index(self) -> int {
        match self {
            Register::RA => 0,
            Register::RB => 1,
            Register::RC => 2,
            Register::RD => 3,
            Register::RE => 4,
            Register::RF => 5,
        }
    }

    /// Returns the position of this register within the register file.
    pub fn index(self) -> (i: usize)
        ensures
            i == self.spec_index(),
            i < REG_COUNT,
    {
        match self {
            Register::RA => 0,
            Register::RB => 1,
            Register::RC => 2,
            Register::RD => 3,
            Register::RE => 4,
            Register::RF => 5,
        }
    }

    /// The register named by `name` in assembly source, if any.
    pub open spec fn spec_of_name(name: Seq<char>) -> Option<Register> {
        if name == "ra"@ {
            Some(Register::RA)
        } else if name == "rb"@ {
            Some(Register::RB)
        } else if name == "rc"@ {
            Some(Register::RC)
        } else if name == "rd"@ {
            Some(Register::RD)
        } else if name == "re"@ {
            Some(Register::RE)
        } else if name == "rf"@ {
            Some(Register::RF)
        } else {
            None
        }
    }

    /// Looks a register up by its name in assembly source.
    pub fn from_name(name: &String) -> (r: Option<Register>)
        ensures
            r == Register::spec_of_name(name@),
    {
        if crate::util::string_is(name, "ra") {
            Some(Register::RA)
        } else if crate::util::string_is(name, "rb") {
            Some(Register::RB)
        } else if crate::util::string_is(name, "rc") {
            Some(Register::RC)
        } else if crate::util::string_is(name, "rd") {
            Some(Register::RD)
        } else if crate::util::string_is(name, "re") {
            Some(Register::RE)
        } else if crate::util::string_is(name, "rf") {
            Some(Register::RF)
        } else {
            None
        }
    }
}

} // verus!
