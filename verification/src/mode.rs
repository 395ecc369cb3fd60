//! The modes of the benchmark program.
use vstd::prelude::*;

verus! {

/// What a run of the benchmark does: create the data, benchmark reading it,
/// or verify it.
#[derive(Clone, Copy, PartialEq, Eq, Structural)]
pub enum Mode {
    Create,
    Bench,
    Verify,
}

impl Mode {
    /// The name of the mode.
    pub fn _to_str(&self) -> (s: &'static str)
        ensures
            s@ == (match *self {
                Mode::Create => "Create"@,
                Mode::Bench => "Bench"@,
                Mode::Verify => "Verify"@,
            }),
    {
        match self {
            Mode::Create => "Create",
            Mode::Bench => "Bench",
            Mode::Verify => "Verify",
        }
    }
}

} // verus!
