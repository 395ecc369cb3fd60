//! Exit codes and verbosity levels of the scribe tool.
use vstd::prelude::*;

verus! {

/// How the tool ends.
#[derive(Clone, Copy, PartialEq, Eq, Structural)]
pub enum ExitCode {
    OK,
    Critical,
    MAJOR,
    MINOR,
    UNDEF,
}

impl ExitCode {
    /// The process exit status of the code: 0, 1, 10, 11 and 12.
    pub fn value(self) -> (v: i32)
        ensures
            v == (match self {
                ExitCode::OK => 0i32,
                ExitCode::Critical => 1i32,
                ExitCode::MAJOR => 10i32,
                ExitCode::MINOR => 11i32,
                ExitCode::UNDEF => 12i32,
            }),
    {
        match self {
            ExitCode::OK => 0,
            ExitCode::Critical => 1,
            ExitCode::MAJOR => 10,
            ExitCode::MINOR => 11,
            ExitCode::UNDEF => 12,
        }
    }
}

/// How much the tool reports.
#[derive(Clone, Copy, PartialEq, Eq, Structural)]
pub enum Verbosity {
    NONE,
    INFORMATIONAL,
    DEBUG,
    WARNING,
}

} // verus!
