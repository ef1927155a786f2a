//! Why a run stopped, and the process exit code of each reason.
use vstd::prelude::*;

verus! {

/// The reason that goes with every error message; each has its own exit code.
#[derive(Clone, Copy, Debug, PartialEq, Eq, Structural)]
pub enum ExitReason {
    OK,
    UnknownOption,
    OptionExpectedInputArgument,
    UnknownCommand,
    CompileFileNotFound,
    CommandExpectedInputArgument,
    CompileCharTooLong,
    CompileBadTokenAfterIdentifier,
    CompileWipArgsUnwrapFailed,
    CompileFuncArgNotValue,
    IncompatibleLogLevelFlags,
    CompileNotImplemented,
}

/// Exit codes count the reasons in the order they are declared, from 0.
pub open spec fn code_of(r: ExitReason) -> i32 {
    match r {
        ExitReason::OK => 0,
        ExitReason::UnknownOption => 1,
        ExitReason::OptionExpectedInputArgument => 2,
        ExitReason::UnknownCommand => 3,
        ExitReason::CompileFileNotFound => 4,
        ExitReason::CommandExpectedInputArgument => 5,
        ExitReason::CompileCharTooLong => 6,
        ExitReason::CompileBadTokenAfterIdentifier => 7,
        ExitReason::CompileWipArgsUnwrapFailed => 8,
        ExitReason::CompileFuncArgNotValue => 9,
        ExitReason::IncompatibleLogLevelFlags => 10,
        ExitReason::CompileNotImplemented => 11,
    }
}

impl ExitReason {
    /// The process exit code for this reason.
    pub fn exit_code(&self) -> (c: i32)
        ensures
            c == code_of(*self),
    {
        match self {
            ExitReason::OK => 0,
            ExitReason::UnknownOption => 1,
            ExitReason::OptionExpectedInputArgument => 2,
            ExitReason::UnknownCommand => 3,
            ExitReason::CompileFileNotFound => 4,
            ExitReason::CommandExpectedInputArgument => 5,
            ExitReason::CompileCharTooLong => 6,
            ExitReason::CompileBadTokenAfterIdentifier => 7,
            ExitReason::CompileWipArgsUnwrapFailed => 8,
            ExitReason::CompileFuncArgNotValue => 9,
            ExitReason::IncompatibleLogLevelFlags => 10,
            ExitReason::CompileNotImplemented => 11,
        }
    }
}

/// Distinct reasons have distinct exit codes.
pub proof fn lemma_exit_codes_distinct(a: ExitReason, b: ExitReason)
    requires
        a != b,
    ensures
        code_of(a) != code_of(b),
{
}

} // verus!
