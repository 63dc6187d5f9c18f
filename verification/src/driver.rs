//! How a run ends, and the exit code that tells it.

use vstd::prelude::*;

verus! {

/// How a run of the program ended.
#[derive(Debug, Clone, Copy, PartialEq, Eq, Structural)]
pub enum Outcome {
    /// The program ran to its end.
    Success,
    /// The command line was misused.
    Usage,
    /// The scanner, the parser or the resolver rejected the program.
    StaticError,
    /// The program failed while it ran.
    RuntimeError,
    /// The script could not be read.
    IoError,
}

pub const EXIT_CODE_OK: i32 = 0;

pub const EXIT_CODE_CMD_LINE_ERROR: i32 = 64;

pub const EXIT_CODE_DATA_ERROR: i32 = 65;

pub const EXIT_CODE_SCRIPT_ERROR: i32 = 70;

pub const EXIT_CODE_IO_ERROR: i32 = 74;

pub open spec fn exit_code_spec(outcome: Outcome) -> i32 {
    match outcome {
        Outcome::Success => 0,
        Outcome::Usage => 64,
        Outcome::StaticError => 65,
        Outcome::RuntimeError => 70,
        Outcome::IoError => 74,
    }
}

/// The exit code for an outcome.
pub fn exit_code(outcome: Outcome) -> (r: i32)
    ensures
        r == exit_code_spec(outcome),
{
    match outcome {
        Outcome::Success => EXIT_CODE_OK,
        Outcome::Usage => EXIT_CODE_CMD_LINE_ERROR,
        Outcome::StaticError => EXIT_CODE_DATA_ERROR,
        Outcome::RuntimeError => EXIT_CODE_SCRIPT_ERROR,
        Outcome::IoError => EXIT_CODE_IO_ERROR,
    }
}

/// How the command line is to be taken: with no argument the prompt
/// runs, with one the script of that name; more is a misuse.
#[derive(Debug, Clone, Copy, PartialEq, Eq, Structural)]
pub enum Command {
    Prompt,
    Script,
    Misuse,
}

/// What to do for a command line of `count` words, the program's name
/// included.
pub fn command(count: usize) -> (r: Command)
    ensures
        r == if count > 2 {
            Command::Misuse
        } else if count == 2 {
            Command::Script
        } else {
            Command::Prompt
        },
{
    if count > 2 {
        Command::Misuse
    } else if count == 2 {
        Command::Script
    } else {
        Command::Prompt
    }
}

/// The outcome of the static passes: an error if the scanner reported
/// one, if the parser failed, or if the resolver rejected the program.
pub fn static_outcome(scanner_failed: bool, parser_failed: bool, resolver_failed: bool) -> (r:
    Outcome)
    ensures
        r == if scanner_failed || parser_failed || resolver_failed {
            Outcome::StaticError
        } else {
            Outcome::Success
        },
{
    if scanner_failed || parser_failed || resolver_failed {
        Outcome::StaticError
    } else {
        Outcome::Success
    }
}

} // verus!
