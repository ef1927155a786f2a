//! The decisions of the command line that do not need the outside world:
//! which command runs, whether its arguments suffice, whether the log-level
//! options agree, and the messages for each refusal.
use vstd::prelude::*;
use crate::argparse::Opts;
use crate::exit::ExitReason;
use crate::text::str_eq;

verus! {

/// The version that the `version` command and option print.
pub const APP_VER: &'static str = "0.0.1";

/// A command named by the first plain argument.
#[derive(Clone, Copy, Debug, PartialEq, Eq, Structural)]
pub enum Command {
    Version,
    Compile,
    Unknown,
}

pub open spec fn command_of(name: Seq<char>) -> Command {
    if name == "version"@ {
        Command::Version
    } else if name == "compile"@ {
        Command::Compile
    } else {
        Command::Unknown
    }
}

/// The command that `name` selects.
pub fn select_command(name: &str) -> (c: Command)
    ensures
        c == command_of(name@),
{
    if str_eq(name, "version") {
        Command::Version
    } else if str_eq(name, "compile") {
        Command::Compile
    } else {
        Command::Unknown
    }
}

pub open spec fn unknown_command_failure(
    name: Seq<char>,
    program: Seq<char>,
    file_exists: bool,
) -> (Seq<char>, ExitReason) {
    if file_exists {
        (
            "Unknown command \""@ + name + "\". Did you mean \""@ + program + " compile "@ + name
                + "\"?"@,
            ExitReason::UnknownCommand,
        )
    } else {
        ("Unknown command \""@ + name + "\"."@, ExitReason::UnknownCommand)
    }
}

/// The error for an unknown command `name`; where a file of that name
/// exists, the message suggests compiling it with `program`.
pub fn unknown_command_error(name: &str, program: &str, file_exists: bool) -> (e: (
    String,
    ExitReason,
))
    ensures
        (e.0@, e.1) == unknown_command_failure(name@, program@, file_exists),
{
    let mut m = String::from_str("Unknown command \"");
    m.append(name);
    if file_exists {
        m.append("\". Did you mean \"");
        m.append(program);
        m.append(" compile ");
        m.append(name);
        m.append("\"?");
    } else {
        m.append("\".");
    }
    (m, ExitReason::UnknownCommand)
}

pub open spec fn compile_path_outcome(args: Seq<Seq<char>>) -> Result<Seq<char>, (Seq<char>, ExitReason)> {
    if args.len() < 3 {
        Err(
            (
                "Command \"compile\" expected 1 argument. 0 were provided."@,
                ExitReason::CommandExpectedInputArgument,
            ),
        )
    } else {
        Ok(args[2])
    }
}

/// The file that `compile` reads: the plain argument after the command
/// (the program's own name comes first, then the command).
pub fn compile_path(args: &Vec<String>) -> (r: Result<String, (String, ExitReason)>)
    ensures
        match compile_path_outcome(args@.map_values(|s: String| s@)) {
            Ok(p) => r matches Ok(q) && q@ == p,
            Err(e) => r matches Err(f) && f.0@ == e.0 && f.1 == e.1,
        },
{
    if args.len() < 3 {
        return Err(
            (
                String::from_str("Command \"compile\" expected 1 argument. 0 were provided."),
                ExitReason::CommandExpectedInputArgument,
            ),
        );
    }
    let r = args[2].clone();
    assert(args@.map_values(|s: String| s@)[2] == args@[2]@);
    Ok(r)
}

pub open spec fn log_conflict(opts: Map<Seq<char>, Seq<char>>, v: Seq<char>, s: Seq<char>) -> bool {
    opts.contains_key(v) && opts.contains_key(s)
}

pub open spec fn log_conflict_failure(v: Seq<char>, s: Seq<char>) -> (Seq<char>, ExitReason) {
    (
        "Incompatible log level flags --"@ + v + " and --"@ + s + "."@,
        ExitReason::IncompatibleLogLevelFlags,
    )
}

/// The first pair of a verbose and a silent option that are both set, in
/// the order (verbose, silent), (verbose, soft-silent), (debug, silent),
/// (debug, soft-silent).
pub open spec fn log_flags_outcome(opts: Map<Seq<char>, Seq<char>>) -> Result<(), (Seq<char>, ExitReason)> {
    if log_conflict(opts, "verbose"@, "silent"@) {
        Err(log_conflict_failure("verbose"@, "silent"@))
    } else if log_conflict(opts, "verbose"@, "soft-silent"@) {
        Err(log_conflict_failure("verbose"@, "soft-silent"@))
    } else if log_conflict(opts, "debug"@, "silent"@) {
        Err(log_conflict_failure("debug"@, "silent"@))
    } else if log_conflict(opts, "debug"@, "soft-silent"@) {
        Err(log_conflict_failure("debug"@, "soft-silent"@))
    } else {
        Ok(())
    }
}

fn conflict_error(v: &str, s: &str) -> (e: (String, ExitReason))
    ensures
        (e.0@, e.1) == log_conflict_failure(v@, s@),
{
    let mut m = String::from_str("Incompatible log level flags --");
    m.append(v);
    m.append(" and --");
    m.append(s);
    m.append(".");
    (m, ExitReason::IncompatibleLogLevelFlags)
}

/// Refuses a verbose option together with a silent one.
pub fn check_log_flags(opts: &Opts) -> (r: Result<(), (String, ExitReason)>)
    ensures
        match log_flags_outcome(opts@) {
            Ok(()) => r is Ok,
            Err(e) => r matches Err(f) && f.0@ == e.0 && f.1 == e.1,
        },
{
    let verbose = opts.contains_key("verbose");
    let debug = opts.contains_key("debug");
    let silent = opts.contains_key("silent");
    let soft = opts.contains_key("soft-silent");
    if verbose && silent {
        Err(conflict_error("verbose", "silent"))
    } else if verbose && soft {
        Err(conflict_error("verbose", "soft-silent"))
    } else if debug && silent {
        Err(conflict_error("debug", "silent"))
    } else if debug && soft {
        Err(conflict_error("debug", "soft-silent"))
    } else {
        Ok(())
    }
}

} // verus!
