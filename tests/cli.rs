use mlogc::argparse::{flag_set, parse_args, Opts};
use mlogc::commands::{check_log_flags, compile_path, select_command, unknown_command_error, Command};
use mlogc::exit::ExitReason;

fn strings(v: &[&str]) -> Vec<String> {
    v.iter().map(|s| s.to_string()).collect()
}

fn run(v: &[&str]) -> (Result<(), (String, ExitReason)>, Opts, Vec<String>) {
    let mut opts = Opts::new();
    let mut args = Vec::new();
    let r = parse_args(strings(v), &mut opts, &mut args);
    (r, opts, args)
}

#[test]
fn plain_arguments_pass_through() {
    let (r, opts, args) = run(&["prog", "compile", "file.txt"]);
    assert!(r.is_ok());
    assert_eq!(args, strings(&["prog", "compile", "file.txt"]));
    assert!(!flag_set(&opts, "verbose"));
}

#[test]
fn short_and_long_flags() {
    let (r, opts, args) = run(&["prog", "-v", "compile", "--no-warn"]);
    assert!(r.is_ok());
    assert_eq!(args, strings(&["prog", "compile"]));
    assert!(flag_set(&opts, "verbose"));
    assert!(flag_set(&opts, "no-warn"));
    assert_eq!(opts.get("verbose"), Some(&String::new()));
    assert!(!flag_set(&opts, "v"));
}

#[test]
fn option_values() {
    let (r, opts, args) = run(&["prog", "--out-file", "x.mlog", "-Ov", "y.mlog", "z"]);
    assert!(r.is_ok());
    assert_eq!(opts.get("out-file"), Some(&"y.mlog".to_string()));
    assert!(flag_set(&opts, "verbose"));
    assert_eq!(args, strings(&["prog", "z"]));
}

#[test]
fn missing_option_value() {
    let (r, _, _) = run(&["prog", "-O"]);
    assert_eq!(
        r,
        Err((
            "Option \"-O\" expected an input argument but got none.\nRun without arguments for the help page."
                .to_string(),
            ExitReason::OptionExpectedInputArgument
        ))
    );
}

#[test]
fn unknown_option() {
    let (r, _, _) = run(&["prog", "--bogus"]);
    assert_eq!(
        r,
        Err((
            "Unknown option \"--bogus\".\nRun without arguments for the help page.".to_string(),
            ExitReason::UnknownOption
        ))
    );
    let (r, opts, _) = run(&["prog", "-vx"]);
    assert_eq!(r.unwrap_err().0, "Unknown option \"-x\".\nRun without arguments for the help page.");
    assert!(flag_set(&opts, "verbose"));
}

#[test]
fn backslash_escapes_a_dash() {
    let (r, _, args) = run(&["prog", "compile", "\\--x.txt", "-"]);
    assert!(r.is_ok());
    assert_eq!(args, strings(&["prog", "compile", "--x.txt"]));
}

#[test]
fn opts_insert_replaces() {
    let mut o = Opts::new();
    o.insert("a".to_string(), "1".to_string());
    o.insert("a".to_string(), "2".to_string());
    assert_eq!(o.get("a"), Some(&"2".to_string()));
    assert!(o.contains_key("a"));
    assert!(!o.contains_key("b"));
    assert_eq!(o.get("b"), None);
}

#[test]
fn commands_by_name() {
    assert_eq!(select_command("version"), Command::Version);
    assert_eq!(select_command("compile"), Command::Compile);
    assert_eq!(select_command("help"), Command::Unknown);
}

#[test]
fn unknown_command_messages() {
    assert_eq!(
        unknown_command_error("x.txt", "mlogc", true),
        ("Unknown command \"x.txt\". Did you mean \"mlogc compile x.txt\"?".to_string(), ExitReason::UnknownCommand)
    );
    assert_eq!(
        unknown_command_error("foo", "mlogc", false),
        ("Unknown command \"foo\".".to_string(), ExitReason::UnknownCommand)
    );
}

#[test]
fn compile_needs_a_path() {
    assert_eq!(compile_path(&strings(&["prog", "compile", "a.txt"])), Ok("a.txt".to_string()));
    assert_eq!(
        compile_path(&strings(&["prog", "compile"])),
        Err((
            "Command \"compile\" expected 1 argument. 0 were provided.".to_string(),
            ExitReason::CommandExpectedInputArgument
        ))
    );
}

#[test]
fn log_level_conflicts() {
    let (_, opts, _) = run(&["prog", "-v", "-S"]);
    assert_eq!(
        check_log_flags(&opts),
        Err(("Incompatible log level flags --verbose and --soft-silent.".to_string(), ExitReason::IncompatibleLogLevelFlags))
    );
    let (_, opts, _) = run(&["prog", "-v", "-W"]);
    assert_eq!(check_log_flags(&opts), Ok(()));
}
