//! Command-line dispatch: which mode the client runs in.
use vstd::prelude::*;
use crate::text::{decimal, str_eq, owned, push_decimal};

verus! {

/// The mode selected on the command line.
#[derive(Clone, Copy, Debug, PartialEq, Eq, Structural)]
pub enum CliCommand {
    Run,
    Analytics,
    Report,
    Help,
}

/// The aliases of `analytics`.
pub open spec fn is_analytics_alias(a: Seq<char>) -> bool {
    a == "analytics"@ || a == "a"@ || a == "--analytics"@ || a == "-a"@ || a == "--a"@
}

/// The aliases of `report`.
pub open spec fn is_report_alias(a: Seq<char>) -> bool {
    a == "report"@ || a == "r"@ || a == "--report"@ || a == "-r"@ || a == "--r"@
}

/// The aliases of `help`.
pub open spec fn is_help_alias(a: Seq<char>) -> bool {
    a == "help"@ || a == "h"@ || a == "--help"@ || a == "-h"@ || a == "--h"@
}

/// The command that a single argument names, if any.
pub open spec fn command_for(a: Seq<char>) -> Option<CliCommand> {
    if is_analytics_alias(a) {
        Some(CliCommand::Analytics)
    } else if is_report_alias(a) {
        Some(CliCommand::Report)
    } else if is_help_alias(a) {
        Some(CliCommand::Help)
    } else {
        None
    }
}

/// The message for an argument that names no command.
pub open spec fn unknown_command_message(a: Seq<char>) -> Seq<char> {
    "Unknown command or flag '"@ + a + "'."@
}

/// The message for too many arguments; `n` is how many follow the program name.
pub open spec fn too_many_arguments_message(n: nat) -> Seq<char> {
    "Expected at most one command argument, got "@ + decimal(n) + "."@
}

fn any_eq(a: &str, c1: &str, c2: &str, c3: &str, c4: &str, c5: &str) -> (r: bool)
    ensures
        r == (a@ == c1@ || a@ == c2@ || a@ == c3@ || a@ == c4@ || a@ == c5@),
{
    str_eq(a, c1) || str_eq(a, c2) || str_eq(a, c3) || str_eq(a, c4) || str_eq(a, c5)
}

/// Reads the command from the program's arguments; `args[0]` is the program
/// name. No argument runs the client; one argument must be an alias of
/// `analytics`, `report` or `help`; more than one is refused.
pub fn parse_cli_command(args: &[String]) -> (r: Result<CliCommand, String>)
    requires
        args@.len() >= 1,
    ensures
        args@.len() == 1 ==> r == Ok::<CliCommand, String>(CliCommand::Run),
        args@.len() == 2 ==> (command_for(args@[1]@) matches Some(c) ==> r == Ok::<
            CliCommand,
            String,
        >(c)),
        args@.len() == 2 ==> (command_for(args@[1]@) is None ==> (r matches Err(m) && m@
            == unknown_command_message(args@[1]@))),
        args@.len() > 2 ==> (r matches Err(m) && m@ == too_many_arguments_message(
            (args@.len() - 1) as nat,
        )),
{
    let n = args.len();
    if n == 1 {
        Ok(CliCommand::Run)
    } else if n == 2 {
        let arg = args[1].as_str();
        if any_eq(arg, "analytics", "a", "--analytics", "-a", "--a") {
            Ok(CliCommand::Analytics)
        } else if any_eq(arg, "report", "r", "--report", "-r", "--r") {
            Ok(CliCommand::Report)
        } else if any_eq(arg, "help", "h", "--help", "-h", "--h") {
            Ok(CliCommand::Help)
        } else {
            let mut m = owned("Unknown command or flag '");
            m.append(arg);
            m.append("'.");
            Err(m)
        }
    } else {
        let mut m = owned("Expected at most one command argument, got ");
        push_decimal(&mut m, (n - 1) as u128);
        m.append(".");
        Err(m)
    }
}

} // verus!
