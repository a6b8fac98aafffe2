//! The command line: which flags there are and what they ask for.

use vstd::prelude::*;
use crate::text::{same_text, texts};

verus! {

/// What the command line asks for.
#[derive(Debug, Clone, Copy, PartialEq, Eq, Structural)]
pub enum CliCommand {
    /// Show the help text and leave.
    Help,
    /// Show the version and leave.
    Version,
    /// Run the agent; in safe mode where `safe` is set.
    Run { safe: bool },
}

/// Whether one of the arguments is `flag`.
pub open spec fn has_flag(args: Seq<Seq<char>>, flag: Seq<char>) -> bool {
    exists|i: int| 0 <= i < args.len() && #[trigger] args[i] == flag
}

/// What a command line asks for: help where `--help` or `-h` is among
/// the arguments; else the version where `--version` or `-v` is; else a
/// run, in safe mode where `--safe` is.
pub open spec fn cli_command_spec(args: Seq<Seq<char>>) -> CliCommand {
    if has_flag(args, "--help"@) || has_flag(args, "-h"@) {
        CliCommand::Help
    } else if has_flag(args, "--version"@) || has_flag(args, "-v"@) {
        CliCommand::Version
    } else {
        CliCommand::Run { safe: has_flag(args, "--safe"@) }
    }
}

fn contains_flag(args: &Vec<String>, flag: &str) -> (found: bool)
    ensures
        found == has_flag(texts(args@), flag@),
{
    let mut i: usize = 0;
    while i < args.len()
        invariant
            i <= args.len(),
            forall|k: int| 0 <= k < i ==> #[trigger] texts(args@)[k] != flag@,
        decreases args.len() - i,
    {
        if same_text(args[i].as_str(), flag) {
            assert(texts(args@)[i as int] == flag@);
            return true;
        }
        i += 1;
    }
    false
}

/// What the command line asks for, as `cli_command_spec` defines it.
pub fn cli_command(args: &Vec<String>) -> (command: CliCommand)
    ensures
        command == cli_command_spec(texts(args@)),
{
    if contains_flag(args, "--help") || contains_flag(args, "-h") {
        CliCommand::Help
    } else if contains_flag(args, "--version") || contains_flag(args, "-v") {
        CliCommand::Version
    } else {
        CliCommand::Run { safe: contains_flag(args, "--safe") }
    }
}

/// The help text.
pub open spec fn help_text_spec() -> Seq<char> {
    "sabi - AI-powered terminal assistant\n\nUsage: sabi [OPTIONS]\n\nOptions:\n  --safe           Safe mode: show commands but don't execute\n  --version, -v    Show version\n  --help, -h       Show this help message\n"@
}

/// The help text.
pub fn help_text() -> (text: &'static str)
    ensures
        text@ == help_text_spec(),
{
    "sabi - AI-powered terminal assistant\n\nUsage: sabi [OPTIONS]\n\nOptions:\n  --safe           Safe mode: show commands but don't execute\n  --version, -v    Show version\n  --help, -h       Show this help message\n"
}

/// The line that tells the version.
pub fn version_text(version: &str) -> (text: String)
    ensures
        text@ == "sabi "@ + version@,
{
    let mut text = String::from_str("sabi ");
    text.append(version);
    text
}

} // verus!
