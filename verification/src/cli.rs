//! What the command line asks for. Printing and exiting are the program's; this decides.

use vstd::prelude::*;

use crate::chars::str_eq;
use crate::text::{help, help_text, unknown_option, Lang};

verus! {

/// A second instance found the first one already running and stood down.
pub const EXIT_ALREADY_RUNNING: i32 = 3;
/// The command line could not be understood.
pub const EXIT_USAGE: i32 = 2;

/// What the command line asked for, when the answer is to run.
#[derive(PartialEq, Eq, Clone, Copy, Debug, Structural)]
pub struct Args {
    /// Fire one notification at startup, to check that the notification path works.
    pub test_toast: bool,
}

impl Default for Args {
    fn default() -> (a: Self)
        ensures
            a == (Args { test_toast: false }),
    {
        Args { test_toast: false }
    }
}

/// What to do about the command line. Anything but `Run` prints and exits.
#[derive(PartialEq, Eq, Clone, Debug)]
pub enum Command {
    Run(Args),
    /// Print the help and exit with 0.
    Help,
    /// Print the version and exit with 0.
    Version,
    /// Print that the option is unknown, then the help, and exit with `EXIT_USAGE`.
    Unknown(String),
}

/// The spec form of a command, with the unknown option as its characters.
pub enum CommandSpec {
    Run(Args),
    Help,
    Version,
    Unknown(Seq<char>),
}

pub open spec fn command_view(c: Command) -> CommandSpec {
    match c {
        Command::Run(a) => CommandSpec::Run(a),
        Command::Help => CommandSpec::Help,
        Command::Version => CommandSpec::Version,
        Command::Unknown(s) => CommandSpec::Unknown(s@),
    }
}

/// The arguments from position `i` on, with `acc` gathered so far: the first option that
/// only prints decides, as does the first one not understood.
pub open spec fn parse_args_from(args: Seq<Seq<char>>, i: int, acc: Args) -> CommandSpec
    decreases args.len() - i,
{
    if i < 0 || i >= args.len() {
        CommandSpec::Run(acc)
    } else {
        let a = args[i];
        if a == "-h"@ || a == "--help"@ {
            CommandSpec::Help
        } else if a == "-V"@ || a == "--version"@ {
            CommandSpec::Version
        } else if a == "--test-toast"@ {
            parse_args_from(args, i + 1, Args { test_toast: true })
        } else {
            CommandSpec::Unknown(a)
        }
    }
}

/// Reads the arguments after the program name.
pub fn parse_args(args: &[String]) -> (c: Command)
    ensures
        command_view(c) == parse_args_from(args@.map_values(|s: String| s@), 0, Args { test_toast: false }),
{
    let ghost views = args@.map_values(|s: String| s@);
    let mut acc = Args::default();
    let mut i: usize = 0;
    while i < args.len()
        invariant
            views == args@.map_values(|s: String| s@),
            i <= args@.len(),
            parse_args_from(views, 0, Args { test_toast: false }) == parse_args_from(views, i as int, acc),
        decreases args@.len() - i,
    {
        let a = args[i].as_str();
        assert(views[i as int] == a@);
        if str_eq(a, "-h") || str_eq(a, "--help") {
            return Command::Help;
        }
        if str_eq(a, "-V") || str_eq(a, "--version") {
            return Command::Version;
        }
        if str_eq(a, "--test-toast") {
            acc = Args { test_toast: true };
        } else {
            return Command::Unknown(args[i].clone());
        }
        i = i + 1;
    }
    Command::Run(acc)
}

/// What an unknown option prints: the complaint, a blank line, then the help.
pub fn usage_error(lang: Lang, option: &str) -> (s: String)
    ensures
        s@ == match lang {
            Lang::Ja => "不明なオプション: "@ + option@,
            Lang::En => "unknown option: "@ + option@,
        } + "\n\n"@ + help_text(lang),
{
    let mut s = unknown_option(lang, option);
    s.append("\n\n");
    s.append(help(lang));
    s
}

/// What one argument asks for on its own, when it is not `--test-toast`.
pub open spec fn alone(a: Seq<char>) -> CommandSpec {
    if a == "-h"@ || a == "--help"@ {
        CommandSpec::Help
    } else if a == "-V"@ || a == "--version"@ {
        CommandSpec::Version
    } else {
        CommandSpec::Unknown(a)
    }
}

proof fn lemma_parse_from_outcome(args: Seq<Seq<char>>, i: int, acc: Args)
    requires
        0 <= i <= args.len(),
    ensures
        (forall|j: int| i <= j < args.len() ==> #[trigger] args[j] == "--test-toast"@) ==> parse_args_from(
            args,
            i,
            acc,
        ) == CommandSpec::Run(Args { test_toast: acc.test_toast || i < args.len() }),
        forall|k: int|
            i <= k < args.len() && #[trigger] args[k] != "--test-toast"@ && (forall|j: int|
                i <= j < k ==> #[trigger] args[j] == "--test-toast"@) ==> parse_args_from(args, i, acc) == alone(
                args[k],
            ),
    decreases args.len() - i,
{
    reveal_strlit("--test-toast");
    reveal_strlit("-h");
    reveal_strlit("--help");
    reveal_strlit("-V");
    reveal_strlit("--version");
    if i < args.len() {
        lemma_parse_from_outcome(args, i + 1, Args { test_toast: true });
        if args[i] == "--test-toast"@ {
            assert("--test-toast"@.len() == 12 && "-h"@.len() == 2 && "--help"@.len() == 6);
            assert("-V"@.len() == 2 && "--version"@.len() == 9);
            assert forall|k: int|
                i <= k < args.len() && #[trigger] args[k] != "--test-toast"@ && (forall|j: int|
                    i <= j < k ==> #[trigger] args[j] == "--test-toast"@) implies parse_args_from(args, i, acc)
                == alone(args[k]) by {
                assert(k != i);
                assert(forall|j: int| i + 1 <= j < k ==> #[trigger] args[j] == "--test-toast"@);
            }
        } else {
            assert forall|k: int|
                i <= k < args.len() && #[trigger] args[k] != "--test-toast"@ && (forall|j: int|
                    i <= j < k ==> #[trigger] args[j] == "--test-toast"@) implies parse_args_from(args, i, acc)
                == alone(args[k]) by {
                if k > i {
                    assert(args[i] == "--test-toast"@);
                }
            }
        }
    }
}

/// The command line is read left to right: `--test-toast` only adds to the run, and the
/// first argument that is anything else decides alone: help for `-h` or `--help`, the
/// version for `-V` or `--version`, and a complaint naming it otherwise. With nothing but
/// `--test-toast`, the program runs, firing the test notification exactly when the option
/// was given.
pub proof fn lemma_first_other_argument_decides(args: Seq<Seq<char>>)
    ensures
        (forall|j: int| 0 <= j < args.len() ==> #[trigger] args[j] == "--test-toast"@) ==> parse_args_from(
            args,
            0,
            Args { test_toast: false },
        ) == CommandSpec::Run(Args { test_toast: args.len() > 0 }),
        forall|k: int|
            0 <= k < args.len() && #[trigger] args[k] != "--test-toast"@ && (forall|j: int|
                0 <= j < k ==> #[trigger] args[j] == "--test-toast"@) ==> parse_args_from(
                args,
                0,
                Args { test_toast: false },
            ) == alone(args[k]),
{
    lemma_parse_from_outcome(args, 0, Args { test_toast: false });
}

} // verus!
