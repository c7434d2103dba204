//! Which subcommand is asked for.

use vstd::prelude::*;
use vstd::string::*;

use crate::cli::run;
use crate::cli::serve;
use crate::text;
use crate::text::{join3, quoted, same_text};

verus! {

/// What the program is to do.
#[derive(Debug)]
pub enum Command {
    /// Run the server, with the arguments behind the subcommand.
    Serve,
    /// Run the benchmark, with the arguments behind the subcommand.
    Run,
    /// Print a text, and succeed.
    Print(String),
    /// Print a text as an error, and fail.
    Fail(String),
}

/// What the program is to do, as a value.
pub enum CommandView {
    Serve,
    Run,
    Print(Seq<char>),
    Fail(Seq<char>),
}

impl View for Command {
    type V = CommandView;

    open spec fn view(&self) -> CommandView {
        match self {
            Command::Serve => CommandView::Serve,
            Command::Run => CommandView::Run,
            Command::Print(text) => CommandView::Print(text@),
            Command::Fail(text) => CommandView::Fail(text@),
        }
    }
}

/// Whether an argument asks for help.
pub open spec fn is_help(arg: Seq<char>) -> bool {
    arg == "--help"@ || arg == "-h"@
}

/// How the program is used.
pub open spec fn usage(program: Seq<char>) -> Seq<char> {
    "usage: "@ + program + " <serve|run> [options]\n\n"@ + serve::USAGE@
}

/// What is said of a subcommand that there is not.
pub open spec fn unknown(program: Seq<char>, subcommand: Seq<char>) -> Seq<char> {
    program + ": unknown subcommand "@ + text::debug_text(subcommand)
        + " (expected 'serve' or 'run')"@
}

/// What the arguments behind the program's name ask for. The server is run where they say
/// nothing.
pub open spec fn command_of(program: Seq<char>, args: Seq<Seq<char>>) -> CommandView {
    let subcommand = if args.len() > 0 {
        args[0]
    } else {
        "serve"@
    };
    let helped = args.len() > 1 && is_help(args[1]);
    if subcommand == "serve"@ {
        if helped {
            CommandView::Print(serve::USAGE@)
        } else {
            CommandView::Serve
        }
    } else if subcommand == "run"@ {
        if helped {
            CommandView::Print(run::USAGE@)
        } else {
            CommandView::Run
        }
    } else if subcommand == "help"@ || is_help(subcommand) {
        CommandView::Print(usage(program))
    } else {
        CommandView::Fail(unknown(program, subcommand))
    }
}

/// Whether an argument asks for help.
fn asks_for_help(arg: &str) -> (answer: bool)
    ensures
        answer == is_help(arg@),
{
    same_text(arg, "--help") || same_text(arg, "-h")
}

/// What the arguments behind the program's name ask for.
pub fn command_from(program: &str, args: &[String]) -> (command: Command)
    ensures
        command@ == command_of(program@, text::texts(args@)),
{
    let subcommand: &str = if args.len() > 0 {
        args[0].as_str()
    } else {
        "serve"
    };
    let helped = args.len() > 1 && asks_for_help(args[1].as_str());
    if same_text(subcommand, "serve") {
        if helped {
            Command::Print(serve::USAGE.to_owned())
        } else {
            Command::Serve
        }
    } else if same_text(subcommand, "run") {
        if helped {
            Command::Print(run::USAGE.to_owned())
        } else {
            Command::Run
        }
    } else if same_text(subcommand, "help") || asks_for_help(subcommand) {
        let mut usage = join3("usage: ", program, " <serve|run> [options]\n\n");
        usage.append(serve::USAGE);
        Command::Print(usage)
    } else {
        let mut message = join3(program, ": unknown subcommand ", quoted(subcommand).as_str());
        message.append(" (expected 'serve' or 'run')");
        Command::Fail(message)
    }
}

} // verus!
