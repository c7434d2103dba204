//! The `serve` subcommand: the server.

use vstd::prelude::*;
use vstd::string::*;

use crate::cli::args;
use crate::cli::args::{free_request, has_flag, positional, value};
use crate::cli::number;
use crate::cli::number::parse_number;
use crate::cli::run;
use crate::cli::run::required_arg;
use crate::text;
use crate::text::join;

verus! {

/// How the subcommand is used.
pub const USAGE: &'static str = "\
serve <TARGET> [MTP] [options]
   or: serve --target <TARGET> [--mtp <MTP>] [options]

Run the OpenAI-compatible HTTP server. <TARGET>/<MTP> are snapshot
directories or Hugging Face model ids resolved from the local HF cache.

options:
  --port PORT          listen port (default 8000)
  --capacity N         KV/state capacity (default 32768)
  --model-id ID        model id advertised by GET /v1/models (default qwen3.8-27b)
  --no-ui              run without the terminal dashboard
  --help               print this help";

/// How the server is to be run. Without a drafter the target generates alone.
#[derive(Debug)]
pub struct ServeConfig {
    pub target: String,
    pub mtp: Option<String>,
    pub port: u16,
    pub capacity: usize,
    pub model_id: String,
    pub ui: bool,
}

/// How the server is to be run, as a value.
pub struct ServeView {
    pub target: Seq<char>,
    pub mtp: Option<Seq<char>>,
    pub port: int,
    pub capacity: int,
    pub model_id: Seq<char>,
    pub ui: bool,
}

impl View for ServeConfig {
    type V = ServeView;

    open spec fn view(&self) -> ServeView {
        ServeView {
            target: self.target@,
            mtp: text::seen(self.mtp),
            port: self.port as int,
            capacity: self.capacity as int,
            model_id: self.model_id@,
            ui: self.ui,
        }
    }
}

/// A number by its name, or else `default`.
pub open spec fn number_of(
    args: Seq<Seq<char>>,
    name: Seq<char>,
    default: int,
    max: nat,
    complaint: Seq<char>,
) -> Result<int, Seq<char>> {
    match args::value_of(args, name) {
        Err(message) => Err(message),
        Ok(None) => Ok(default),
        Ok(Some(text)) => match number::number(text, max) {
            Err(error) => Err(complaint + number::complaint(error)),
            Ok(n) => Ok(n as int),
        },
    }
}

/// The name under which the model is served.
pub open spec fn model_id_of(args: Seq<Seq<char>>) -> Result<Seq<char>, Seq<char>> {
    match args::value_of(args, "model-id"@) {
        Err(message) => Err(message),
        Ok(None) => Ok("qwen3.8-27b"@),
        Ok(Some(id)) => Ok(id),
    }
}

/// Whether the dashboard is wanted.
pub open spec fn ui_of(args: Seq<Seq<char>>) -> bool {
    !exists|i: int| 0 <= i < args.len() && args::names(#[trigger] args[i], "no-ui"@)
}

/// How the arguments say that the server is to be run; or what is wrong with the first of
/// them with which something is.
pub open spec fn config_of(args: Seq<Seq<char>>) -> Result<ServeView, Seq<char>> {
    match (
        run::required(args, "target"@, 0, run::no_target()),
        args::free_request_of(args, "mtp"@, 1),
        number_of(args, "port"@, 8000, u16::MAX as nat, "invalid --port: "@),
        number_of(args, "capacity"@, 32768, usize::MAX as nat, "invalid --capacity: "@),
        model_id_of(args),
    ) {
        (Err(message), _, _, _, _) => Err(message),
        (_, Err(message), _, _, _) => Err(message),
        (_, _, Err(message), _, _) => Err(message),
        (_, _, _, Err(message), _) => Err(message),
        (_, _, _, _, Err(message)) => Err(message),
        (Ok(target), Ok(mtp), Ok(port), Ok(capacity), Ok(model_id)) => Ok(
            ServeView { target, mtp, port, capacity, model_id, ui: ui_of(args) },
        ),
    }
}

/// A number by its name, or else `default`.
fn number_from(args: &[String], name: &str, default: u64, max: u64, complaint: &str) -> (found:
    Result<u64, String>)
    requires
        default <= max,
    ensures
        match (
            found,
            number_of(text::texts(args@), name@, default as int, max as nat, complaint@),
        ) {
            (Ok(found), Ok(expected)) => found == expected && found <= max,
            (Err(message), Err(expected)) => message@ == expected,
            _ => false,
        },
{
    match value(args, name) {
        Err(message) => Err(message),
        Ok(None) => Ok(default),
        Ok(Some(text)) => match parse_number(text.as_str(), max) {
            Err(error) => Err(join(complaint, error.message())),
            Ok(n) => Ok(n),
        },
    }
}

/// How the arguments say that the server is to be run.
pub fn parse_args(args: &[String]) -> (config: Result<ServeConfig, String>)
    ensures
        match (config, config_of(text::texts(args@))) {
            (Ok(config), Ok(expected)) => config@ == expected,
            (Err(message), Err(expected)) => message@ == expected,
            _ => false,
        },
{
    let positionals = positional(args);
    let target = match required_arg(
        args,
        "target",
        &positionals,
        0,
        "missing TARGET argument (path or Hugging Face id)",
    ) {
        Ok(target) => target,
        Err(message) => {
            return Err(message);
        },
    };
    let mtp = match free_request(args, "mtp", 1) {
        Ok(mtp) => mtp,
        Err(message) => {
            return Err(message);
        },
    };
    let port: u64 = match number_from(args, "port", 8000, u16::MAX as u64, "invalid --port: ") {
        Ok(port) => port,
        Err(message) => {
            return Err(message);
        },
    };
    let capacity: u64 = match number_from(
        args,
        "capacity",
        32768,
        usize::MAX as u64,
        "invalid --capacity: ",
    ) {
        Ok(capacity) => capacity,
        Err(message) => {
            return Err(message);
        },
    };
    let model_id = match value(args, "model-id") {
        Ok(Some(id)) => id,
        Ok(None) => "qwen3.8-27b".to_owned(),
        Err(message) => {
            return Err(message);
        },
    };
    let ui = !has_flag(args, "no-ui");
    proof {
        let all = text::texts(args@);
        assert forall|i: int| 0 <= i < all.len() implies #[trigger] all[i] == args@[i]@ by {
        }
        if exists|i: int| 0 <= i < args@.len() && args::names(#[trigger] args@[i]@, "no-ui"@) {
            let i = choose|i: int|
                0 <= i < args@.len() && args::names(#[trigger] args@[i]@, "no-ui"@);
            assert(args::names(all[i], "no-ui"@));
        }
    }
    Ok(
        ServeConfig {
            target,
            mtp,
            port: port as u16,
            capacity: capacity as usize,
            model_id,
            ui,
        },
    )
}

/// Whether the dashboard is shown: where it is wanted, and someone is there to see it.
pub fn wants_ui(ui: bool, stdin_is_terminal: bool, stdout_is_terminal: bool) -> (answer: bool)
    ensures
        answer == (ui && stdin_is_terminal && stdout_is_terminal),
{
    ui && stdin_is_terminal && stdout_is_terminal
}

} // verus!
