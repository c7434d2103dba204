//! The `run` subcommand: the target alone against the target with its drafter.

use vstd::prelude::*;
use vstd::string::*;

use crate::cli::args;
use crate::cli::args::{free_request, positional, request};
use crate::cli::number;
use crate::cli::number::{parse_number, NumberError};
use crate::text;
use crate::text::{chars_of, join, join3, trimmed};

verus! {

/// How the subcommand is used.
pub const USAGE: &'static str = "\
run <TARGET> <MTP> [STEPS] [PROMPT_CSV]
   or: run --target <TARGET> --mtp <MTP> [--steps N] [--prompt CSV]

Run the native target-only vs MTP block-3 benchmark and print a single-line
JSON report. <TARGET>/<MTP> are snapshot directories or Hugging Face ids.

options:
  --steps N            generated tokens (default 64)
  --prompt CSV         comma-separated prompt token ids (default 2005)
  --help               print this help";

/// What the benchmark is to do.
#[derive(Debug)]
pub struct RunConfig {
    pub target: String,
    pub mtp: String,
    pub steps: usize,
    pub prompt: Vec<u32>,
}

/// What the benchmark is to do, as a value.
pub struct RunView {
    pub target: Seq<char>,
    pub mtp: Seq<char>,
    pub steps: int,
    pub prompt: Seq<u32>,
}

impl View for RunConfig {
    type V = RunView;

    open spec fn view(&self) -> RunView {
        RunView {
            target: self.target@,
            mtp: self.mtp@,
            steps: self.steps as int,
            prompt: self.prompt@,
        }
    }
}

// ---------------------------------------------------------------------------
// Prompts
// ---------------------------------------------------------------------------

/// The parts of a text between its commas.
pub open spec fn split_commas(s: Seq<char>) -> Seq<Seq<char>>
    decreases s.len(),
{
    if s.len() == 0 {
        seq![Seq::empty()]
    } else {
        let parts = split_commas(s.drop_last());
        if s.last() == ',' {
            parts.push(Seq::empty())
        } else {
            parts.drop_last().push(parts.last().push(s.last()))
        }
    }
}

/// What is said of a part that is no token.
pub open spec fn bad_token(part: Seq<char>, error: NumberError) -> Seq<char> {
    "invalid prompt token '"@ + part + "': "@ + number::complaint(error)
}

/// The tokens that some parts stand for, without the empty ones; or what is wrong with the
/// first that stands for none.
pub open spec fn tokens_in(parts: Seq<Seq<char>>) -> Result<Seq<u32>, Seq<char>>
    decreases parts.len(),
{
    if parts.len() == 0 {
        Ok(Seq::empty())
    } else {
        let part = parts.last();
        match tokens_in(parts.drop_last()) {
            Err(message) => Err(message),
            Ok(tokens) => if part.len() == 0 {
                Ok(tokens)
            } else {
                match number::number(text::trim(part), u32::MAX as nat) {
                    Ok(n) => Ok(tokens.push(n as u32)),
                    Err(error) => Err(bad_token(part, error)),
                }
            },
        }
    }
}

/// The parts of a text between its commas.
fn split_at_commas(s: &str) -> (parts: Vec<String>)
    ensures
        text::texts(parts@) == split_commas(s@),
{
    let chars = chars_of(s);
    let mut parts: Vec<String> = Vec::new();
    let mut part = String::new();
    let mut i: usize = 0;
    assert(s@.take(0) =~= Seq::empty());
    assert(split_commas(s@.take(0)) =~= text::texts(parts@).push(part@));
    while i < chars.len()
        invariant
            i <= chars@.len(),
            chars@ == s@,
            split_commas(s@.take(i as int)) == text::texts(parts@).push(part@),
        decreases chars@.len() - i,
    {
        let ghost so_far = s@.take(i as int);
        let ghost next = s@.take(i + 1);
        let ghost done = text::texts(parts@);
        let ghost open = part@;
        assert(next.drop_last() =~= so_far);
        let c: char = chars[i];
        assert(next.last() == c);
        assert(done.push(open).drop_last() =~= done);
        if c == ',' {
            parts.push(part);
            part = String::new();
            assert(text::texts(parts@) =~= done.push(open));
            assert(part@ =~= Seq::empty());
        } else {
            part.push(c);
            assert(part@ == open.push(c));
        }
        i += 1;
        assert(split_commas(s@.take(i as int)) =~= text::texts(parts@).push(part@));
    }
    assert(s@.take(i as int) =~= s@);
    let ghost done = text::texts(parts@);
    let ghost last = part@;
    parts.push(part);
    assert(text::texts(parts@) =~= done.push(last));
    parts
}

/// What is wrong with some of the first parts is wrong with all.
proof fn faults_stay(parts: Seq<Seq<char>>, n: int)
    requires
        0 <= n <= parts.len(),
        tokens_in(parts.take(n)) is Err,
    ensures
        tokens_in(parts) == tokens_in(parts.take(n)),
    decreases parts.len() - n,
{
    if n < parts.len() {
        assert(parts.take(n + 1).drop_last() =~= parts.take(n));
        faults_stay(parts, n + 1);
    } else {
        assert(parts.take(n) =~= parts);
    }
}

/// The tokens of a prompt that is given as numbers between commas.
pub fn parse_prompt_tokens(csv: &str) -> (tokens: Result<Vec<u32>, String>)
    ensures
        match (tokens, tokens_in(split_commas(csv@))) {
            (Ok(tokens), Ok(expected)) => tokens@ == expected,
            (Err(message), Err(expected)) => message@ == expected,
            _ => false,
        },
{
    let parts = split_at_commas(csv);
    let ghost all = text::texts(parts@);
    let mut tokens: Vec<u32> = Vec::new();
    let mut i: usize = 0;
    assert(all.take(0) =~= Seq::empty());
    while i < parts.len()
        invariant
            i <= parts@.len(),
            all == text::texts(parts@),
            all == split_commas(csv@),
            tokens_in(all.take(i as int)) == Ok::<Seq<u32>, Seq<char>>(tokens@),
        decreases parts@.len() - i,
    {
        let ghost next = all.take(i + 1);
        let ghost part = parts@[i as int]@;
        proof {
            assert(next.drop_last() =~= all.take(i as int));
            assert(next.last() == part);
            if tokens_in(next) is Err {
                faults_stay(all, i + 1);
            }
        }
        if !parts[i].as_str().is_empty() {
            let inner = trimmed(parts[i].as_str());
            match parse_number(inner.as_str(), u32::MAX as u64) {
                Ok(n) => {
                    tokens.push(n as u32);
                },
                Err(error) => {
                    let mut message = join3("invalid prompt token '", parts[i].as_str(), "': ");
                    message.append(error.message());
                    return Err(message);
                },
            }
        }
        i += 1;
    }
    assert(all.take(i as int) =~= all);
    Ok(tokens)
}

// ---------------------------------------------------------------------------
// The configuration
// ---------------------------------------------------------------------------

/// An argument that has to be there, or else what is said of its absence.
pub open spec fn required(
    args: Seq<Seq<char>>,
    name: Seq<char>,
    index: int,
    missing: Seq<char>,
) -> Result<Seq<char>, Seq<char>> {
    match args::request_of(args, name, args::positionals(args), index) {
        Err(message) => Err(message),
        Ok(Some(value)) => Ok(value),
        Ok(None) => Err(missing),
    }
}

/// How many tokens are to be generated.
pub open spec fn steps_of(args: Seq<Seq<char>>) -> Result<int, Seq<char>> {
    match args::free_request_of(args, "steps"@, 2) {
        Err(message) => Err(message),
        Ok(None) => Ok(64),
        Ok(Some(text)) => match number::number(text, usize::MAX as nat) {
            Err(error) => Err("invalid STEPS: "@ + number::complaint(error)),
            Ok(n) => if n == 0 {
                Err("STEPS must be greater than zero"@)
            } else {
                Ok(n as int)
            },
        },
    }
}

/// The prompt.
pub open spec fn prompt_of(args: Seq<Seq<char>>) -> Result<Seq<u32>, Seq<char>> {
    match args::free_request_of(args, "prompt"@, 3) {
        Err(message) => Err(message),
        Ok(None) => Ok(seq![2005u32]),
        Ok(Some(csv)) => match tokens_in(split_commas(csv)) {
            Err(message) => Err(message),
            Ok(tokens) => if tokens.len() == 0 {
                Err("PROMPT_CSV must be non-empty"@)
            } else {
                Ok(tokens)
            },
        },
    }
}

/// What is said where there is no target, or no drafter.
pub open spec fn no_target() -> Seq<char> {
    "missing TARGET argument (path or Hugging Face id)"@
}

pub open spec fn no_mtp() -> Seq<char> {
    "missing MTP argument (path or Hugging Face id)"@
}

/// What the arguments ask for; or what is wrong with the first of them with which something
/// is.
pub open spec fn config_of(args: Seq<Seq<char>>) -> Result<RunView, Seq<char>> {
    match (
        required(args, "target"@, 0, no_target()),
        required(args, "mtp"@, 1, no_mtp()),
        steps_of(args),
        prompt_of(args),
    ) {
        (Err(message), _, _, _) => Err(message),
        (_, Err(message), _, _) => Err(message),
        (_, _, Err(message), _) => Err(message),
        (_, _, _, Err(message)) => Err(message),
        (Ok(target), Ok(mtp), Ok(steps), Ok(prompt)) => Ok(
            RunView { target, mtp, steps, prompt },
        ),
    }
}

/// An argument that has to be there.
pub(crate) fn required_arg(
    args: &[String],
    name: &str,
    positionals: &[String],
    index: usize,
    missing: &str,
) -> (found: Result<String, String>)
    requires
        text::texts(positionals@) == args::positionals(text::texts(args@)),
    ensures
        match (found, required(text::texts(args@), name@, index as int, missing@)) {
            (Ok(found), Ok(expected)) => found@ == expected,
            (Err(message), Err(expected)) => message@ == expected,
            _ => false,
        },
{
    match request(args, name, positionals, index) {
        Err(message) => Err(message),
        Ok(Some(value)) => Ok(value),
        Ok(None) => Err(missing.to_owned()),
    }
}

/// How many tokens are to be generated.
fn steps_from(args: &[String]) -> (steps: Result<usize, String>)
    ensures
        match (steps, steps_of(text::texts(args@))) {
            (Ok(steps), Ok(expected)) => steps == expected,
            (Err(message), Err(expected)) => message@ == expected,
            _ => false,
        },
{
    match free_request(args, "steps", 2) {
        Err(message) => Err(message),
        Ok(None) => Ok(64),
        Ok(Some(text)) => match parse_number(text.as_str(), usize::MAX as u64) {
            Err(error) => Err(join("invalid STEPS: ", error.message())),
            Ok(n) => if n == 0 {
                Err("STEPS must be greater than zero".to_owned())
            } else {
                Ok(n as usize)
            },
        },
    }
}

/// The prompt.
fn prompt_from(args: &[String]) -> (prompt: Result<Vec<u32>, String>)
    ensures
        match (prompt, prompt_of(text::texts(args@))) {
            (Ok(prompt), Ok(expected)) => prompt@ == expected,
            (Err(message), Err(expected)) => message@ == expected,
            _ => false,
        },
{
    match free_request(args, "prompt", 3) {
        Err(message) => Err(message),
        Ok(None) => {
            let prompt: Vec<u32> = vec![2005];
            assert(prompt@ =~= seq![2005u32]);
            Ok(prompt)
        },
        Ok(Some(csv)) => match parse_prompt_tokens(csv.as_str()) {
            Err(message) => Err(message),
            Ok(tokens) => if tokens.len() == 0 {
                Err("PROMPT_CSV must be non-empty".to_owned())
            } else {
                Ok(tokens)
            },
        },
    }
}

/// What the arguments ask for.
pub fn run_config(args: &[String]) -> (config: Result<RunConfig, String>)
    ensures
        match (config, config_of(text::texts(args@))) {
            (Ok(config), Ok(expected)) => config@ == expected,
            (Err(message), Err(expected)) => message@ == expected,
            _ => false,
        },
{
    let positionals = positional(args);
    let target = match required_arg(
        args,
        "target",
        &positionals,
        0,
        "missing TARGET argument (path or Hugging Face id)",
    ) {
        Ok(target) => target,
        Err(message) => {
            return Err(message);
        },
    };
    let mtp = match required_arg(
        args,
        "mtp",
        &positionals,
        1,
        "missing MTP argument (path or Hugging Face id)",
    ) {
        Ok(mtp) => mtp,
        Err(message) => {
            return Err(message);
        },
    };
    let steps: usize = match steps_from(args) {
        Ok(steps) => steps,
        Err(message) => {
            return Err(message);
        },
    };
    let prompt = match prompt_from(args) {
        Ok(prompt) => prompt,
        Err(message) => {
            return Err(message);
        },
    };
    Ok(RunConfig { target, mtp, steps, prompt })
}

/// The capacity that the caches need: the prompt, the tokens that are generated, and the
/// three rows of a batch that is being verified. `None` where no number is so large.
pub fn capacity_for(prompt: usize, steps: usize) -> (capacity: Option<usize>)
    ensures
        match capacity {
            Some(capacity) => capacity == prompt + steps + 3,
            None => prompt + steps + 3 > usize::MAX,
        },
{
    match prompt.checked_add(steps) {
        Some(sum) => sum.checked_add(3),
        None => None,
    }
}

// ---------------------------------------------------------------------------
// The comparison
// ---------------------------------------------------------------------------

/// Where two generations first differ: the first place with different tokens, or else the
/// end of the shorter one. `None` where they are the same.
pub fn first_difference(left: &[u32], right: &[u32]) -> (at: Option<usize>)
    ensures
        match at {
            None => left@ == right@,
            Some(at) => {
                &&& left@ != right@
                &&& at <= left@.len()
                &&& at <= right@.len()
                &&& left@.take(at as int) == right@.take(at as int)
                &&& at < left@.len() && at < right@.len() ==> left@[at as int] != right@[at as int]
            },
        },
{
    let mut i: usize = 0;
    while i < left.len() && i < right.len()
        invariant
            i <= left@.len(),
            i <= right@.len(),
            left@.take(i as int) == right@.take(i as int),
        decreases left@.len() - i,
    {
        if left[i] != right[i] {
            return Some(i);
        }
        assert(left@.take(i + 1) =~= left@.take(i as int).push(left@[i as int]));
        assert(right@.take(i + 1) =~= right@.take(i as int).push(right@[i as int]));
        i += 1;
    }
    if left.len() == right.len() {
        assert(left@ =~= left@.take(i as int));
        assert(right@ =~= right@.take(i as int));
        None
    } else {
        Some(i)
    }
}

// ---------------------------------------------------------------------------
// Laws
// ---------------------------------------------------------------------------

/// Tokens as numbers between commas.
pub open spec fn csv(tokens: Seq<u32>) -> Seq<char>
    decreases tokens.len(),
{
    if tokens.len() == 0 {
        Seq::empty()
    } else if tokens.len() == 1 {
        text::decimal(tokens[0] as nat)
    } else {
        csv(tokens.drop_last()).push(',') + text::decimal(tokens.last() as nat)
    }
}

/// A number is written in digits.
proof fn decimals_are_digits(n: nat)
    ensures
        text::decimal(n).len() > 0,
        forall|i: int|
            0 <= i < text::decimal(n).len() ==> '0' <= #[trigger] text::decimal(n)[i] <= '9',
    decreases n,
{
    if n >= 10 {
        decimals_are_digits(n / 10);
    }
}

/// A part without commas is one part.
proof fn last_part(front: Seq<char>, part: Seq<char>)
    requires
        forall|i: int| 0 <= i < part.len() ==> #[trigger] part[i] != ',',
    ensures
        split_commas(front.push(',') + part) == split_commas(front).push(part),
        split_commas(part) == seq![part],
    decreases part.len(),
{
    let whole = front.push(',') + part;
    if part.len() == 0 {
        assert(whole =~= front.push(','));
        assert(whole.drop_last() =~= front);
        assert(part =~= Seq::empty());
    } else {
        let less = part.drop_last();
        last_part(front, less);
        assert(whole.drop_last() =~= front.push(',') + less);
        assert(whole.last() == part.last());
        assert(less.push(part.last()) =~= part);
        let parts = split_commas(front).push(less);
        assert(parts.drop_last() =~= split_commas(front));
        assert(seq![less].drop_last() =~= Seq::empty());
        assert(Seq::<Seq<char>>::empty().push(part) =~= seq![part]);
    }
}

/// A number has nothing to be trimmed off.
proof fn decimals_are_trimmed(n: nat)
    ensures
        text::trim(text::decimal(n)) == text::decimal(n),
{
    decimals_are_digits(n);
    let digits = text::decimal(n);
    assert('0' <= digits[0] <= '9');
    assert('0' <= digits.last() <= '9');
}

/// The tokens of a prompt are read back from their numbers, all of them and in order.
pub proof fn prompt_tokens_are_read_back(tokens: Seq<u32>)
    ensures
        tokens_in(split_commas(csv(tokens))) == Ok::<Seq<u32>, Seq<char>>(tokens),
    decreases tokens.len(),
{
    reveal_with_fuel(tokens_in, 2);
    if tokens.len() == 0 {
        assert(seq![Seq::<char>::empty()].drop_last() =~= Seq::empty());
        assert(tokens =~= Seq::empty());
    } else {
        let n = tokens.last() as nat;
        let part = text::decimal(n);
        decimals_are_digits(n);
        decimals_are_trimmed(n);
        number::numbers_survive_decimal(n, u32::MAX as nat);
        last_part(csv(tokens.drop_last()), part);
        assert(tokens.drop_last().push(tokens.last()) =~= tokens);
        if tokens.len() == 1 {
            assert(seq![part].drop_last() =~= Seq::empty());
            assert(tokens.drop_last() =~= Seq::empty());
        } else {
            let front = split_commas(csv(tokens.drop_last()));
            prompt_tokens_are_read_back(tokens.drop_last());
            assert(front.push(part).drop_last() =~= front);
        }
    }
}

} // verus!
