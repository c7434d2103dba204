//! Named arguments, which the subcommands share: `--name value` or `--name=value`.

use vstd::prelude::*;
use vstd::string::*;

use crate::text;
use crate::text::{chars_of, join3, same_text, starts_with, string_of};

verus! {

/// `--name`.
pub open spec fn dashed(name: Seq<char>) -> Seq<char> {
    "--"@ + name
}

/// `--name=`.
pub open spec fn dashed_equals(name: Seq<char>) -> Seq<char> {
    "--"@ + name + "="@
}

/// The value of the first argument with a name: what comes behind `--name`, or behind the
/// equals sign of `--name=`. A name at the end, with no value behind it, is an error.
pub open spec fn value_of(args: Seq<Seq<char>>, name: Seq<char>) -> Result<
    Option<Seq<char>>,
    Seq<char>,
>
    decreases args.len(),
{
    if args.len() == 0 {
        Ok(None)
    } else if args[0] == dashed(name) {
        if args.len() > 1 {
            Ok(Some(args[1]))
        } else {
            Err(dashed(name) + " requires a value"@)
        }
    } else if dashed_equals(name).is_prefix_of(args[0]) {
        Ok(Some(args[0].skip(dashed_equals(name).len() as int)))
    } else {
        value_of(args.skip(1), name)
    }
}

/// Whether an argument is the flag with a name, with a value or not.
pub open spec fn names(arg: Seq<char>, name: Seq<char>) -> bool {
    arg == dashed(name) || dashed_equals(name).is_prefix_of(arg)
}

/// The first flag with a name: it is on, unless it says `false`.
pub open spec fn flag_of(args: Seq<Seq<char>>, name: Seq<char>) -> Option<bool>
    decreases args.len(),
{
    if args.len() == 0 {
        None
    } else if args[0] == dashed(name) {
        Some(true)
    } else if dashed_equals(name).is_prefix_of(args[0]) {
        Some(args[0].skip(dashed_equals(name).len() as int) != "false"@)
    } else {
        flag_of(args.skip(1), name)
    }
}

/// Whether an argument is an option: it begins with a dash.
pub open spec fn is_option(arg: Seq<char>) -> bool {
    arg.len() > 0 && arg[0] == '-'
}

/// The arguments that are no options, in order.
pub open spec fn positionals(args: Seq<Seq<char>>) -> Seq<Seq<char>>
    decreases args.len(),
{
    if args.len() == 0 {
        Seq::empty()
    } else if is_option(args.last()) {
        positionals(args.drop_last())
    } else {
        positionals(args.drop_last()).push(args.last())
    }
}

/// What stands at a place, if anything does.
pub open spec fn place(texts: Seq<Seq<char>>, index: int) -> Option<Seq<char>> {
    if 0 <= index < texts.len() {
        Some(texts[index])
    } else {
        None
    }
}

/// An argument by its name, or else by its place.
pub open spec fn request_of(
    args: Seq<Seq<char>>,
    name: Seq<char>,
    positionals: Seq<Seq<char>>,
    index: int,
) -> Result<Option<Seq<char>>, Seq<char>> {
    match value_of(args, name) {
        Err(message) => Err(message),
        Ok(Some(value)) => Ok(Some(value)),
        Ok(None) => Ok(place(positionals, index)),
    }
}

/// Whether an argument names an option whose value is the next argument.
pub open spec fn takes_value(arg: Seq<char>) -> bool {
    ||| arg == "--target"@
    ||| arg == "--mtp"@
    ||| arg == "--steps"@
    ||| arg == "--prompt"@
    ||| arg == "--port"@
    ||| arg == "--capacity"@
    ||| arg == "--model-id"@
}

/// Whether an argument is the value of the option in front of it.
pub open spec fn is_value(args: Seq<Seq<char>>, i: int) -> bool {
    0 < i < args.len() && takes_value(args[i - 1])
}

/// Where the argument stands that comes behind `index` others from `i` on, options not
/// counted; behind the last argument where there are not as many.
pub open spec fn place_from(args: Seq<Seq<char>>, i: int, index: int) -> int
    decreases args.len() - i,
{
    if i < 0 || i >= args.len() {
        args.len() as int
    } else if is_option(args[i]) {
        place_from(args, i + 1, index)
    } else if index <= 0 {
        i
    } else {
        place_from(args, i + 1, index - 1)
    }
}

/// What stands at a place among the arguments that are no options, unless it is the value of
/// an option.
pub open spec fn free_place(args: Seq<Seq<char>>, index: int) -> Option<Seq<char>> {
    let i = place_from(args, 0, index);
    if i < args.len() && !is_value(args, i) {
        Some(args[i])
    } else {
        None
    }
}

/// An argument by its name, or else by its place, where no option has it for its value.
pub open spec fn free_request_of(args: Seq<Seq<char>>, name: Seq<char>, index: int) -> Result<
    Option<Seq<char>>,
    Seq<char>,
> {
    match value_of(args, name) {
        Err(message) => Err(message),
        Ok(Some(value)) => Ok(Some(value)),
        Ok(None) => Ok(free_place(args, index)),
    }
}

/// What comes behind a prefix, if it is there.
fn behind(arg: &str, prefix: &str) -> (rest: Option<String>)
    ensures
        match rest {
            Some(rest) => prefix@.is_prefix_of(arg@) && rest@ == arg@.skip(prefix@.len() as int),
            None => !prefix@.is_prefix_of(arg@),
        },
{
    if !starts_with(arg, prefix) {
        return None;
    }
    let chars = chars_of(arg);
    let start = chars_of(prefix);
    Some(string_of(&chars, start.len(), chars.len()))
}

/// The value of a named argument.
pub fn value(args: &[String], name: &str) -> (value: Result<Option<String>, String>)
    ensures
        match (value, value_of(text::texts(args@), name@)) {
            (Ok(found), Ok(expected)) => text::seen(found) == expected,
            (Err(message), Err(expected)) => message@ == expected,
            _ => false,
        },
{
    let flag = join3("--", name, "");
    let flag_eq = join3("--", name, "=");
    proof {
        reveal_strlit("");
        assert(flag@ =~= dashed(name@));
    }
    let ghost all = text::texts(args@);
    let mut i: usize = 0;
    assert(all.skip(0) =~= all);
    while i < args.len()
        invariant
            i <= args@.len(),
            all == text::texts(args@),
            flag@ == dashed(name@),
            flag_eq@ == dashed_equals(name@),
            value_of(all.skip(i as int), name@) == value_of(all, name@),
        decreases args@.len() - i,
    {
        assert(all.skip(i as int).skip(1) =~= all.skip(i + 1));
        assert(all.skip(i as int)[0] == args@[i as int]@);
        if same_text(args[i].as_str(), flag.as_str()) {
            if i + 1 < args.len() {
                return Ok(Some(args[i + 1].clone()));
            }
            return Err(join3("--", name, " requires a value"));
        }
        if let Some(rest) = behind(args[i].as_str(), flag_eq.as_str()) {
            return Ok(Some(rest));
        }
        i += 1;
    }
    Ok(None)
}

/// Whether a flag is there, with a value or not. It takes no argument behind it.
pub fn has_flag(args: &[String], name: &str) -> (answer: bool)
    ensures
        answer == exists|i: int| 0 <= i < args@.len() && names(#[trigger] args@[i]@, name@),
{
    let flag = join3("--", name, "");
    let flag_eq = join3("--", name, "=");
    proof {
        reveal_strlit("");
        assert(flag@ =~= dashed(name@));
    }
    let mut i: usize = 0;
    while i < args.len()
        invariant
            i <= args@.len(),
            flag@ == dashed(name@),
            flag_eq@ == dashed_equals(name@),
            forall|k: int| 0 <= k < i ==> !names(#[trigger] args@[k]@, name@),
        decreases args@.len() - i,
    {
        if same_text(args[i].as_str(), flag.as_str()) || starts_with(
            args[i].as_str(),
            flag_eq.as_str(),
        ) {
            assert(names(args@[i as int]@, name@));
            return true;
        }
        i += 1;
    }
    false
}

/// A flag that may have a value: `None` where it is absent.
pub fn flag(args: &[String], name: &str) -> (on: Option<bool>)
    ensures
        on == flag_of(text::texts(args@), name@),
{
    let flag = join3("--", name, "");
    let flag_eq = join3("--", name, "=");
    proof {
        reveal_strlit("");
        assert(flag@ =~= dashed(name@));
    }
    let ghost all = text::texts(args@);
    let mut i: usize = 0;
    assert(all.skip(0) =~= all);
    while i < args.len()
        invariant
            i <= args@.len(),
            all == text::texts(args@),
            flag@ == dashed(name@),
            flag_eq@ == dashed_equals(name@),
            flag_of(all.skip(i as int), name@) == flag_of(all, name@),
        decreases args@.len() - i,
    {
        assert(all.skip(i as int).skip(1) =~= all.skip(i + 1));
        assert(all.skip(i as int)[0] == args@[i as int]@);
        if same_text(args[i].as_str(), flag.as_str()) {
            return Some(true);
        }
        if let Some(rest) = behind(args[i].as_str(), flag_eq.as_str()) {
            return Some(!same_text(rest.as_str(), "false"));
        }
        i += 1;
    }
    None
}

/// The arguments that are no options, in order.
pub fn positional(args: &[String]) -> (found: Vec<String>)
    ensures
        text::texts(found@) == positionals(text::texts(args@)),
{
    let ghost all = text::texts(args@);
    let mut found: Vec<String> = Vec::new();
    let mut i: usize = 0;
    assert(all.take(0) =~= Seq::empty());
    assert(text::texts(found@) =~= Seq::empty());
    while i < args.len()
        invariant
            i <= args@.len(),
            all == text::texts(args@),
            text::texts(found@) == positionals(all.take(i as int)),
        decreases args@.len() - i,
    {
        assert(all.take(i + 1).drop_last() =~= all.take(i as int));
        assert(all.take(i + 1).last() == args@[i as int]@);
        if !dashes(args[i].as_str()) {
            let ghost before = found@;
            found.push(args[i].clone());
            assert(text::texts(found@) =~= text::texts(before).push(args@[i as int]@));
        }
        i += 1;
    }
    assert(all.take(i as int) =~= all);
    found
}

/// What stands at a place, if anything does.
fn placed(positionals: &[String], index: usize) -> (found: Option<String>)
    ensures
        text::seen(found) == place(text::texts(positionals@), index as int),
{
    if index < positionals.len() {
        Some(positionals[index].clone())
    } else {
        None
    }
}

/// An argument by its name, or else by its place.
pub fn request(args: &[String], name: &str, positionals: &[String], index: usize) -> (found: Result<
    Option<String>,
    String,
>)
    ensures
        match (
            found,
            request_of(text::texts(args@), name@, text::texts(positionals@), index as int),
        ) {
            (Ok(found), Ok(expected)) => text::seen(found) == expected,
            (Err(message), Err(expected)) => message@ == expected,
            _ => false,
        },
{
    match value(args, name) {
        Err(message) => Err(message),
        Ok(Some(value)) => Ok(Some(value)),
        Ok(None) => Ok(placed(positionals, index)),
    }
}

/// Whether an argument names an option whose value is the next argument.
fn wants_value(arg: &str) -> (answer: bool)
    ensures
        answer == takes_value(arg@),
{
    same_text(arg, "--target") || same_text(arg, "--mtp") || same_text(arg, "--steps")
        || same_text(arg, "--prompt") || same_text(arg, "--port") || same_text(arg, "--capacity")
        || same_text(arg, "--model-id")
}

/// Whether an argument is an option.
fn dashes(arg: &str) -> (answer: bool)
    ensures
        answer == is_option(arg@),
{
    proof {
        reveal_strlit("-");
        if arg@.len() > 0 {
            assert(arg@.subrange(0, 1)[0] == arg@[0]);
            if arg@[0] == '-' {
                assert(arg@.subrange(0, 1) =~= "-"@);
            }
        }
    }
    starts_with(arg, "-")
}

/// What stands at a place among the arguments that are no options, unless it is the value of
/// an option.
fn free(args: &[String], index: usize) -> (found: Option<String>)
    ensures
        text::seen(found) == free_place(text::texts(args@), index as int),
{
    let ghost all = text::texts(args@);
    let mut left: usize = index;
    let mut i: usize = 0;
    while i < args.len()
        invariant
            i <= args@.len(),
            all == text::texts(args@),
            place_from(all, i as int, left as int) == place_from(all, 0, index as int),
        decreases args@.len() - i,
    {
        assert(all[i as int] == args@[i as int]@);
        if !dashes(args[i].as_str()) {
            if left == 0 {
                if i > 0 && wants_value(args[i - 1].as_str()) {
                    return None;
                }
                return Some(args[i].clone());
            }
            left -= 1;
        }
        i += 1;
    }
    None
}

/// An argument by its name, or else by its place, where no option has it for its value.
pub fn free_request(args: &[String], name: &str, index: usize) -> (found: Result<
    Option<String>,
    String,
>)
    ensures
        match (found, free_request_of(text::texts(args@), name@, index as int)) {
            (Ok(found), Ok(expected)) => text::seen(found) == expected,
            (Err(message), Err(expected)) => message@ == expected,
            _ => false,
        },
{
    match value(args, name) {
        Err(message) => Err(message),
        Ok(Some(value)) => Ok(Some(value)),
        Ok(None) => Ok(free(args, index)),
    }
}

// ---------------------------------------------------------------------------
// Laws
// ---------------------------------------------------------------------------

/// A flag is absent exactly where no argument names it.
pub proof fn flags_are_found(args: Seq<Seq<char>>, name: Seq<char>)
    ensures
        flag_of(args, name) is Some <==> exists|i: int|
            0 <= i < args.len() && names(#[trigger] args[i], name),
    decreases args.len(),
{
    if args.len() > 0 {
        let rest = args.skip(1);
        flags_are_found(rest, name);
        if names(args[0], name) {
        } else if flag_of(args, name) is Some {
            let i = choose|i: int| 0 <= i < rest.len() && names(#[trigger] rest[i], name);
            assert(names(args[i + 1], name));
        } else if exists|i: int| 0 <= i < args.len() && names(#[trigger] args[i], name) {
            let i = choose|i: int| 0 <= i < args.len() && names(#[trigger] args[i], name);
            assert(names(rest[i - 1], name));
        }
    }
}

/// The two forms of an argument have the same value, in front of any others.
pub proof fn forms_agree(name: Seq<char>, value: Seq<char>, others: Seq<Seq<char>>)
    ensures
        value_of(seq![dashed(name), value] + others, name) == Ok::<
            Option<Seq<char>>,
            Seq<char>,
        >(Some(value)),
        value_of(seq![dashed_equals(name) + value] + others, name) == Ok::<
            Option<Seq<char>>,
            Seq<char>,
        >(Some(value)),
{
    reveal_strlit("=");
    let one = dashed_equals(name) + value;
    assert(one.len() > dashed(name).len());
    assert(one.take(dashed_equals(name).len() as int) =~= dashed_equals(name));
    assert(one.skip(dashed_equals(name).len() as int) =~= value);
}

/// No option is among the positional arguments, and none that is no option is missing.
pub proof fn positionals_are_no_options(args: Seq<Seq<char>>)
    ensures
        forall|i: int|
            0 <= i < positionals(args).len() ==> !is_option(#[trigger] positionals(args)[i]),
        forall|i: int|
            0 <= i < args.len() && !is_option(#[trigger] args[i]) ==> positionals(args).contains(
                args[i],
            ),
    decreases args.len(),
{
    if args.len() > 0 {
        let first = args.drop_last();
        positionals_are_no_options(first);
        let all = positionals(args);
        assert forall|i: int| 0 <= i < args.len() && !is_option(#[trigger] args[i]) implies all
            .contains(args[i]) by {
            if i < first.len() {
                assert(first[i] == args[i]);
                let k = choose|k: int|
                    0 <= k < positionals(first).len() && positionals(first)[k] == args[i];
                assert(all[k] == args[i]);
            } else {
                assert(all[all.len() - 1] == args[i]);
            }
        }
    }
}

/// What stands at a place is the positional argument of that place.
proof fn places_agree(args: Seq<Seq<char>>, i: int, index: int)
    requires
        0 <= i <= args.len(),
        0 <= index,
    ensures
        i <= place_from(args, i, index) <= args.len(),
        place(positionals(args), positionals(args.take(i)).len() + index) == place(
            args,
            place_from(args, i, index),
        ),
    decreases args.len() - i,
{
    if i < args.len() {
        assert(args.take(i + 1).drop_last() =~= args.take(i));
        assert(args.take(i + 1).last() == args[i]);
        if is_option(args[i]) {
            places_agree(args, i + 1, index);
        } else if index > 0 {
            places_agree(args, i + 1, index - 1);
        } else {
            positionals_of_the_first(args, i + 1);
            let before = positionals(args.take(i));
            assert(positionals(args.take(i + 1)) == before.push(args[i]));
            assert(positionals(args)[before.len() as int] == positionals(args.take(i + 1))[
                before.len() as int]);
        }
    } else {
        assert(args.take(i) =~= args);
    }
}

/// The positional arguments of the first arguments are the first of all.
proof fn positionals_of_the_first(args: Seq<Seq<char>>, n: int)
    requires
        0 <= n <= args.len(),
    ensures
        positionals(args.take(n)).is_prefix_of(positionals(args)),
    decreases args.len() - n,
{
    if n < args.len() {
        assert(args.take(n + 1).drop_last() =~= args.take(n));
        positionals_of_the_first(args, n + 1);
        let one = positionals(args.take(n));
        let two = positionals(args.take(n + 1));
        assert(one =~= two.take(one.len() as int));
        assert(two =~= positionals(args).take(two.len() as int));
        assert(one =~= positionals(args).take(one.len() as int));
    } else {
        assert(args.take(n) =~= args);
        assert(positionals(args) =~= positionals(args).take(positionals(args).len() as int));
    }
}

/// What is free at a place is the positional argument there, and it is missing exactly where
/// there is none or an option has it for its value.
pub proof fn free_places_are_places(args: Seq<Seq<char>>, index: int)
    requires
        0 <= index,
    ensures
        free_place(args, index) is Some ==> free_place(args, index) == place(
            positionals(args),
            index,
        ),
        free_place(args, index) is None <==> (index >= positionals(args).len() || is_value(
            args,
            place_from(args, 0, index),
        )),
{
    assert(args.take(0) =~= Seq::empty());
    places_agree(args, 0, index);
}

} // verus!
