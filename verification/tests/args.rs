//! The command line.

use lisa_rs::cli::args::{flag, free_request, has_flag, positional, request, value};
use lisa_rs::cli::command::{command_from, Command};
use lisa_rs::cli::number::{parse_number, NumberError};
use lisa_rs::cli::run::{capacity_for, first_difference, parse_prompt_tokens, run_config};
use lisa_rs::cli::serve::{parse_args, wants_ui};
use lisa_rs::cli::{run, serve};

fn s(input: &[&str]) -> Vec<String> {
    input.iter().map(|a| a.to_string()).collect()
}

#[test]
fn flag_at_end_does_not_consume_positionals() {
    let args = s(&[
        "mlx-community/Qwen3.8-27B-4bit",
        "mlx-community/Qwen3.8-27B-MTP-4bit",
        "--port",
        "8000",
        "--no-ui",
    ]);
    assert!(has_flag(&args, "no-ui"));
    let positionals = positional(&args);
    assert_eq!(
        positionals,
        s(&[
            "mlx-community/Qwen3.8-27B-4bit",
            "mlx-community/Qwen3.8-27B-MTP-4bit",
            "8000",
        ])
    );
}

#[test]
fn flag_at_start_keeps_following_args() {
    let args = s(&["--no-ui", "A", "B"]);
    assert!(has_flag(&args, "no-ui"));
    assert_eq!(positional(&args), s(&["A", "B"]));
}

#[test]
fn bool_flag_value_forms() {
    assert_eq!(flag(&s(&["--no-ui"]), "no-ui"), Some(true));
    assert_eq!(flag(&s(&["--no-ui=true"]), "no-ui"), Some(true));
    assert_eq!(flag(&s(&["--no-ui=false"]), "no-ui"), Some(false));
    assert_eq!(flag(&s(&[]), "no-ui"), None);
}

#[test]
fn value_both_forms() {
    assert_eq!(
        value(&s(&["--port", "8123"]), "port").unwrap(),
        Some("8123".into())
    );
    assert_eq!(
        value(&s(&["--port=8123"]), "port").unwrap(),
        Some("8123".into())
    );
    assert!(value(&s(&["--port"]), "port").is_err());
}

#[test]
fn request_prefers_named_over_positional() {
    let args = s(&["--target", "T", "--mtp", "M"]);
    let positionals = positional(&args);
    assert_eq!(
        request(&args, "target", &positionals, 0).unwrap(),
        Some("T".into())
    );
}

#[test]
fn flag_says_no_only_for_false() {
    assert_eq!(flag(&s(&["--no-ui=no"]), "no-ui"), Some(true));
    assert_eq!(flag(&s(&["--no-ui="]), "no-ui"), Some(true));
    assert_eq!(flag(&s(&["--no-uis"]), "no-ui"), None);
    assert!(!has_flag(&s(&["--no-uis", "no-ui"]), "no-ui"));
    assert!(has_flag(&s(&["x", "--no-ui=false"]), "no-ui"));
}

#[test]
fn value_takes_the_first_and_names_the_missing() {
    let args = s(&["--port", "--port=2", "--port", "3"]);
    assert_eq!(value(&args, "port").unwrap(), Some("--port=2".into()));
    assert_eq!(value(&s(&["--a=1", "--a=2"]), "a").unwrap(), Some("1".into()));
    assert_eq!(
        value(&s(&["x", "--port"]), "port").unwrap_err(),
        "--port requires a value"
    );
    assert_eq!(value(&s(&["port"]), "port").unwrap(), None);
}

#[test]
fn request_falls_back_to_the_place() {
    let args = s(&["A", "--x=1", "B"]);
    let positionals = positional(&args);
    assert_eq!(request(&args, "mtp", &positionals, 1).unwrap(), Some("B".into()));
    assert_eq!(request(&args, "mtp", &positionals, 2).unwrap(), None);
    assert_eq!(
        request(&s(&["--mtp"]), "mtp", &positionals, 1).unwrap_err(),
        "--mtp requires a value"
    );
}

#[test]
fn values_of_options_have_no_place() {
    let args = s(&["A", "--port", "B", "--no-ui", "C", "--x", "D"]);
    let at = |index: usize| free_request(&args, "name", index).unwrap();
    assert_eq!(at(0), Some("A".into()));
    assert_eq!(at(1), None);
    assert_eq!(at(2), Some("C".into()));
    assert_eq!(at(3), Some("D".into()));
    assert_eq!(at(4), None);
    assert_eq!(free_request(&args, "port", 0).unwrap(), Some("B".into()));
    assert_eq!(
        free_request(&s(&["A", "--mtp"]), "mtp", 0).unwrap_err(),
        "--mtp requires a value"
    );
}

#[test]
fn numbers_are_read_as_std_reads_them() {
    let texts = [
        "", "+", "-", "0", "+0", "-0", "7", "007", "+65535", "65535", "65536", "99999", "655350",
        "12x", "x", "1 2", " 1", "1_0", "4294967295", "4294967296", "42949672950",
        "18446744073709551615", "18446744073709551616", "99999999999999999999x", "é", "１",
        "+-1", "--1", "4294967296x",
    ];
    for text in texts {
        let short = parse_number(text, u16::MAX as u64);
        match (text.parse::<u16>(), short) {
            (Ok(expected), Ok(n)) => assert_eq!(n, expected as u64),
            (Err(expected), Err(error)) => assert_eq!(error.message(), expected.to_string()),
            _ => panic!("{text:?} differs"),
        }
        match (text.parse::<u32>(), parse_number(text, u32::MAX as u64)) {
            (Ok(expected), Ok(n)) => assert_eq!(n, expected as u64),
            (Err(expected), Err(error)) => assert_eq!(error.message(), expected.to_string()),
            _ => panic!("{text:?} differs"),
        }
        match (text.parse::<u64>(), parse_number(text, u64::MAX)) {
            (Ok(expected), Ok(n)) => assert_eq!(n, expected),
            (Err(expected), Err(error)) => assert_eq!(error.message(), expected.to_string()),
            _ => panic!("{text:?} differs"),
        }
    }
    assert_eq!(parse_number("", 9), Err(NumberError::Empty));
    assert_eq!(parse_number("1a", 9), Err(NumberError::InvalidDigit));
    assert_eq!(parse_number("10", 9), Err(NumberError::TooLarge));
    assert_eq!(parse_number("3", 2), Err(NumberError::TooLarge));
    for n in [0u64, 9, 10, 12345, u64::MAX] {
        assert_eq!(parse_number(&n.to_string(), u64::MAX), Ok(n));
    }
}

#[test]
fn prompt_tokens_are_numbers_between_commas() {
    assert_eq!(parse_prompt_tokens("1,2,3").unwrap(), vec![1, 2, 3]);
    assert_eq!(parse_prompt_tokens(",, 4 ,\t5,").unwrap(), vec![4, 5]);
    assert_eq!(parse_prompt_tokens("").unwrap(), Vec::<u32>::new());
    assert_eq!(
        parse_prompt_tokens("1, x,2").unwrap_err(),
        "invalid prompt token ' x': invalid digit found in string"
    );
    assert_eq!(
        parse_prompt_tokens(" ").unwrap_err(),
        "invalid prompt token ' ': cannot parse integer from empty string"
    );
    assert_eq!(
        parse_prompt_tokens("4294967296,y").unwrap_err(),
        "invalid prompt token '4294967296': number too large to fit in target type"
    );
}

#[test]
fn run_arguments() {
    let config = run_config(&s(&["T", "M"])).unwrap();
    assert_eq!(config.target, "T");
    assert_eq!(config.mtp, "M");
    assert_eq!(config.steps, 64);
    assert_eq!(config.prompt, vec![2005]);

    let config = run_config(&s(&["T", "M", "7", "1,2"])).unwrap();
    assert_eq!(config.steps, 7);
    assert_eq!(config.prompt, vec![1, 2]);

    let named = s(&["--target=T", "--mtp", "M", "--steps=3", "--prompt", "9"]);
    let config = run_config(&named).unwrap();
    assert_eq!((config.target.as_str(), config.mtp.as_str()), ("T", "M"));
    assert_eq!(config.steps, 3);
    assert_eq!(config.prompt, vec![9]);

    let named = s(&["--target", "T", "--mtp", "M", "--prompt", "5,6"]);
    let config = run_config(&named).unwrap();
    assert_eq!((config.target.as_str(), config.mtp.as_str()), ("T", "M"));
    assert_eq!(config.steps, 64);
    assert_eq!(config.prompt, vec![5, 6]);

    let config = run_config(&s(&["T", "M", "--prompt", "5,6"])).unwrap();
    assert_eq!((config.steps, config.prompt), (64, vec![5, 6]));
    let config = run_config(&s(&["T", "M", "7", "--steps", "9"])).unwrap();
    assert_eq!((config.steps, config.prompt), (9, vec![2005]));
    let config = run_config(&s(&["--target", "T", "--mtp", "M", "7", "1,2"])).unwrap();
    assert_eq!((config.steps, config.prompt), (7, vec![1, 2]));
    let config = run_config(&s(&["T", "M", "--steps", "9", "1,2"])).unwrap();
    assert_eq!((config.steps, config.prompt), (9, vec![1, 2]));

    let error = |args: &[&str]| run_config(&s(args)).unwrap_err();
    assert_eq!(error(&[]), "missing TARGET argument (path or Hugging Face id)");
    assert_eq!(error(&["T"]), "missing MTP argument (path or Hugging Face id)");
    assert_eq!(error(&["T", "M", "x"]), "invalid STEPS: invalid digit found in string");
    assert_eq!(error(&["T", "M", "0"]), "STEPS must be greater than zero");
    assert_eq!(error(&["T", "M", "1", ","]), "PROMPT_CSV must be non-empty");
    assert_eq!(
        error(&["T", "M", "1", "a"]),
        "invalid prompt token 'a': invalid digit found in string"
    );
    assert_eq!(error(&["--target"]), "--target requires a value");
    assert_eq!(error(&["T", "M", "--steps"]), "--steps requires a value");
    assert_eq!(error(&["T", "M", "--prompt"]), "--prompt requires a value");
}

#[test]
fn serve_arguments() {
    let config = parse_args(&s(&["T", "M"])).unwrap();
    assert_eq!((config.target.as_str(), config.mtp.as_deref()), ("T", Some("M")));
    assert_eq!(config.port, 8000);
    assert_eq!(config.capacity, 32768);
    assert_eq!(config.model_id, "qwen3.8-27b");
    assert!(config.ui);

    let config = parse_args(&s(&[
        "T", "M", "--port=81", "--capacity", "12", "--model-id", "q", "--no-ui",
    ]))
    .unwrap();
    assert_eq!(config.port, 81);
    assert_eq!(config.capacity, 12);
    assert_eq!(config.model_id, "q");
    assert!(!config.ui);

    let mtp = |args: &[&str]| parse_args(&s(args)).unwrap().mtp;
    assert_eq!(mtp(&["T"]), None);
    assert_eq!(mtp(&["T", "--port", "9000"]), None);
    assert_eq!(mtp(&["--target", "T", "--port", "9000", "--no-ui"]), None);
    assert_eq!(mtp(&["T", "--no-ui", "M"]), Some("M".to_string()));
    assert_eq!(mtp(&["--target", "T", "--mtp=M"]), Some("M".to_string()));
    assert_eq!(mtp(&["--target", "T", "--mtp", "M"]), Some("M".to_string()));

    let error = |args: &[&str]| parse_args(&s(args)).unwrap_err();
    assert_eq!(error(&[]), "missing TARGET argument (path or Hugging Face id)");
    assert_eq!(error(&["T", "--mtp"]), "--mtp requires a value");
    assert_eq!(
        error(&["T", "M", "--port=70000"]),
        "invalid --port: number too large to fit in target type"
    );
    assert_eq!(
        error(&["T", "M", "--capacity="]),
        "invalid --capacity: cannot parse integer from empty string"
    );
    assert_eq!(error(&["T", "M", "--model-id"]), "--model-id requires a value");
    assert!(wants_ui(true, true, true));
    assert!(!wants_ui(false, true, true));
    assert!(!wants_ui(true, false, true));
    assert!(!wants_ui(true, true, false));
}

#[test]
fn subcommands() {
    let command = |args: &[&str]| command_from("lisa", &s(args));
    assert!(matches!(command(&[]), Command::Serve));
    assert!(matches!(command(&["serve", "T", "--help"]), Command::Serve));
    assert!(matches!(command(&["run", "T"]), Command::Run));
    match command(&["serve", "-h"]) {
        Command::Print(text) => assert_eq!(text, serve::USAGE),
        other => panic!("{other:?}"),
    }
    match command(&["run", "--help"]) {
        Command::Print(text) => assert_eq!(text, run::USAGE),
        other => panic!("{other:?}"),
    }
    for help in ["help", "-h", "--help"] {
        match command(&[help]) {
            Command::Print(text) => {
                assert_eq!(text, format!("usage: lisa <serve|run> [options]\n\n{}", serve::USAGE));
            }
            other => panic!("{other:?}"),
        }
    }
    match command(&["a\"b"]) {
        Command::Fail(text) => assert_eq!(
            text,
            "lisa: unknown subcommand \"a\\\"b\" (expected 'serve' or 'run')"
        ),
        other => panic!("{other:?}"),
    }
}

#[test]
fn generations_are_compared() {
    assert_eq!(first_difference(&[1, 2], &[1, 2]), None);
    assert_eq!(first_difference(&[1, 2, 3], &[1, 9, 3]), Some(1));
    assert_eq!(first_difference(&[1, 2], &[1, 2, 3]), Some(2));
    assert_eq!(first_difference(&[], &[4]), Some(0));
    assert_eq!(capacity_for(5, 64), Some(72));
    assert_eq!(capacity_for(1, usize::MAX), None);
    assert_eq!(capacity_for(0, usize::MAX - 2), None);
}
