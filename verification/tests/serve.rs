//! Requests and responses, streams, and what is kept between requests.

use lisa_rs::serve::api::{
    coerce_arguments, completion_as_chat, content_to_text, list_models, request_id,
    to_chat_messages, tool_calls_to_response, ChunkDelta, ClientToolCall, CompletionRequest,
    FunctionCall, OpenAiMessage,
};
use lisa_rs::serve::chat::{
    chat_completion, chat_response, error_body, finish_reason, preview, session_fingerprint,
    stream_error, thinking_enabled, token_limit, tokenize_request, CompletionFacts,
};
use lisa_rs::serve::session::{Session, TurnAction, TurnEvent};
use lisa_rs::serve::stream::{chunk, last_delta, StreamState};
use lisa_rs::speculative::block3::{
    generate_greedy_prefilled_streaming, Block3Action, Block3Event,
};
use lisa_rs::tokenizer::{ChatMessage, ChatTokenizer, ChatToolCall};
use serde_json::Value;

fn json(text: &str) -> Value {
    serde_json::from_str(text).unwrap()
}

/// A tokenizer of a few words, each a token of its own.
fn words() -> ChatTokenizer {
    let tokens = ["hello", "world", "answer", "user", "assistant", "thinking", "response"];
    let mut vocab = String::from("\"[UNK]\":0");
    for (i, token) in tokens.iter().enumerate() {
        vocab.push_str(&format!(",\"{token}\":{}", i + 1));
    }
    let file = format!(
        "{{\"version\":\"1.0\",\"truncation\":null,\"padding\":null,\"added_tokens\":[\
         {{\"id\":8,\"content\":\"<|im_start|>\",\"single_word\":false,\"lstrip\":false,\
         \"rstrip\":false,\"normalized\":false,\"special\":true}},\
         {{\"id\":9,\"content\":\"<|im_end|>\",\"single_word\":false,\"lstrip\":false,\
         \"rstrip\":false,\"normalized\":false,\"special\":true}}],\
         \"normalizer\":null,\"pre_tokenizer\":{{\"type\":\"Whitespace\"}},\
         \"post_processor\":null,\"decoder\":null,\"model\":{{\"type\":\"WordLevel\",\
         \"vocab\":{{{vocab}}},\"unk_token\":\"[UNK]\"}}}}"
    );
    ChatTokenizer::load("words", &file).unwrap_or_else(|message| panic!("{message}"))
}

fn facts(completion_tokens: usize, enable_thinking: bool) -> CompletionFacts {
    CompletionFacts {
        id: "chatcmpl-1".into(),
        created: 5,
        model: "m".into(),
        prompt_tokens: 10,
        completion_tokens,
        max_tokens: 20,
        enable_thinking,
    }
}

// ---------------------------------------------------------------------------
// Requests
// ---------------------------------------------------------------------------

#[test]
fn contents_are_texts() {
    assert_eq!(content_to_text(&json("\"a\"")), "a");
    let parts = "[{\"type\":\"text\",\"text\":\"a\"},{\"x\":1},{\"text\":3},{\"text\":\"b\"}]";
    assert_eq!(content_to_text(&json(parts)), "ab");
    assert_eq!(content_to_text(&Value::Null), "");
    assert_eq!(content_to_text(&json("{\"text\":\"a\"}")), "");
}

#[test]
fn client_messages_become_chat_messages() {
    let messages = vec![OpenAiMessage {
        role: "assistant".into(),
        content: Value::Null,
        tool_calls: Some(vec![
            ClientToolCall {
                function: FunctionCall { name: "f".into(), arguments: "{\"a\":1}".into() },
            },
            ClientToolCall { function: FunctionCall { name: "g".into(), arguments: "no".into() } },
        ]),
        reasoning_content: Some("r".into()),
    }];
    let chat = to_chat_messages(&messages);
    assert_eq!(chat.len(), 1);
    assert_eq!(chat[0].role, "assistant");
    assert_eq!(chat[0].content, "");
    assert_eq!(chat[0].reasoning_content.as_deref(), Some("r"));
    assert_eq!(chat[0].tool_calls[0].arguments, json("{\"a\":1}"));
    assert_eq!(chat[0].tool_calls[1].arguments, Value::String("no".into()));
    assert_eq!(coerce_arguments("[]"), json("[]"));
    assert_eq!(coerce_arguments(""), Value::String(String::new()));
}

#[test]
fn completions_are_chats_of_one_message() {
    let chat = completion_as_chat(CompletionRequest {
        model: "m".into(),
        prompt: json("\"p\""),
        stream: true,
        max_tokens: Some(3),
        max_completion_tokens: None,
    });
    assert_eq!(chat.messages.len(), 1);
    assert_eq!(chat.messages[0].role, "user");
    assert_eq!(chat.messages[0].content, json("\"p\""));
    assert!(chat.stream);
    assert_eq!(chat.max_tokens, Some(3));
    assert_eq!(chat.enable_thinking, Some(false));
    assert!(chat.tools.is_none());
}

#[test]
fn limits_and_defaults() {
    assert_eq!(token_limit(None, None), 4096);
    assert_eq!(token_limit(Some(5), Some(6)), 5);
    assert_eq!(token_limit(None, Some(6)), 6);
    assert_eq!(token_limit(Some(100_000), None), 8192);
    assert!(thinking_enabled(None, &[]));
    assert!(!thinking_enabled(None, &["t".to_string()]));
    assert!(thinking_enabled(Some(true), &["t".to_string()]));
    assert!(!thinking_enabled(Some(false), &[]));
}

#[test]
fn requests_are_tokenized_with_and_without_the_generation_prompt() {
    let tok = words();
    let messages = vec![ChatMessage::new("user", "hello world")];
    let ids = tokenize_request(&tok, &messages, true, Some("medium"), &[]).unwrap();
    assert_eq!(ids.msg_ids, vec![8, 4, 1, 2, 9]);
    assert_eq!(ids.full_ids, vec![8, 4, 1, 2, 9, 8, 5, 6]);
    assert!(tokenize_request(&tok, &[], true, None, &[]).is_err());
}

// ---------------------------------------------------------------------------
// Responses
// ---------------------------------------------------------------------------

#[test]
fn responses_say_what_was_generated() {
    let response = chat_response(facts(7, true), "why\n</think>\n\nbecause");
    assert_eq!(response.id, "chatcmpl-1");
    assert_eq!(response.object, "chat.completion");
    assert_eq!(response.created, 5);
    assert_eq!(response.model, "m");
    let choice = &response.choices[0];
    assert_eq!(choice.message.role, "assistant");
    assert_eq!(choice.message.content, "because");
    assert_eq!(choice.message.reasoning_content.as_deref(), Some("why"));
    assert!(choice.message.tool_calls.is_none());
    assert_eq!(choice.finish_reason, "stop");
    assert_eq!(response.usage.prompt_tokens, 10);
    assert_eq!(response.usage.completion_tokens, 7);
    assert_eq!(response.usage.total_tokens, 17);

    let text = "look\n<tool_call>\n<function=f>\n<parameter=b>\n2\n</parameter>\n\
                <parameter=a>\nx\n</parameter>\n</function>\n</tool_call>";
    let response = chat_response(facts(20, false), text);
    let choice = &response.choices[0];
    assert_eq!(choice.message.content, "look");
    assert_eq!(choice.message.reasoning_content, None);
    let calls = choice.message.tool_calls.as_ref().unwrap();
    assert_eq!(calls[0].id, "call_1");
    assert_eq!(calls[0].kind, "function");
    assert_eq!(calls[0].function.name, "f");
    assert_eq!(calls[0].function.arguments, "{\"a\":\"x\",\"b\":2}");
    assert_eq!(choice.finish_reason, "tool_calls");
    assert_eq!(chat_response(facts(20, false), "x").choices[0].finish_reason, "length");
}

#[test]
fn tokens_become_responses() {
    let response = chat_completion(&words(), facts(2, false), &[3, 1, 9]).unwrap();
    assert_eq!(response.choices[0].message.content, "answer hello");
}

#[test]
fn reasons_to_finish() {
    assert_eq!(finish_reason(1, 9, 9), "tool_calls");
    assert_eq!(finish_reason(0, 8, 9), "stop");
    assert_eq!(finish_reason(0, 9, 9), "length");
}

#[test]
fn calls_are_numbered() {
    let calls = vec![
        ChatToolCall { name: "a".into(), arguments: json("{}") },
        ChatToolCall { name: "b".into(), arguments: json("{\"k\":[1]}") },
    ];
    let out = tool_calls_to_response(&calls);
    assert_eq!(out[1].id, "call_2");
    assert_eq!(out[1].function.arguments, "{\"k\":[1]}");
}

#[test]
fn errors_are_told() {
    assert_eq!(
        error_body("no \"way\"").to_string(),
        "{\"error\":{\"message\":\"no \\\"way\\\"\",\"type\":\"server_error\"}}"
    );
    assert_eq!(stream_error("x"), "{\"error\":{\"message\":\"x\"}}");
}

#[test]
fn models_are_listed() {
    let list = list_models("q", 77);
    assert_eq!(list.object, "list");
    assert_eq!(list.data.len(), 1);
    assert_eq!(list.data[0].id, "q");
    assert_eq!(list.data[0].object, "model");
    assert_eq!(list.data[0].created, 77);
    assert_eq!(list.data[0].owned_by, "lisa-rs");
    assert_eq!(request_id(77), "chatcmpl-77");
}

#[test]
fn previews_are_short_and_on_one_line() {
    assert_eq!(preview("first\nsecond", 48), "first");
    assert_eq!(preview("\n\n  a b \r\nc\n", 10), "a b");
    assert_eq!(preview(" \n ", 10), "");
    assert_eq!(preview("abcd\nef", 3), "abc\u{2026}");
    assert_eq!(preview("abc\nef", 3), "abc");
    assert_eq!(preview("héllo", 3), "hél\u{2026}");
    assert_eq!(preview("abc", 3), "abc");
}

#[test]
fn conversations_have_fingerprints() {
    let say = |contents: &[&str]| -> Vec<ChatMessage> {
        contents.iter().map(|c| ChatMessage::new("user", c)).collect()
    };
    let print = session_fingerprint(&say(&["a", "b"]), "m");
    assert_eq!(print, session_fingerprint(&say(&["a", "c"]), "m"));
    assert_ne!(print, session_fingerprint(&say(&["x", "b"]), "m"));
    assert_ne!(print, session_fingerprint(&say(&["a", "b"]), "n"));
    assert_ne!(
        session_fingerprint(&say(&["a"]), "m"),
        session_fingerprint(&say(&["b"]), "m")
    );
    let mut hash: u64 = 0xcbf2_9ce4_8422_2325;
    for byte in "musera".bytes() {
        hash = (hash ^ byte as u64).wrapping_mul(0x100_0000_01b3);
    }
    assert_eq!(print, format!("{hash:06x}"));
}

// ---------------------------------------------------------------------------
// Streams
// ---------------------------------------------------------------------------

fn told(deltas: &[ChunkDelta]) -> Vec<(Option<&str>, Option<&str>, Option<&str>)> {
    deltas
        .iter()
        .map(|d| (d.role, d.reasoning_content.as_deref(), d.content.as_deref()))
        .collect()
}

#[test]
fn streams_send_what_is_new() {
    let mut stream = StreamState::new(true);
    assert!(stream.fits("I think"));
    assert_eq!(told(&stream.advance("I think")), vec![(None, Some("I think"), None)]);
    assert_eq!(told(&stream.advance("I think")), vec![]);
    let deltas = stream.advance("I think.</think>\n\nSo");
    assert_eq!(
        told(&deltas),
        vec![(None, Some("."), None), (Some("assistant"), None, Some("So"))]
    );
    let deltas = stream.advance("I think.</think>\n\nSo é");
    assert_eq!(told(&deltas), vec![(None, None, Some(" é"))]);
    let deltas = stream.advance("I think.</think>\n\nSo é!<tool_call>\n<function=");
    assert_eq!(told(&deltas), vec![(None, None, Some("!"))]);
    assert_eq!(told(&stream.advance("I think.</think>\n\nSo é!<tool_call>\n<function=f>")), vec![]);
}

#[test]
fn streams_split_at_the_line_that_closes_the_reasoning() {
    let mut stream = StreamState::new(true);
    let mut sent = (String::new(), String::new());
    for text in ["r", "r\n response", "r\n response\n\n", "r\n response\n\na", "r\n response\n\nab"] {
        assert!(stream.fits(text));
        for delta in stream.advance(text) {
            sent.0.push_str(delta.reasoning_content.as_deref().unwrap_or_default());
            sent.1.push_str(delta.content.as_deref().unwrap_or_default());
        }
    }
    assert_eq!(sent, ("r".to_string(), "ab".to_string()));
    let response = chat_response(facts(7, true), "r\n response\n\na");
    assert_eq!(response.choices[0].message.content, "a");
    assert_eq!(response.choices[0].message.reasoning_content.as_deref(), Some("r"));
}

#[test]
fn streams_take_tokens() {
    let tok = words();
    let mut stream = StreamState::new(false);
    let deltas = stream.push_token(&tok, 1).unwrap();
    assert_eq!(told(&deltas), vec![(Some("assistant"), None, Some("hello"))]);
    let deltas = stream.push_token(&tok, 2).unwrap();
    assert_eq!(told(&deltas), vec![(None, None, Some(" world"))]);
    let (delta, reason) = stream.finish(&tok, 9);
    assert_eq!(reason, "stop");
    assert!(delta.tool_calls.is_none());
    assert_eq!(stream.finish(&tok, 2).1, "length");
}

#[test]
fn streams_end_with_their_calls() {
    let text = "x<tool_call><function=f><parameter=k>1</parameter></function></tool_call>";
    let (delta, reason) = last_delta(text, false, 3, 9);
    assert_eq!(reason, "tool_calls");
    let calls = delta.tool_calls.as_ref().unwrap();
    assert_eq!(calls[0].function.name, "f");
    assert_eq!(calls[0].function.arguments, "{\"k\":1}");
    let chunk = chunk("id", 4, "m", delta, Some(reason));
    assert_eq!(chunk.object, "chat.completion.chunk");
    assert_eq!((chunk.id.as_str(), chunk.created, chunk.model.as_str()), ("id", 4, "m"));
    assert_eq!(chunk.choices[0].index, 0);
    assert_eq!(chunk.choices[0].finish_reason.as_deref(), Some("tool_calls"));
}

// ---------------------------------------------------------------------------
// Sessions
// ---------------------------------------------------------------------------

/// Runs a request with everything going well, and gives back what was asked for.
fn serve(session: &mut Session<u32>, ids: &[u32], state: u32) -> Vec<String> {
    let mut asked = Vec::new();
    let mut action = session.begin(&[ids, &[90]].concat(), ids.len());
    loop {
        let event = match action {
            TurnAction::Restore(saved) => {
                asked.push(format!("restore {saved}"));
                TurnEvent::Done
            }
            TurnAction::Reset => {
                asked.push("reset".into());
                TurnEvent::Done
            }
            TurnAction::PrefillPrefix { start, end } => {
                asked.push(format!("prefix {start}..{end}"));
                TurnEvent::Done
            }
            TurnAction::Checkpoint => {
                asked.push("save".into());
                TurnEvent::Saved(state)
            }
            TurnAction::PrefillRest { start } => {
                asked.push(format!("rest {start}.."));
                TurnEvent::Done
            }
            TurnAction::Generate { cached } => {
                asked.push(format!("generate {cached}"));
                return asked;
            }
            TurnAction::Fail => {
                asked.push("fail".into());
                return asked;
            }
        };
        action = session.step(event);
    }
}

#[test]
fn a_longer_conversation_goes_on_from_the_last() {
    let mut session: Session<u32> = Session::new();
    assert_eq!(
        serve(&mut session, &[1, 2], 71),
        vec!["reset", "prefix 0..2", "save", "rest 2..", "generate false"]
    );
    assert_eq!(
        serve(&mut session, &[1, 2, 3, 4], 72),
        vec!["restore 71", "prefix 2..4", "save", "rest 4..", "generate true"]
    );
    assert_eq!(
        serve(&mut session, &[1, 9, 3, 4, 5], 73),
        vec!["reset", "prefix 0..5", "save", "rest 5..", "generate false"]
    );
    assert_eq!(serve(&mut session, &[1, 9, 3, 4, 5], 74)[0], "reset");
}

/// A target that continues any text.
fn next_of(text: &[u32]) -> u32 {
    text.iter().fold(3u32, |hash, token| hash.wrapping_mul(31).wrapping_add(*token + 1)) % 6
}

/// Serves a request by models that hold the tokens they were fed, and gives back the tokens
/// that it is answered with.
fn complete(
    session: &mut Session<Vec<u32>>,
    fed: &mut Vec<u32>,
    full_ids: &[u32],
    msg_len: usize,
    eos: u32,
) -> Vec<u32> {
    let mut action = session.begin(full_ids, msg_len);
    loop {
        let event = match action {
            TurnAction::Restore(saved) => {
                *fed = saved;
                TurnEvent::Done
            }
            TurnAction::Reset => {
                fed.clear();
                TurnEvent::Done
            }
            TurnAction::PrefillPrefix { start, end } => {
                fed.extend(&full_ids[start..end]);
                TurnEvent::Done
            }
            TurnAction::Checkpoint => TurnEvent::Saved(fed.clone()),
            TurnAction::PrefillRest { start } => {
                fed.extend(&full_ids[start..]);
                TurnEvent::Done
            }
            TurnAction::Generate { .. } => break,
            TurnAction::Fail => panic!("nothing fails"),
        };
        action = session.step(event);
    }
    let (mut generation, begun) = generate_greedy_prefilled_streaming(next_of(fed), 9, Some(eos));
    let mut told = begun.emitted;
    let mut action = begun.action;
    while let Block3Action::Decode { token } = action {
        fed.push(token);
        let step = generation.step(Block3Event::Token(next_of(fed)));
        told.extend(step.emitted);
        action = step.action;
    }
    told
}

#[test]
fn a_completion_does_not_depend_on_what_was_served_before() {
    let requests: [(&[u32], usize); 5] = [
        (&[1, 2, 50], 2),
        (&[1, 2, 7, 8, 50], 4),
        (&[1, 2, 7, 8, 9, 50, 51], 5),
        (&[4, 50], 1),
        (&[4, 1, 2, 50], 3),
    ];
    for eos in [0, 1, 99] {
        let mut session: Session<Vec<u32>> = Session::new();
        let mut fed: Vec<u32> = Vec::new();
        for (full_ids, msg_len) in requests {
            let told = complete(&mut session, &mut fed, full_ids, msg_len, eos);
            let alone =
                complete(&mut Session::new(), &mut vec![60, 61], full_ids, msg_len, eos);
            assert_eq!(told, alone);
            let mut text = full_ids.to_vec();
            let mut expected = Vec::new();
            while expected.len() < 9 && next_of(&text) != eos {
                expected.push(next_of(&text));
                text.push(next_of(&text));
            }
            assert_eq!(told, expected);
        }
    }
}

#[test]
fn a_session_remembers_what_the_models_were_fed() {
    // The messages alone are [1, 2]; before the generation prompt the tokenizer joins the 2.
    let mut session: Session<u32> = Session::new();
    let mut action = session.begin(&[1, 7, 90], 2);
    while !matches!(action, TurnAction::Generate { .. }) {
        let saving = matches!(action, TurnAction::Checkpoint);
        action = session.step(if saving { TurnEvent::Saved(71) } else { TurnEvent::Done });
    }
    assert!(matches!(session.begin(&[1, 2, 3, 90], 3), TurnAction::Reset));
    let mut session: Session<u32> = Session::new();
    assert!(matches!(session.begin(&[1], 5), TurnAction::Reset));
    assert!(matches!(
        session.step(TurnEvent::Done),
        TurnAction::PrefillPrefix { start: 0, end: 1 }
    ));
}

#[test]
fn failures_start_over_or_give_up() {
    let mut session: Session<u32> = Session::new();
    serve(&mut session, &[1], 71);
    assert!(matches!(session.begin(&[1, 2, 90], 2), TurnAction::Restore(71)));
    assert!(matches!(session.step(TurnEvent::Failed), TurnAction::Reset));
    assert!(matches!(
        session.step(TurnEvent::Done),
        TurnAction::PrefillPrefix { start: 0, end: 2 }
    ));
    assert!(matches!(session.step(TurnEvent::Failed), TurnAction::Fail));
    assert_eq!(serve(&mut session, &[1, 2, 3], 75)[0], "reset");
}
