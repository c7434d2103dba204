//! The tokenizer, the prompt template, and tool calls in text.

use lisa_rs::json;
use lisa_rs::tokenizer::calls::{between, between_all, coerce_arg, extract_parameters};
use lisa_rs::tokenizer::{
    parse_tool_calls, split_thinking, split_tool_calls, template, ChatMessage, ChatTokenizer,
    ChatToolCall,
};
use lisa_rs::tokenizer::vetted::plain_pattern;
use serde_json::Value;

/// The character that stands for a byte in a byte-level vocabulary.
fn byte_char(byte: u8) -> char {
    let plain = |b: u8| (33..=126).contains(&b) || (161..=172).contains(&b) || b >= 174;
    if plain(byte) {
        return byte as char;
    }
    let before = (0..byte).filter(|b| !plain(*b)).count() as u32;
    char::from_u32(256 + before).unwrap()
}

/// A tokenizer file on bytes, with the given tokens, and with those that are found whole.
fn tokenizer_file(tokens: &[(String, u32)], whole: &[(&str, u32)]) -> String {
    let quoted = |text: &str| Value::String(text.to_string()).to_string();
    let vocab: Vec<String> =
        tokens.iter().map(|(token, id)| format!("{}:{id}", quoted(token))).collect();
    let added: Vec<String> = whole
        .iter()
        .map(|(token, id)| {
            format!(
                "{{\"id\":{id},\"content\":{},\"single_word\":false,\"lstrip\":false,\
                 \"rstrip\":false,\"normalized\":false,\"special\":true}}",
                quoted(token)
            )
        })
        .collect();
    let level = "{\"type\":\"ByteLevel\",\"add_prefix_space\":false,\"trim_offsets\":true,\
                 \"use_regex\":false}";
    format!(
        "{{\"version\":\"1.0\",\"truncation\":null,\"padding\":null,\"added_tokens\":[{}],\
         \"normalizer\":null,\"pre_tokenizer\":{level},\"post_processor\":null,\
         \"decoder\":{level},\"model\":{{\"type\":\"BPE\",\"dropout\":null,\"unk_token\":null,\
         \"continuing_subword_prefix\":null,\"end_of_word_suffix\":null,\"fuse_unk\":false,\
         \"byte_fallback\":false,\"vocab\":{{{}}},\"merges\":[]}}}}",
        added.join(","),
        vocab.join(",")
    )
}

/// A tokenizer file with a token for every byte, and the given special tokens.
fn byte_tokenizer(special: &[&str]) -> String {
    let bytes: Vec<(String, u32)> =
        (0..=255u8).map(|byte| (byte_char(byte).to_string(), byte as u32)).collect();
    let special: Vec<(&str, u32)> = special.iter().copied().zip(256..).collect();
    tokenizer_file(&bytes, &special)
}

fn load() -> ChatTokenizer {
    let file = byte_tokenizer(&["<|endoftext|>", "<|im_start|>", "<|im_end|>"]);
    ChatTokenizer::load("tokenizer.json", &file).unwrap_or_else(|message| panic!("{message}"))
}

#[test]
fn round_trips_text() {
    let tok = load();
    let text = "Hello, world! This is a test.";
    let ids = tok.encode(text).unwrap();
    let back = tok.decode(&ids).unwrap();
    assert_eq!(back.trim(), text);
}

#[test]
fn special_tokens_are_single_ids() {
    let tok = load();
    let ids = tok.encode("<|im_start|>system\nhi<|im_end|>").unwrap();
    assert_eq!(ids[0], tok.im_start());
    assert_eq!(*ids.last().unwrap(), tok.im_end());
}

#[test]
fn special_tokens_are_found_and_left_out() {
    let tok = load();
    assert_eq!(tok.im_start(), 257);
    assert_eq!(tok.im_end(), 258);
    assert_eq!(tok.eos(), 258);
    assert_eq!(tok.encode("hé").unwrap(), vec![104, 0xc3, 0xa9]);
    assert_eq!(tok.encode("a<|im_end|>").unwrap(), vec![97, 258]);
    assert_eq!(tok.decode(&[257, 104, 105, 258]).unwrap(), "hi");
    assert_eq!(tok.decode(&[]).unwrap(), "");
}

#[test]
fn tokenizers_that_cannot_be_used() {
    let error = |file: &str| match ChatTokenizer::load("dir/tokenizer.json", file) {
        Ok(_) => panic!("it can"),
        Err(message) => message,
    };
    assert!(error("{").starts_with("failed to load tokenizer dir/tokenizer.json: "));
    assert_eq!(
        error(&byte_tokenizer(&["<|im_start|>"])),
        "tokenizer missing special token \"<|im_end|>\""
    );
    assert_eq!(
        error(&byte_tokenizer(&["<|im_end|>"])),
        "tokenizer missing special token \"<|im_start|>\""
    );
}

/// A tokenizer file with one part put in another way.
fn with_part(key: &str, part: &str) -> String {
    let special = ["<|endoftext|>", "<|im_start|>", "<|im_end|>"];
    let mut file: Value = serde_json::from_str(&byte_tokenizer(&special)).unwrap();
    let part: Value = serde_json::from_str(part).unwrap();
    file.as_object_mut().unwrap().insert(key.to_string(), part);
    file.to_string()
}

#[test]
fn files_with_parts_that_have_no_answer_are_refused() {
    let refusal = |file: &str| match ChatTokenizer::load("t", file) {
        Ok(_) => panic!("{file} is taken"),
        Err(message) => message,
    };
    let message = "failed to load tokenizer t: it asks for a part that is not supported";
    let parts = [
        ("decoder", r#"{"type":"Strip","content":"a","start":0,"stop":1}"#),
        (
            "decoder",
            r#"{"type":"Sequence","decoders":[{"type":"Fuse"},
                {"type":"Strip","content":" ","start":1,"stop":1}]}"#,
        ),
        ("decoder", r#"{"type":"BPEDecoder","suffix":"</w>"}"#),
        ("decoder", r#"{"type":"Replace","pattern":{"Regex":"a\\Kb"},"content":""}"#),
        ("decoder", r#"["ByteLevel"]"#),
        (
            "truncation",
            r#"{"direction":"Right","max_length":2,"strategy":"LongestFirst","stride":2}"#,
        ),
        (
            "truncation",
            r#"{"direction":"Right","max_length":2,"strategy":"LongestFirst","stride":3}"#,
        ),
        (
            "padding",
            r#"{"strategy":{"Fixed":18446744073709551615},"direction":"Right",
                "pad_to_multiple_of":null,"pad_id":0,"pad_type_id":0,"pad_token":"a"}"#,
        ),
        ("normalizer", r#"{"type":"Strip","strip_left":true,"strip_right":true}"#),
        ("normalizer", r#"{"type":"Sequence","normalizers":[{"type":"StripAccents"}]}"#),
        ("normalizer", r#"{"type":"Precompiled","precompiled_charsmap":"AA=="}"#),
        ("pre_tokenizer", r#"{"type":"FixedLength","length":0}"#),
        (
            "pre_tokenizer",
            r#"{"type":"Split","pattern":{"Regex":"a{1000}"},"behavior":"Isolated","invert":false}"#,
        ),
        (
            "post_processor",
            r#"{"type":"TemplateProcessing","single":[{"Sequence":{"id":"B","type_id":0}}],
                "pair":[],"special_tokens":{}}"#,
        ),
        (
            "post_processor",
            r#"{"type":"TemplateProcessing","single":[],"pair":[],"special_tokens":{}}"#,
        ),
        (
            "post_processor",
            r#"{"type":"ByteLevel","single":[{"Sequence":{"id":"A","type_id":0}},
                {"Sequence":{"id":"A","type_id":0}}],"pair":[],"special_tokens":{}}"#,
        ),
        ("model", r#"{"type":"Unigram","unk_id":0,"vocab":[["a",0]],"byte_fallback":false}"#),
        ("model", r#"{"type":"WordLevel","vocab":{"a":4294967295},"unk_token":"a"}"#),
        (
            "model",
            r###"{"type":"BPE","dropout":null,"unk_token":null,"continuing_subword_prefix":"##",
                "end_of_word_suffix":null,"fuse_unk":false,"byte_fallback":false,
                "vocab":{"a":0,"b":1,"ab":2},"merges":["a b"]}"###,
        ),
        (
            "added_tokens",
            r#"[{"id":256,"content":"x","single_word":false,"lstrip":true,"rstrip":false,
                "normalized":false,"special":true},
                {"id":257,"content":"y","single_word":false,"lstrip":false,"rstrip":true,
                "normalized":false,"special":true}]"#,
        ),
    ];
    for (key, part) in parts {
        assert_eq!(refusal(&with_part(key, part)), message, "{part}");
    }
    for text in ["{\"decoder\":[", "", "{\"decoder\":[]"] {
        assert_eq!(refusal(text), "failed to load tokenizer t: it is no JSON text");
    }
    assert_eq!(refusal("{}"), message);
    assert_eq!(refusal("[]"), message);
}

#[test]
fn files_with_the_usual_parts_are_taken() {
    let taken = |file: &str| match ChatTokenizer::load("t", file) {
        Ok(tokenizer) => tokenizer,
        Err(message) => panic!("{message}"),
    };
    let level = r#"{"type":"ByteLevel","add_prefix_space":false,"trim_offsets":false,
        "use_regex":false}"#;
    let words = r"(?i:'s|'t|'re|'ve|'m|'ll|'d)|[^\\r\\n\\p{L}\\p{N}]?[\\p{L}\\p{M}]+|\\p{N}| ?[^\\s\\p{L}\\p{M}\\p{N}]+[\\r\\n]*|\\s*[\\r\\n]+|\\s+(?!\\S)|\\s+";
    let split = format!(
        r#"{{"type":"Sequence","pretokenizers":[{{"type":"Split","pattern":{{"Regex":"{words}"}},
            "behavior":"Isolated","invert":false}},{level}]}}"#
    );
    let bytes: Vec<u32> = "I'll go 12".bytes().map(u32::from).collect();
    let tokenizer = taken(&with_part("pre_tokenizer", &split));
    assert_eq!(tokenizer.encode("I'll go 12").unwrap(), bytes);
    assert_eq!(tokenizer.decode(&bytes).unwrap(), "I'll go 12");

    let tokenizer = taken(&with_part("normalizer", r#"{"type":"NFC"}"#));
    assert_eq!(tokenizer.encode("e\u{301}").unwrap(), vec![0xc3, 0xa9]);

    let short = r#"{"direction":"Right","max_length":2,"strategy":"LongestFirst","stride":1}"#;
    let tokenizer = taken(&with_part("truncation", short));
    assert_eq!(tokenizer.encode("abc").unwrap(), vec![97, 98]);

    let template = r#"{"type":"TemplateProcessing","single":[
        {"SpecialToken":{"id":"<|endoftext|>","type_id":0}},{"Sequence":{"id":"A","type_id":0}}],
        "pair":[{"Sequence":{"id":"A","type_id":0}},{"Sequence":{"id":"B","type_id":1}}],
        "special_tokens":{"<|endoftext|>":{"id":"<|endoftext|>","ids":[256],
        "tokens":["<|endoftext|>"]}}}"#;
    let tokenizer = taken(&with_part("post_processor", template));
    assert_eq!(tokenizer.encode("abc").unwrap(), vec![97, 98, 99]);
    let both = format!(r#"{{"type":"Sequence","processors":[{level},{template},{template}]}}"#);
    let tokenizer = taken(&with_part("post_processor", &both));
    assert_eq!(tokenizer.encode("abc").unwrap(), vec![97, 98, 99]);

    let decoder = r#"{"type":"Sequence","decoders":[{"type":"ByteFallback"},{"type":"Fuse"},
        {"type":"Strip","content":"a","start":1,"stop":0}]}"#;
    let tokenizer = taken(&with_part("decoder", decoder));
    assert_eq!(tokenizer.decode(&[97, 97, 98]).unwrap(), "ab");
}

#[test]
fn a_key_that_stands_twice_counts_once() {
    let file = byte_tokenizer(&["<|endoftext|>", "<|im_start|>", "<|im_end|>"]);
    let bad = r#"{"decoder":{"type":"Strip","content":"a","start":0,"stop":1},"#;
    let twice = format!("{bad}{}", &file[1..]);
    let tokenizer = match ChatTokenizer::load("t", &twice) {
        Ok(tokenizer) => tokenizer,
        Err(message) => panic!("{message}"),
    };
    assert_eq!(tokenizer.decode(&[97, 98]).unwrap(), "ab");
}

#[test]
fn patterns_out_of_the_plain_are_told() {
    for plain in ["", "a+", r"[!\-.\[\]\\^][A-Za-z]+|\.\$\(", r"\p{L}+|\d{1,3}", r"(?:a|b)(?!\s)(?=c)(?i:d)", "[^a]"] {
        assert!(plain_pattern(plain), "{plain}");
    }
    for other in [r"a\Kb", r"a\", "a{4}", "a{1,4}", r"(?<n>a)", r"(?<=a)b", r"(a)\1", "(?", r"\\K", r"a\<b"] {
        assert!(!plain_pattern(other), "{other}");
    }
}

#[test]
fn copies_are_like_what_they_were_made_of() {
    let tokenizer = load();
    let copy = tokenizer.clone();
    assert_eq!(copy.im_start(), tokenizer.im_start());
    assert_eq!(copy.im_end(), tokenizer.im_end());
    assert_eq!(copy.eos(), tokenizer.eos());
    assert_eq!(copy.encode("a<|im_end|>").unwrap(), vec![97, 258]);
    assert_eq!(copy.decode(&[104, 105]).unwrap(), "hi");

    let calls = vec![call("f", &[("k", Value::from(3))])];
    let mut message = ChatMessage::assistant_with_tool_calls("c", calls);
    message.reasoning_content = Some("r".into());
    message.name = Some("n".into());
    let copy = message.clone();
    assert_eq!((copy.role.as_str(), copy.content.as_str()), ("assistant", "c"));
    assert_eq!(copy.reasoning_content.as_deref(), Some("r"));
    assert_eq!(copy.name.as_deref(), Some("n"));
    assert_eq!(copy.tool_calls.len(), 1);
    assert_eq!(copy.tool_calls[0].name, "f");
    assert_eq!(copy.tool_calls[0].arguments["k"], Value::from(3));
}

#[test]
fn calls_are_read_back_from_a_whole_prompt() {
    let first = vec![
        call("read", &[("path", Value::String("/a b".into())), ("depth", Value::from(-3))]),
        call("list", &[]),
    ];
    let second =
        vec![call("set", &[("a", Value::Null), ("b", Value::Bool(true)), ("c", Value::from(0))])];
    let mut thinking = ChatMessage::assistant_with_tool_calls("I look.", first.clone());
    thinking.reasoning_content = Some("So, a < b.".into());
    let messages = vec![
        ChatMessage::new("system", "Be brief."),
        ChatMessage::new("user", "Where a < b?"),
        thinking,
        ChatMessage::new("tool", "one"),
        ChatMessage::new("tool", "two"),
        ChatMessage::assistant_with_tool_calls("", second.clone()),
    ];
    let all: Vec<&ChatToolCall> = first.iter().chain(&second).collect();
    for thinking in [false, true] {
        for effort in [None, Some("low"), Some("medium")] {
            for whole in [false, true] {
                let prompt =
                    template::apply_chat_template(&messages, thinking, effort, &[], whole).unwrap();
                let back = parse_tool_calls(&prompt);
                assert_eq!(back.len(), all.len());
                for (one, other) in back.iter().zip(&all) {
                    assert_eq!(one.name, other.name);
                    assert_eq!(one.arguments, other.arguments);
                }
                let alone = &messages[2..3];
                let prompt =
                    template::apply_chat_template(alone, thinking, effort, &[], whole).unwrap();
                assert_eq!(parse_tool_calls(&prompt).len(), first.len());
            }
        }
    }
}

#[test]
fn split_tool_calls_extracts_structured_calls() {
    let text = "Let me check the README.\n\n<tool_call>\n<function=read>\n<parameter=file_path>\n/Users/x/README.md\n</parameter>\n</function>\n</tool_call>";
    let calls = parse_tool_calls(text);
    assert_eq!(calls.len(), 1);
    assert_eq!(calls[0].name, "read");
    assert_eq!(
        calls[0].arguments["file_path"],
        serde_json::Value::String("/Users/x/README.md".to_string())
    );

    // split_tool_calls strips the XML from the answer content.
    let (reasoning, content, calls2) = split_tool_calls(String::new(), text.to_string());
    assert_eq!(reasoning, "");
    assert_eq!(content, "Let me check the README.");
    assert_eq!(calls2.len(), 1);

    // Multiple calls.
    let multi = "<tool_call>\n<function=a>\n<parameter=k>\n1\n</parameter>\n</function>\n</tool_call>\n<tool_call>\n<function=b>\n<parameter=k>\n2\n</parameter>\n</function>\n</tool_call>";
    let calls3 = parse_tool_calls(multi);
    assert_eq!(calls3.len(), 2);
    assert_eq!(calls3[0].name, "a");
    assert_eq!(calls3[1].name, "b");

    // Non-JSON scalar args are coerced to strings, numbers to numbers.
    let num = "<tool_call>\n<function=f>\n<parameter=n>\n42\n</parameter>\n</function>\n</tool_call>";
    let calls4 = parse_tool_calls(num);
    assert_eq!(calls4[0].arguments["n"], Value::from(42));
}

#[test]
fn splits_thinking_block() {
    let tok = load();
    let (reasoning, answer) = tok.split_thinking("I should think.\n</think>\n\n42", true);
    assert_eq!(reasoning, "I should think.");
    assert_eq!(answer, "42");

    let (reasoning, answer) = tok.split_thinking("just the answer", false);
    assert_eq!(reasoning, "");
    assert_eq!(answer, "just the answer");
}

#[test]
fn thinking_that_has_not_ended() {
    let (reasoning, answer) = split_thinking("still at it", true);
    assert_eq!(answer, "");
    assert_eq!(reasoning, "still at it");
    let (reasoning, answer) = split_thinking("a</think>b</think>c", true);
    assert_eq!(reasoning, "a");
    assert_eq!(answer, "b</think>c");
}

#[test]
fn a_line_of_its_own_closes_the_reasoning() {
    let split = |text: &str| {
        let (reasoning, answer) = load().split_thinking(text, true);
        assert_eq!(split_thinking(text, true), (reasoning.clone(), answer.clone()));
        (reasoning, answer)
    };
    let pair = |reasoning: &str, answer: &str| (reasoning.to_string(), answer.to_string());
    assert_eq!(split("r\n response\n\na"), pair("r", "a"));
    assert_eq!(split(" r \n response\na\n response\nb"), pair("r", "a\n response\nb"));
    assert_eq!(split(" response\n\na"), pair("", "a"));
    assert_eq!(split("r\n response"), pair("r", ""));
    assert_eq!(split("r\n response\n</think>\n\na"), pair("r\n response", "a"));
    for open in ["r response", "r\nresponse\na", "r\n responses\na", "r\n response a", "r\n  response\n"]
    {
        assert_eq!(split(open), pair(open.trim(), ""), "{open}");
    }
    assert_eq!(split_thinking("r\n response\n\na", false), pair("", "r\n response\n\na"));
}

#[test]
fn blocks_are_found_between_tags() {
    assert_eq!(between_all("a[x]b[y]c[z", "[", "]"), vec!["x", "y"]);
    assert_eq!(between("a[x]b[y]", "[", "]").as_deref(), Some("x"));
    assert_eq!(between("a]b[", "[", "]"), None);
    assert_eq!(between("ab", "[", "]"), None);
}

#[test]
fn arguments_are_read_as_json_or_text() {
    assert_eq!(coerce_arg(" 3 "), Value::from(3));
    assert_eq!(coerce_arg("true"), Value::Bool(true));
    assert_eq!(coerce_arg("\"q\""), Value::String("q".into()));
    assert_eq!(coerce_arg(" a b "), Value::String("a b".into()));
    assert_eq!(coerce_arg("[1,2]"), Value::Array(vec![Value::from(1), Value::from(2)]));
    assert_eq!(
        extract_parameters("<parameter= a >\n 1 \n</parameter><parameter=>x</parameter>"),
        vec![("a".to_string(), "1".to_string())]
    );
}

#[test]
fn last_value_of_a_parameter_counts() {
    let text = "<tool_call><function=f><parameter=k>1</parameter><parameter=b>x</parameter>\
                <parameter=k>2</parameter></function></tool_call>";
    let calls = parse_tool_calls(text);
    assert_eq!(calls[0].arguments["k"], Value::from(2));
    assert_eq!(calls[0].arguments["b"], Value::String("x".into()));
}

#[test]
fn text_without_a_whole_call_stays() {
    for text in ["plain <tool_call> text", "<tool_call>\nno function\n</tool_call>", ""] {
        let (_, content, calls) = split_tool_calls("r".into(), text.to_string());
        assert_eq!(content, text);
        assert!(calls.is_empty());
    }
}

fn call(name: &str, pairs: &[(&str, Value)]) -> ChatToolCall {
    let mut map = serde_json::Map::new();
    for (key, value) in pairs {
        map.insert(key.to_string(), value.clone());
    }
    ChatToolCall { name: name.to_string(), arguments: Value::Object(map) }
}

#[test]
fn calls_of_a_turn_are_read_back() {
    let calls = vec![
        call("read", &[("path", Value::String("/a b".into())), ("depth", Value::from(3))]),
        call("list", &[]),
        call("set", &[("list", Value::Array(vec![Value::Null, Value::Bool(false)]))]),
        call("write", &[("text", Value::String("if a < b {\n<parameter=c>\n}".into()))]),
    ];
    for content in ["", "I will look.", "Where a < b, I call </tool_call>."] {
        let message = ChatMessage::assistant_with_tool_calls(content, calls.clone());
        let messages = vec![ChatMessage::new("user", "q"), message];
        let prompt =
            template::apply_chat_template(&messages, false, Some("medium"), &[], false).unwrap();
        let turn = prompt.rsplit("<|im_start|>assistant\n").next().unwrap();
        let turn = turn.strip_suffix("<|im_end|>\n").unwrap();
        let answer = turn.rsplit(" response\n\n").next().unwrap();
        let (_, read, back) = split_tool_calls(String::new(), answer.to_string());
        assert_eq!(read, content);
        assert_eq!(back.len(), calls.len());
        for (one, other) in back.iter().zip(&calls) {
            assert_eq!(one.name, other.name);
            assert_eq!(one.arguments, other.arguments);
        }
    }
}

/// The tokens of the model that occur in a prompt.
const WORDS: [(&str, u32); 48] = [
    ("<|im_start|>", 248045),
    ("<|im_end|>", 248046),
    (" thinking", 248068),
    ("system", 8678),
    ("user", 846),
    ("assistant", 74455),
    ("\n", 198),
    ("\n\n", 271),
    (".", 13),
    (",", 11),
    ("?", 30),
    ("+", 10),
    ("2", 17),
    (" ", 220),
    ("Reason", 24342),
    ("ing", 286),
    (" effort", 4879),
    (" is", 369),
    (" set", 716),
    (" to", 310),
    (" x", 830),
    ("high", 11553),
    (" Please", 5044),
    (" think", 1683),
    (" carefully", 15060),
    (" through", 1472),
    (" the", 279),
    (" task", 3274),
    (" validate", 9307),
    (" key", 1328),
    (" assumptions", 30800),
    (" consider", 2814),
    (" plausible", 47675),
    (" alternatives", 25605),
    (" and", 321),
    (" prioritize", 60445),
    (" correctness", 55404),
    (" consistency", 27224),
    (" clarity", 30246),
    (" in", 303),
    (" final", 1534),
    (" answer", 4087),
    ("You", 2523),
    (" are", 513),
    (" a", 264),
    (" helpful", 10631),
    (" assistant", 17313),
    ("What", 3710),
];

#[test]
fn chat_template_matches_transformers_reference() {
    let tokens: Vec<(String, u32)> =
        WORDS.iter().map(|(word, id)| (word.to_string(), *id)).collect();
    let file = tokenizer_file(&tokens, &WORDS);
    let tok = ChatTokenizer::load("tokenizer.json", &file).unwrap_or_else(|m| panic!("{m}"));
    let messages = vec![
        ChatMessage::new("system", "You are a helpful assistant."),
        ChatMessage::new("user", "What is 2+2?"),
    ];
    let prompt = tok.apply_chat_template(&messages, true, None, &[], true).unwrap();
    let ids = tok.encode(&prompt).unwrap();
    let expected: Vec<u32> = vec![
        248045, 8678, 198, 24342, 286, 4879, 369, 716, 310, 830, 11553, 13, 5044, 1683, 15060,
        1472, 279, 3274, 11, 9307, 1328, 30800, 11, 2814, 47675, 25605, 11, 321, 60445, 55404,
        11, 27224, 11, 321, 30246, 303, 279, 1534, 4087, 13, 271, 2523, 513, 264, 10631, 17313,
        13, 248046, 198, 248045, 846, 198, 3710, 369, 220, 17, 10, 17, 30, 248046, 198, 248045,
        74455, 198, 248068, 198,
    ];
    assert_eq!(ids, expected, "chat template token ids must match transformers");
}

#[test]
fn conversation_becomes_a_prompt() {
    let messages = vec![
        ChatMessage::new("system", "You are a helpful assistant."),
        ChatMessage::new("user", "What is 2+2?"),
    ];
    let tok = load();
    let prompt = tok.apply_chat_template(&messages, true, None, &[], true).unwrap();
    let effort = "Reasoning effort is set to xhigh. Please think carefully through the task, \
                  validate key assumptions, consider plausible alternatives, and prioritize \
                  correctness, consistency, and clarity in the final answer.";
    assert_eq!(
        prompt,
        format!(
            "<|im_start|>system\n{effort}\n\nYou are a helpful assistant.<|im_end|>\n\
             <|im_start|>user\nWhat is 2+2?<|im_end|>\n<|im_start|>assistant\n thinking\n"
        )
    );
    let alone = tok.apply_chat_template(&messages, true, None, &[], false).unwrap();
    assert!(prompt.starts_with(&alone));
    let quiet = tok.apply_chat_template(&messages[1..], false, None, &[], true).unwrap();
    assert_eq!(
        quiet,
        "<|im_start|>user\nWhat is 2+2?<|im_end|>\n<|im_start|>assistant\n thinking\n\n response\n\n"
    );
}

#[test]
fn tools_go_to_the_system_turn() {
    let messages = vec![ChatMessage::new("user", " hi ")];
    let tools = vec!["{\"a\":1}".to_string(), "{\"b\":2}".to_string()];
    let prompt =
        template::apply_chat_template(&messages, true, Some("low"), &tools, false).unwrap();
    assert!(prompt.starts_with("<|im_start|>system\nReasoning effort is set to low."));
    assert!(prompt.contains("<tools>\n{\"a\":1}\n{\"b\":2}\n</tools>"));
    assert!(prompt.ends_with("</IMPORTANT><|im_end|>\n<|im_start|>user\nhi<|im_end|>\n"));
}

#[test]
fn tool_answers_share_a_turn() {
    let messages = vec![
        ChatMessage::new("user", "q"),
        ChatMessage::assistant_with_tool_calls("", vec![call("f", &[])]),
        ChatMessage::new("tool", "one"),
        ChatMessage::new("tool", "two"),
        ChatMessage::new("user", "more"),
    ];
    let prompt =
        template::apply_chat_template(&messages, false, Some("medium"), &[], false).unwrap();
    assert!(prompt.contains(
        "<|im_start|>user\n<tool_response>\none\n</tool_response>\n<tool_response>\ntwo\n\
         </tool_response><|im_end|>\n<|im_start|>user\nmore<|im_end|>\n"
    ));
}

#[test]
fn conversations_that_make_no_prompt() {
    let prompt = |messages: &[ChatMessage], effort: Option<&str>| {
        template::apply_chat_template(messages, true, effort, &[], true)
    };
    assert!(prompt(&[], None).is_err());
    assert!(prompt(&[ChatMessage::new("user", "q")], Some("huge")).is_err());
    let strange = vec![ChatMessage::new("user", "q"), ChatMessage::new("robot", "x")];
    let message = prompt(&strange, None).unwrap_err();
    assert!(message.contains("robot"), "{message}");
}

#[test]
fn json_values_are_reached() {
    let text = "{\"b\":[1,\"x\"],\"a\":{\"k\":null}}";
    let value = coerce_arg(text);
    assert_eq!(value.to_string(), "{\"a\":{\"k\":null},\"b\":[1,\"x\"]}");
    let _ = json::JsonView::Null;
}
