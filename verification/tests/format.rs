//! Weight files: element types, shards, and the index of tensors.

use lisa_rs::format::dtype::{bf16_to_f32, dtype_from_name, f32_to_bf16, find_dtype, Dtype};
use lisa_rs::format::safetensor::{data_bytes, open, parse_header, read_u64_le, shape_of, try_open};
use lisa_rs::format::shards::{has_safetensors, holds_weights, shard_names};
use lisa_rs::model::weights::{IndexError, WeightIndex};

fn file(header: &str, data: &[u8]) -> Vec<u8> {
    let mut file = Vec::<u8>::new();
    file.extend_from_slice(&header.len().to_le_bytes());
    file.extend_from_slice(header.as_bytes());
    file.extend_from_slice(data);
    file
}

fn s(input: &[&str]) -> Vec<String> {
    input.iter().map(|a| a.to_string()).collect()
}

#[test]
fn parses_synthetic_shard() {
    // two tensors tile a 40-byte data region exactly
    let header = r#"{"a":{"dtype":"F32","shape":[2,3],"data_offsets":[0,24]},"b":{"dtype":"BF16","shape":[8],"data_offsets":[24,40]}}"#;
    let file = file(header, &[0u8; 40]);
    let shard = open(&file);
    let hl: u64 = u64::try_from(header.len()).expect("hl");
    let base: u64 = 8 + hl;
    assert_eq!(shard.tensors.len(), 2, "expected 2 tensors");
    let a = shard
        .tensors
        .iter()
        .find(|t| t.name == "a")
        .expect("tensor a");
    assert_eq!(a.off, base);
    assert_eq!(a.len, 24);
    let b = shard
        .tensors
        .iter()
        .find(|t| t.name == "b")
        .expect("tensor b");
    assert_eq!(b.off, base + 24);
    assert_eq!(b.len, 16);
}

#[test]
fn shard_keeps_what_the_header_says() {
    let header = r#"{"__metadata__":{"format":"mlx"},"w":{"dtype":"U32","shape":[1,2],"data_offsets":[0,8]}}"#;
    let file = file(header, &[1, 2, 3, 4, 5, 6, 7, 8]);
    let shard = try_open(&file).expect("shard");
    assert_eq!(shard.tensors.len(), 1);
    assert_eq!(shard.tensors[0].dtype, Dtype::U32);
    assert_eq!(shard.tensors[0].shape, vec![1, 2]);
    assert_eq!(shard.data_len, 8);
    assert_eq!(data_bytes(&shard), &[1, 2, 3, 4, 5, 6, 7, 8]);
    assert_eq!(read_u64_le(&file, 0), header.len() as u64);
}

#[test]
fn files_that_are_no_shards() {
    assert!(try_open(&[]).is_none());
    assert!(try_open(&[9, 0, 0, 0, 0, 0, 0, 0, b'{']).is_none());
    for header in [
        "",
        "[]",
        "{",
        r#"{"a":1}"#,
        r#"{"a":{"dtype":"F33","shape":[],"data_offsets":[0,0]}}"#,
        r#"{"a":{"dtype":"F32","shape":[-1],"data_offsets":[0,0]}}"#,
        r#"{"a":{"dtype":"F32","shape":[1.5],"data_offsets":[0,0]}}"#,
        r#"{"a":{"dtype":"F32","shape":[],"data_offsets":[0]}}"#,
        r#"{"a":{"dtype":"F32","shape":[],"data_offsets":[4,0]}}"#,
        r#"{"a":{"dtype":"F32","data_offsets":[0,0]}}"#,
    ] {
        assert!(try_open(&file(header, &[])).is_none(), "{header}");
        assert!(parse_header(header.as_bytes(), 8).is_none(), "{header}");
    }
}

#[test]
fn shapes_are_read() {
    let meta: serde_json::Value = serde_json::from_str(r#"{"shape":[3,0,7]}"#).unwrap();
    assert_eq!(shape_of(&meta), Some(vec![3, 0, 7]));
    assert_eq!(shape_of(&serde_json::Value::Null), None);
}

#[test]
fn element_types_have_names() {
    for (name, dtype) in [
        ("BOOL", Dtype::Bool),
        ("U8", Dtype::U8),
        ("U16", Dtype::U16),
        ("I16", Dtype::I16),
        ("F16", Dtype::F16),
        ("BF16", Dtype::BF16),
        ("U32", Dtype::U32),
        ("I32", Dtype::I32),
        ("F32", Dtype::F32),
        ("U64", Dtype::U64),
        ("F64", Dtype::F64),
    ] {
        assert_eq!(dtype_from_name(name), dtype);
        assert_eq!(find_dtype(name), Some(dtype));
        assert_eq!(dtype.label(), format!("{dtype:?}"));
    }
    assert_eq!(find_dtype("bf16"), None);
}

#[test]
fn numbers_are_halved_and_widened() {
    for value in [0.0f32, 1.0, -2.5, 3.14159, f32::MAX, f32::NEG_INFINITY] {
        let half = f32_to_bf16(value.to_bits());
        let wide = f32::from_bits(bf16_to_f32(half));
        assert_eq!(f32_to_bf16(wide.to_bits()), half);
        assert!((wide - value).abs() <= value.abs() / 64.0 || wide == value);
    }
    assert_eq!(f32_to_bf16(1.0f32.to_bits()), 0x3f80);
    assert_eq!(bf16_to_f32(0x4049), 0x4049_0000);
}

#[test]
fn tensors_are_indexed() {
    let first = file(
        r#"{"a":{"dtype":"U8","shape":[2,3],"data_offsets":[0,6]},"b":{"dtype":"U8","shape":[1],"data_offsets":[6,7]}}"#,
        &[10, 11, 12, 20, 21, 22, 30],
    );
    let second = file(r#"{"c":{"dtype":"BF16","shape":[2],"data_offsets":[1,5]}}"#, &[0, 1, 2, 3, 4]);
    let files: Vec<&[u8]> = vec![&first, &second];
    let index = WeightIndex::try_open(&files).ok().expect("index");
    assert_eq!(index.len(), 3);
    assert!(!index.is_empty());
    assert_eq!(index.shard_count(), 2);
    assert_eq!(index.shard_bytes(1), Some(&[0, 1, 2, 3, 4][..]));
    assert_eq!(index.shard_bytes(2), None);
    let slot = index.slot("c").expect("slot");
    assert_eq!((slot.shard, slot.offset, slot.len), (1, 1, 4));
    assert_eq!(slot.dtype, Dtype::BF16);
    assert_eq!(slot.shape, vec![2]);
    assert_eq!(index.bytes("b"), Some(&[30][..]));
    assert_eq!(index.bytes("d"), None);
    assert_eq!(index.rows("a", 1, 1), Some(&[20, 21, 22][..]));
    assert_eq!(index.rows("a", 0, 2), Some(&[10, 11, 12, 20, 21, 22][..]));
    assert_eq!(index.rows("a", 1, 2), None);

    let twice: Vec<&[u8]> = vec![&first, &first];
    assert_eq!(WeightIndex::try_open(&twice).err(), Some(IndexError::Duplicate));
    let broken: Vec<&[u8]> = vec![&first, &[1]];
    assert_eq!(WeightIndex::try_open(&broken).err(), Some(IndexError::NoShard));
    let alone: Vec<&[u8]> = vec![&first];
    assert!(WeightIndex::try_open(&alone).is_ok());
    assert_eq!(WeightIndex::open(&alone).len(), 2);
}

#[test]
fn tensors_that_do_not_fit_the_data_are_refused() {
    let none = file("{}", &[]);
    let error = |header: &str, data: &[u8]| {
        let shard = file(header, data);
        let alone = WeightIndex::try_open(&[&shard]).err();
        let beside = WeightIndex::try_open(&[&none, &shard]).err();
        (alone, beside)
    };
    let both = |error: IndexError| (Some(error), Some(error));
    let tensor = |dtype: &str, shape: &str, start: u64, end: u64| {
        format!(
            r#"{{"dtype":"{dtype}","shape":{shape},"data_offsets":[{start},{end}]}}"#
        )
    };
    let one = |dtype: &str, shape: &str, start: u64, end: u64| {
        format!(r#"{{"a":{}}}"#, tensor(dtype, shape, start, end))
    };

    assert_eq!(error(&one("F32", "[2,3]", 0, 24), &[0; 24]), (None, None));
    assert_eq!(error(&one("F32", "[]", 0, 4), &[0; 4]), (None, None));
    assert_eq!(error(&one("F64", "[0,9]", 0, 0), &[]), (None, None));
    assert_eq!(error("{}", &[]), (None, None));
    for (dtype, width) in [("BOOL", 1), ("BF16", 2), ("I32", 4), ("U64", 8)] {
        assert_eq!(error(&one(dtype, "[1]", 0, width), &[0; 8][..width as usize]), (None, None));
    }

    // Behind the end of the data, or not as long as the elements are.
    let misplaced = both(IndexError::Misplaced);
    assert_eq!(error(&one("F32", "[2,3]", 0, 24), &[0; 23]), misplaced);
    assert_eq!(error(&one("U8", "[1]", 9, 10), &[0; 9]), misplaced);
    assert_eq!(error(&one("F32", "[2,3]", 0, 23), &[0; 24]), misplaced);
    assert_eq!(error(&one("BF16", "[2,3]", 0, 24), &[0; 24]), misplaced);
    assert_eq!(error(&one("F32", "[0]", 0, 4), &[0; 4]), misplaced);
    assert_eq!(error(&one("U8", "[4294967296,4294967296]", 0, 0), &[]), misplaced);
    assert_eq!(error(&one("U64", "[2305843009213693952]", 0, 0), &[]), misplaced);
    let last = 9223372036854775807;
    assert_eq!(error(&one("U8", "[9223372036854775807]", 0, last), &[0; 4]), misplaced);
    assert_eq!(error(&one("U8", "[0]", last, last), &[0; 4]), misplaced);

    // A gap at the front, between, at the end; an overlap. One file alone has none.
    let two = |a: (u64, u64), b: (u64, u64)| {
        let shape = |(start, end): (u64, u64)| format!("[{}]", end - start);
        format!(
            r#"{{"a":{},"b":{}}}"#,
            tensor("U8", &shape(a), a.0, a.1),
            tensor("U8", &shape(b), b.0, b.1)
        )
    };
    assert_eq!(error(&two((0, 3), (3, 8)), &[0; 8]), (None, None));
    assert_eq!(error(&two((3, 8), (0, 3)), &[0; 8]), (None, None));
    assert_eq!(error(&two((0, 8), (4, 4)), &[0; 8]), (None, None));
    let untiled = (Some(IndexError::Untiled), None);
    assert_eq!(error(&two((1, 3), (3, 8)), &[0; 8]), untiled);
    assert_eq!(error(&two((0, 3), (4, 8)), &[0; 8]), untiled);
    assert_eq!(error(&two((0, 3), (3, 7)), &[0; 8]), untiled);
    assert_eq!(error(&two((0, 4), (3, 8)), &[0; 8]), untiled);
    assert_eq!(error(&two((0, 8), (0, 8)), &[0; 8]), untiled);
    assert_eq!(error("{}", &[0]), untiled);

    assert_eq!(IndexError::NoShard.message(), "a file of weights is no safetensors file");
    assert_eq!(IndexError::Misplaced.message(), "a tensor does not fit its place in the data");
    assert_eq!(IndexError::Duplicate.message(), "a tensor is listed twice");
    assert_eq!(IndexError::Untiled.message(), "the tensors do not tile the data");
}

#[test]
fn files_with_weights_are_picked() {
    for (name, expected) in [
        ("model.safetensors", true),
        ("a.b.safetensors", true),
        (".safetensors", false),
        ("safetensors", false),
        ("model.safetensors.json", false),
        ("model.SAFETENSORS", false),
        ("x", false),
        ("", false),
    ] {
        assert_eq!(holds_weights(name), expected, "{name}");
        let std_says = std::path::Path::new(name)
            .extension()
            .is_some_and(|extension| extension == "safetensors");
        assert_eq!(holds_weights(name), std_says, "{name}");
    }
    assert!(has_safetensors(&s(&["x", "y.safetensors"])));
    assert!(!has_safetensors(&s(&["x"])));
    let names = s(&["m-2.safetensors", "config.json", "m-10.safetensors", "M.safetensors", "m-1.safetensors"]);
    assert_eq!(
        shard_names("dir", &names).unwrap(),
        s(&["M.safetensors", "m-1.safetensors", "m-10.safetensors", "m-2.safetensors"])
    );
    assert_eq!(
        shard_names("dir", &s(&["config.json"])).unwrap_err(),
        "no safetensors shards in dir"
    );
}
