use deepseek_api::stream::{decode_chunks, DecodeError, Pull, StreamState};

#[derive(Debug, PartialEq)]
struct TestData {
    id: String,
    value: u32,
}

fn decode_test_data(s: &str) -> Result<TestData, String> {
    let v: serde_json::Value = serde_json::from_str(s).map_err(|e| e.to_string())?;
    let id = v
        .get("id")
        .and_then(|x| x.as_str())
        .ok_or_else(|| "missing field `id`".to_string())?
        .to_string();
    let value = v
        .get("value")
        .and_then(|x| x.as_u64())
        .ok_or_else(|| "missing field `value`".to_string())?;
    Ok(TestData { id, value: value as u32 })
}

fn chunks(parts: &[&str]) -> Vec<Vec<u8>> {
    parts.iter().map(|p| p.as_bytes().to_vec()).collect()
}

fn decode(parts: &[&str]) -> Vec<Result<TestData, DecodeError>> {
    decode_chunks(&chunks(parts), &decode_test_data)
}

fn data(id: &str, value: u32) -> TestData {
    TestData { id: id.into(), value }
}

#[test]
fn json_stream_test_normal_sse_stream() {
    let results: Vec<TestData> = decode(&[
        "data: {\"id\":\"1\",\"value\":100}\n",
        "data: {\"id\":\"2\",\"value\":200}\n",
    ])
    .into_iter()
    .map(|item| item.unwrap())
    .collect();
    assert_eq!(results, vec![data("1", 100), data("2", 200)]);
}

#[test]
fn json_stream_test_chunked_data() {
    let mut items = decode(&["data: {\"id\":\"3\",\"", "value\":300}\n"]).into_iter();
    assert_eq!(items.next().unwrap().unwrap(), data("3", 300));
    assert!(items.next().is_none());
}

#[test]
fn json_stream_test_empty_lines_and_done() {
    let mut items = decode(&[
        "\n",
        "data: {\"id\":\"4\",\"value\":400}\n",
        "data: [DONE]\n",
        "data: {\"id\":\"5\",\"value\":500}\n",
    ])
    .into_iter();
    assert_eq!(items.next().unwrap().unwrap(), data("4", 400));
    assert!(items.next().is_none());
}

#[test]
fn json_stream_test_invalid_prefix() {
    let mut items = decode(&["invalid data\n"]).into_iter();
    let err = items.next().unwrap().unwrap_err();
    assert!(err.to_string().contains("Missing 'data: ' prefix"));
    assert_eq!(err, DecodeError::Format("invalid data".to_string()));
}

#[test]
fn json_stream_test_malformed_json() {
    let mut items = decode(&["data: {invalid}\n"]).into_iter();
    let err = items.next().unwrap().unwrap_err();
    match err {
        DecodeError::Syntax { payload, reason } => {
            assert_eq!(payload, "{invalid}");
            assert!(serde_json::from_str::<serde_json::Value>("{invalid}").is_err());
            assert!(!reason.is_empty());
        }
        other => panic!("expected a syntax error, got {:?}", other),
    }
    assert!(items.next().is_none());
}

#[test]
fn chunked_same_as_single_chunk() {
    let whole = decode(&["data: {\"id\":\"3\",\"value\":300}\n"]);
    let split = decode(&["data: {\"id\":\"3\",\"", "value\":300}\n"]);
    assert_eq!(whole, split);
    assert_eq!(whole, vec![Ok(data("3", 300))]);
}

#[test]
fn every_split_offset_gives_same_items() {
    let input = "\n: keep-alive\ndata: {\"id\":\"1\",\"value\":1}\r\nnoise\ndata: {bad}\ndata: {\"id\":\"2\",\"value\":2}\ndata: [DONE]\ndata: {\"id\":\"9\",\"value\":9}\n";
    let expected = decode(&[input]);
    assert_eq!(expected.len(), 4);
    let bytes = input.as_bytes();
    for i in 0..=bytes.len() {
        for j in i..=bytes.len() {
            let parts = vec![bytes[..i].to_vec(), bytes[i..j].to_vec(), bytes[j..].to_vec()];
            assert_eq!(decode_chunks(&parts, &decode_test_data), expected, "split at {} and {}", i, j);
        }
    }
}

#[test]
fn byte_by_byte_chunks() {
    let input = "data: {\"id\":\"7\",\"value\":70}\ndata: {\"id\":\"8\",\"value\":80}";
    let parts: Vec<Vec<u8>> = input.bytes().map(|b| vec![b]).collect();
    assert_eq!(
        decode_chunks(&parts, &decode_test_data),
        vec![Ok(data("7", 70)), Ok(data("8", 80))]
    );
}

#[test]
fn terminator_ends_even_with_more_bytes_later() {
    let mut state = StreamState::new();
    state.feed(b"data: {\"id\":\"4\",\"value\":400}\ndata: [DONE]\n");
    assert!(matches!(state.pull(&decode_test_data), Pull::Item(Ok(ref d)) if *d == data("4", 400)));
    assert!(matches!(state.pull(&decode_test_data), Pull::Ended));
    state.feed(b"data: {\"id\":\"5\",\"value\":500}\n");
    assert!(matches!(state.pull(&decode_test_data), Pull::Ended));
    state.end_of_source();
    assert!(matches!(state.pull(&decode_test_data), Pull::Ended));
}

#[test]
fn keep_alive_and_blank_lines_are_skipped() {
    let with_skips = decode(&[
        "\n   \n: keep-alive\n",
        "data: {\"id\":\"1\",\"value\":1}\n",
        "\t\n: keep-alive\n\n",
        "data: {\"id\":\"2\",\"value\":2}\n",
    ]);
    let without = decode(&[
        "data: {\"id\":\"1\",\"value\":1}\n",
        "data: {\"id\":\"2\",\"value\":2}\n",
    ]);
    assert_eq!(with_skips, without);
    assert_eq!(with_skips, vec![Ok(data("1", 1)), Ok(data("2", 2))]);
}

#[test]
fn syntax_error_does_not_halt_decoding() {
    let items = decode(&[
        "data: {invalid}\n",
        "data: {\"id\":\"6\",\"value\":600}\n",
    ]);
    assert_eq!(items.len(), 2);
    assert!(matches!(&items[0], Err(DecodeError::Syntax { payload, .. }) if payload == "{invalid}"));
    assert_eq!(items[1], Ok(data("6", 600)));
}

#[test]
fn wrong_shape_is_a_syntax_error() {
    let items = decode(&["data: {\"id\":4}\n"]);
    assert!(matches!(&items[0], Err(DecodeError::Syntax { payload, .. }) if payload == "{\"id\":4}"));
}

#[test]
fn missing_prefix_yields_format_error_and_continues() {
    let items = decode(&[
        "data:{\"id\":\"1\",\"value\":1}\n",
        "event: message\n",
        "data: {\"id\":\"2\",\"value\":2}\n",
    ]);
    assert_eq!(
        items,
        vec![
            Err(DecodeError::Format("data:{\"id\":\"1\",\"value\":1}".to_string())),
            Err(DecodeError::Format("event: message".to_string())),
            Ok(data("2", 2)),
        ]
    );
}

#[test]
fn last_line_without_newline_is_decoded_at_end() {
    let items = decode(&["data: {\"id\":\"1\",\"value\":1}"]);
    assert_eq!(items, vec![Ok(data("1", 1))]);
}

#[test]
fn pull_needs_more_until_line_completes() {
    let mut state = StreamState::new();
    state.feed(b"data: {\"id\":\"3\",\"");
    assert!(matches!(state.pull(&decode_test_data), Pull::NeedMore));
    state.feed(b"value\":300}");
    assert!(matches!(state.pull(&decode_test_data), Pull::NeedMore));
    state.feed(b"\n");
    assert!(matches!(state.pull(&decode_test_data), Pull::Item(Ok(ref d)) if *d == data("3", 300)));
    assert!(matches!(state.pull(&decode_test_data), Pull::NeedMore));
    state.end_of_source();
    assert!(matches!(state.pull(&decode_test_data), Pull::Ended));
}

#[test]
fn empty_input_and_empty_chunks() {
    assert!(decode(&[]).is_empty());
    assert!(decode(&["", "", ""]).is_empty());
    assert_eq!(
        decode(&["", "data: {\"id\":\"1\",\"value\":1}\n", ""]),
        vec![Ok(data("1", 1))]
    );
}

#[test]
fn transport_failure_is_the_last_item() {
    let mut state = StreamState::new();
    state.feed(b"data: {\"id\":\"1\",\"value\":1}\ndata: {\"id\"");
    assert!(matches!(state.pull(&decode_test_data), Pull::Item(Ok(_))));
    assert!(matches!(state.pull(&decode_test_data), Pull::NeedMore));
    let failure: Pull<TestData> = state.transport_failure("connection reset".to_string());
    match failure {
        Pull::Item(Err(DecodeError::Transport(reason))) => assert_eq!(reason, "connection reset"),
        other => panic!("expected a transport error, got {:?}", other),
    }
    assert!(matches!(state.pull(&decode_test_data), Pull::Ended));
    let again: Pull<TestData> = state.transport_failure("again".to_string());
    assert!(matches!(again, Pull::Ended));
}

#[test]
fn invalid_utf8_line_is_reported_and_skipped_past() {
    let parts = vec![
        vec![b'd', b'a', 0xff, b'\n'],
        b"data: {\"id\":\"1\",\"value\":1}\n".to_vec(),
    ];
    let items = decode_chunks(&parts, &decode_test_data);
    assert_eq!(
        items,
        vec![Err(DecodeError::InvalidUtf8(vec![b'd', b'a', 0xff])), Ok(data("1", 1))]
    );
}

#[test]
fn multibyte_character_split_across_chunks() {
    let input = "data: {\"id\":\"é中\",\"value\":5}\n".as_bytes();
    let cut = input.iter().position(|&b| b == 0xc3).unwrap() + 1;
    let parts = vec![input[..cut].to_vec(), input[cut..].to_vec()];
    assert_eq!(decode_chunks(&parts, &decode_test_data), vec![Ok(data("é中", 5))]);
}

#[test]
fn error_messages() {
    assert_eq!(
        DecodeError::Format("x".to_string()).to_string(),
        "x Missing 'data: ' prefix"
    );
    assert_eq!(
        DecodeError::Syntax { payload: "{a}".to_string(), reason: "bad".to_string() }.to_string(),
        "jsonstr: {a} reason bad"
    );
    assert_eq!(DecodeError::Transport("reset".to_string()).to_string(), "reset");
    assert_eq!(
        DecodeError::InvalidUtf8(vec![0xff]).to_string(),
        "stream did not contain valid UTF-8"
    );
}
