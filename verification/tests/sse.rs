use agent_core::llm::sse::SseParser;

fn one_shot(text: &str) -> Vec<String> {
    let mut parser = SseParser::new();
    let mut out = parser.push(text.as_bytes());
    out.extend(parser.finish());
    out
}

fn chunked(chunks: &[&[u8]]) -> Vec<String> {
    let mut parser = SseParser::new();
    let mut out = Vec::new();
    for chunk in chunks {
        out.extend(parser.push(chunk));
    }
    out.extend(parser.finish());
    out
}

#[test]
fn parses_basic_event() {
    assert_eq!(one_shot("data: hello\n\n"), vec!["hello"]);
}

#[test]
fn parses_multiple_events_in_one_chunk() {
    assert_eq!(one_shot("data: a\n\ndata: b\n\n"), vec!["a", "b"]);
}

#[test]
fn joins_multi_data_lines_with_newline() {
    assert_eq!(
        one_shot("data: line1\ndata: line2\n\n"),
        vec!["line1\nline2"]
    );
}

#[test]
fn handles_crlf_line_endings() {
    assert_eq!(one_shot("data: a\r\n\r\ndata: b\r\n\r\n"), vec!["a", "b"]);
}

#[test]
fn strips_at_most_one_space_after_colon() {
    assert_eq!(one_shot("data:  two spaces\n\n"), vec![" two spaces"]);
    assert_eq!(one_shot("data:no-space\n\n"), vec!["no-space"]);
}

#[test]
fn ignores_comments_and_unknown_fields() {
    let input = ": keep-alive\nevent: delta\nid: 7\nretry: 1000\ndata: payload\n\n";
    assert_eq!(one_shot(input), vec!["payload"]);
}

#[test]
fn bare_data_field_without_colon_is_an_empty_value() {
    assert_eq!(one_shot("data\n\n"), vec![""]);
}

#[test]
fn splits_events_across_chunks() {
    assert_eq!(
        chunked(&[b"data: hel", b"lo\n", b"\ndata: ", b"world\n\n"]),
        vec!["hello", "world"]
    );
}

#[test]
fn survives_multibyte_char_split_across_chunks() {
    let text = "data: hé\n\n";
    let bytes = text.as_bytes();
    let split = bytes.len() - 2;
    assert_eq!(chunked(&[&bytes[..split], &bytes[split..]]), vec!["hé"]);
    // In the middle of the character as well.
    let split = bytes.len() - 3;
    assert_eq!(chunked(&[&bytes[..split], &bytes[split..]]), vec!["hé"]);
}

#[test]
fn done_sentinel_is_just_a_payload() {
    assert_eq!(one_shot("data: [DONE]\n\n"), vec!["[DONE]"]);
}

#[test]
fn finish_flushes_event_without_trailing_newline() {
    let mut parser = SseParser::new();
    assert!(parser.push(b"data: tail").is_empty());
    assert_eq!(parser.finish(), vec!["tail"]);
}

#[test]
fn finish_flushes_event_with_newline_but_no_blank_line() {
    let mut parser = SseParser::new();
    assert!(parser.push(b"data: tail\n").is_empty());
    assert_eq!(parser.finish(), vec!["tail"]);
}

#[test]
fn finish_on_empty_stream_is_quiet() {
    let mut parser = SseParser::new();
    assert!(parser.finish().is_empty());
}

#[test]
fn strips_leading_bom() {
    let mut parser = SseParser::new();
    let out = parser.push("\u{FEFF}data: b\n\n".as_bytes());
    assert_eq!(out, vec!["b"]);
}

#[test]
fn strips_a_bom_split_across_chunks() {
    // A 1-2 byte first chunk must not leak BOM bytes into the first line.
    let bytes = "\u{FEFF}data: b\n\n".as_bytes();
    for split in 1..3 {
        let mut parser = SseParser::new();
        let mut out = parser.push(&bytes[..split]);
        out.extend(parser.push(&bytes[split..]));
        out.extend(parser.finish());
        assert_eq!(out, vec!["b"], "split after {split} byte(s)");
    }
}

#[test]
fn a_short_first_chunk_is_held_until_it_can_be_decided() {
    let mut parser = SseParser::new();
    // Two bytes without a newline cannot form an event; hold them.
    assert!(parser.push(b"da").is_empty());
    assert_eq!(parser.push(b"ta: x\n\n"), vec!["x"]);
}

#[test]
fn ignores_garbage_between_events() {
    let input = "data: ok\n\nsome random noise\ndata: more\n\n";
    assert_eq!(one_shot(input), vec!["ok", "more"]);
}

#[test]
fn every_split_of_a_stream_gives_the_same_events() {
    let bytes = "\u{FEFF}data: hé\r\ndata: x\r\n\r\n: c\ndata:y\n\ndata: tail".as_bytes();
    let whole = chunked(&[bytes]);
    assert_eq!(whole, vec!["hé\nx", "y", "tail"]);
    for split in 0..bytes.len() + 1 {
        assert_eq!(chunked(&[&bytes[..split], &bytes[split..]]), whole, "split at {split}");
    }
}

#[test]
fn bytes_that_are_no_utf8_are_replaced() {
    assert_eq!(chunked(&[b"data: a\xFFb\n\n"]), vec!["a\u{FFFD}b"]);
}
