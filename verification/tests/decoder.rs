use llm_chat::decoder::{classify_line, LineEvent, StreamDecoder};

fn feed_all(chunks: &[&[u8]]) -> (Vec<String>, bool) {
    let mut decoder = StreamDecoder::new();
    let mut payloads = Vec::new();
    for chunk in chunks {
        payloads.extend(decoder.feed(chunk));
    }
    (payloads, decoder.is_done())
}

#[test]
fn classify_recognises_event_lines() {
    assert!(matches!(classify_line("data: {\"a\":1}"), LineEvent::Payload(p) if p == "{\"a\":1}"));
    assert!(matches!(classify_line("  data: x\r"), LineEvent::Payload(p) if p == "x"));
    assert!(matches!(classify_line("data: "), LineEvent::Skip));
    assert!(matches!(classify_line("data:  y"), LineEvent::Payload(p) if p == " y"));
}

#[test]
fn classify_recognises_the_sentinel() {
    assert!(matches!(classify_line("data: [DONE]"), LineEvent::Done));
    assert!(matches!(classify_line("\tdata: [DONE] \r"), LineEvent::Done));
    assert!(matches!(classify_line("data: [DONE]x"), LineEvent::Payload(p) if p == "[DONE]x"));
}

#[test]
fn classify_skips_other_lines() {
    assert!(matches!(classify_line(""), LineEvent::Skip));
    assert!(matches!(classify_line("   "), LineEvent::Skip));
    assert!(matches!(classify_line(": comment"), LineEvent::Skip));
    assert!(matches!(classify_line("event: ping"), LineEvent::Skip));
    assert!(matches!(classify_line("data:{}"), LineEvent::Skip));
    assert!(matches!(classify_line("DATA: {}"), LineEvent::Skip));
}

#[test]
fn classify_trims_unicode_white_space() {
    assert!(matches!(classify_line("\u{a0}\u{2003}data: z\u{3000}"), LineEvent::Payload(p) if p == "z"));
}

#[test]
fn feed_yields_payloads_of_complete_lines() {
    let mut decoder = StreamDecoder::new();
    let out = decoder.feed(b"data: one\ndata: two\ndata: thr");
    assert_eq!(out, vec!["one".to_string(), "two".to_string()]);
    assert!(!decoder.is_done());
    let out = decoder.feed(b"ee\n");
    assert_eq!(out, vec!["three".to_string()]);
    assert_eq!(decoder.residue(), "");
}

#[test]
fn feed_keeps_an_unfinished_line() {
    let mut decoder = StreamDecoder::new();
    assert!(decoder.feed(b"data: par").is_empty());
    assert_eq!(decoder.residue(), "data: par");
    assert!(decoder.feed(b"").is_empty());
    assert_eq!(decoder.residue(), "data: par");
}

#[test]
fn feed_skips_lines_that_are_no_events() {
    let (payloads, done) = feed_all(&[b": keep-alive\n\nevent: x\ndata: a\nid: 7\n"]);
    assert_eq!(payloads, vec!["a".to_string()]);
    assert!(!done);
}

#[test]
fn feed_handles_carriage_returns() {
    let (payloads, done) = feed_all(&[b"data: a\r\ndata: b\r\n\r\ndata: [DONE]\r\n"]);
    assert_eq!(payloads, vec!["a".to_string(), "b".to_string()]);
    assert!(done);
}

#[test]
fn done_ends_decoding_whatever_follows() {
    let mut decoder = StreamDecoder::new();
    let out = decoder.feed(b"data: a\ndata: [DONE]\ndata: b\ndata: c");
    assert_eq!(out, vec!["a".to_string()]);
    assert!(decoder.is_done());
    assert_eq!(decoder.residue(), "");
    assert!(decoder.feed(b"\ndata: d\n").is_empty());
    assert!(decoder.feed(b"data: e\n").is_empty());
    assert!(decoder.is_done());
    assert_eq!(decoder.residue(), "");
}

#[test]
fn done_split_over_chunks_still_ends_decoding() {
    let (payloads, done) = feed_all(&[b"data: a\ndata: [DO", b"NE]", b"\ndata: b\n"]);
    assert_eq!(payloads, vec!["a".to_string()]);
    assert!(done);
}

#[test]
fn decoding_does_not_depend_on_chunk_boundaries() {
    let stream: &[u8] =
        "data: {\"x\":\"h\u{e9}llo\"}\n\n: note\r\ndata: second\ndata: \u{1f600}\ndata: [DONE]\ndata: late\n"
            .as_bytes();
    let (whole, whole_done) = feed_all(&[stream]);
    assert_eq!(
        whole,
        vec!["{\"x\":\"h\u{e9}llo\"}".to_string(), "second".to_string(), "\u{1f600}".to_string()]
    );
    assert!(whole_done);
    for cut in 0..=stream.len() {
        let (parts, done) = feed_all(&[&stream[..cut], &stream[cut..]]);
        assert_eq!(parts, whole, "cut at {}", cut);
        assert_eq!(done, whole_done);
    }
    let single: Vec<&[u8]> = stream.chunks(1).collect();
    let (bytewise, done) = feed_all(&single);
    assert_eq!(bytewise, whole);
    assert_eq!(done, whole_done);
    let triple: Vec<&[u8]> = stream.chunks(3).collect();
    assert_eq!(feed_all(&triple).0, whole);
}

#[test]
fn malformed_utf8_is_replaced_not_refused() {
    let mut decoder = StreamDecoder::new();
    let out = decoder.feed(b"data: a\xffb\n");
    assert_eq!(out, vec!["a\u{fffd}b".to_string()]);
    let out = decoder.feed(b"data: \xe2\x82\n");
    assert_eq!(out, vec!["\u{fffd}".to_string()]);
}

#[test]
fn finish_hands_out_the_residue_and_ends() {
    let mut decoder = StreamDecoder::new();
    decoder.feed(b"data: a\n{\"usage\":{}}");
    assert_eq!(decoder.finish(), "{\"usage\":{}}");
    assert!(decoder.is_done());
    assert_eq!(decoder.residue(), "");
    assert!(decoder.feed(b"data: b\n").is_empty());
}

#[test]
fn cancel_discards_what_is_held() {
    let mut decoder = StreamDecoder::new();
    decoder.feed(b"data: a\ndata: hal");
    decoder.cancel();
    assert!(decoder.is_done());
    assert_eq!(decoder.residue(), "");
    assert!(decoder.feed(b"f\n").is_empty());
}
