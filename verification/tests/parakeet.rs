use voicetools::parakeet::{
    emit_token, finish_word, missing, parse_vocab, token_classes, DecodeError, TdtDecoder,
    VocabError, MAX_SYMBOLS_PER_FRAME,
};

#[test]
fn emit_streams_on_word_boundary() {
    let mut out: Vec<String> = Vec::new();
    let mut word = String::new();
    for tok in ["\u{2581}hel", "lo", "\u{2581}world"] {
        if let Some(done) = emit_token(Some(tok), &mut word) {
            out.push(done);
        }
    }
    // "hello" flushed when "▁world" starts; "world" still buffered.
    assert_eq!(out, vec!["hello"]);
    assert_eq!(word, "world");
}

#[test]
fn missing_tokens_and_final_word() {
    let mut word = String::from("ab");
    assert_eq!(emit_token(None, &mut word), None);
    assert_eq!(word, "ab");
    let mut empty = String::new();
    assert_eq!(emit_token(Some("\u{2581}x"), &mut empty), None);
    assert_eq!(empty, "x");
    assert_eq!(finish_word(String::new()), None);
    assert_eq!(finish_word("world".to_string()), Some("world".to_string()));
}

#[test]
fn joint_output_split() {
    assert_eq!(token_classes(5), Err(DecodeError::TooFewLogits(5)));
    assert_eq!(token_classes(0), Err(DecodeError::TooFewLogits(0)));
    assert_eq!(token_classes(8198), Ok(8193));
}

#[test]
fn blank_advances_and_tokens_are_capped() {
    let mut d = TdtDecoder::new(4, 3);
    assert_eq!(d.label(), 3);
    // classes = 4, blank = 3.
    assert_eq!(d.step(4, 3, 0), None);
    assert_eq!(d.frame(), 1);
    // A token with duration 2 jumps two frames.
    assert_eq!(d.step(4, 1, 2), Some(1));
    assert_eq!(d.frame(), 3);
    assert_eq!(d.label(), 1);
    assert!(d.finished());

    let mut d = TdtDecoder::new(4, 2);
    for _ in 0..MAX_SYMBOLS_PER_FRAME - 1 {
        assert_eq!(d.step(4, 0, 0), Some(0));
        assert_eq!(d.frame(), 0);
    }
    assert_eq!(d.step(4, 2, 0), Some(2));
    assert_eq!(d.frame(), 1);
    assert!(!d.finished());
}

#[test]
fn vocab_takes_first_field_of_each_line() {
    let v = parse_vocab("<unk> 0\n\u{2581}the 1\r\n  s\t2\n\n").unwrap();
    assert_eq!(v, vec!["<unk>", "\u{2581}the", "s", ""]);
    assert_eq!(parse_vocab("a\nb").unwrap(), vec!["a", "b"]);
    assert_eq!(parse_vocab("\n").unwrap(), vec![""]);
    assert_eq!(parse_vocab(""), Err(VocabError::Empty));
}

#[test]
fn missing_output_message() {
    assert_eq!(
        missing("outputs", "encoder"),
        "encoder output 'outputs' not found \u{2014} does this ONNX export use different tensor names?"
    );
}

#[test]
fn whole_decode_keeps_all_text() {
    let tokens = ["\u{2581}", "\u{2581}go", "od", "\u{2581}", "\u{2581}day", "s"];
    let mut word = String::new();
    let mut segments: Vec<String> = Vec::new();
    for t in tokens {
        if let Some(done) = emit_token(Some(t), &mut word) {
            segments.push(done);
        }
    }
    if let Some(last) = finish_word(word) {
        segments.push(last);
    }
    assert_eq!(segments, vec!["good", "days"]);
    assert!(segments.iter().all(|s| !s.is_empty()));
}
