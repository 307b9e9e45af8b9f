use voicetools::protocol::{
    done, error, final_text, level, partial, phase, ready, segment, status,
};

#[test]
fn lines_carry_their_keyword() {
    assert_eq!(status("recording"), "STATUS recording");
    assert_eq!(ready(), "READY");
    assert_eq!(level("0.0123"), "LEVEL 0.0123");
    assert_eq!(phase("silence"), "PHASE silence");
    assert_eq!(partial("hello wor"), "PARTIAL hello wor");
    assert_eq!(final_text("hello world"), "FINAL hello world");
    assert_eq!(segment("hello"), "SEGMENT hello");
    assert_eq!(done(), "DONE");
    assert_eq!(error("no model found"), "ERROR no model found");
}

#[test]
fn empty_payload_keeps_the_space() {
    assert_eq!(segment(""), "SEGMENT ");
    assert_ne!(status(""), done());
}
