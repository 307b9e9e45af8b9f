use voicetools::settings::{model_setting, parse_u64, silence_ms_setting, DEFAULT_SILENCE_MS};
use voicetools::text::{pad_right, trim};
use voicetools::whisper::segment_text;

#[test]
fn decimal_parsing_matches_str_parse() {
    for s in ["0", "+12", "600", "-1", "", "+", "12a", " 5", "18446744073709551615",
        "18446744073709551616", "0000123", "\u{661}"] {
        assert_eq!(parse_u64(s), s.parse::<u64>().ok(), "{s:?}");
    }
}

#[test]
fn silence_setting_defaults() {
    assert_eq!(silence_ms_setting(None), DEFAULT_SILENCE_MS);
    assert_eq!(silence_ms_setting(Some("800")), 800);
    assert_eq!(silence_ms_setting(Some("fast")), 600);
    assert_eq!(model_setting(None), "parakeet-v3");
    assert_eq!(model_setting(Some("whisper".to_string())), "whisper");
}

#[test]
fn trim_matches_std() {
    for s in ["  a b  ", "\u{2003}x\u{205f}", "", "   ", "\u{200b}y"] {
        assert_eq!(trim(s), s.trim());
    }
    assert_eq!(pad_right("ab", 4), "ab  ");
    assert_eq!(pad_right("abcdef", 4), "abcdef");
}

#[test]
fn whisper_segments_are_trimmed() {
    assert_eq!(segment_text("  hello there "), Some("hello there"));
    assert_eq!(segment_text(" \n"), None);
}
