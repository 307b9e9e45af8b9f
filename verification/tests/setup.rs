use voicetools::setup::{
    human_small,
    human_unit, known_models, list_row, missing_model_message, Backend, DownloadProgress, Model,
    SetupError, PROGRESS_STEP,
};

#[test]
fn parses_aliases() {
    assert_eq!(Model::parse("parakeet").unwrap(), Model::ParakeetV3Int8);
    assert_eq!(Model::parse("V3").unwrap(), Model::ParakeetV3Int8);
    assert_eq!(Model::parse("parakeet-v2").unwrap(), Model::ParakeetV2Int8);
    assert_eq!(Model::parse("whisper").unwrap(), Model::WhisperSmallEn);
    assert!(Model::parse("nope").is_err());
}

#[test]
fn backends_match_models() {
    assert_eq!(Model::ParakeetV3Int8.backend(), Backend::Parakeet);
    assert_eq!(Model::WhisperSmallEn.backend(), Backend::Whisper);
}

#[test]
fn parakeet_downloads_four_files() {
    assert_eq!(Model::ParakeetV3Int8.files().len(), 4);
}

#[test]
fn parse_ignores_surrounding_space_and_case() {
    assert_eq!(Model::parse("  Parakeet-V2\t\n").unwrap(), Model::ParakeetV2Int8);
    assert_eq!(Model::parse("WHISPER-SMALL-EN").unwrap(), Model::WhisperSmallEn);
    assert_eq!(Model::parse("\u{3000}v3\u{a0}").unwrap(), Model::ParakeetV3Int8);
}

#[test]
fn parse_reports_the_normalized_name() {
    let err = Model::parse("  Nope ").unwrap_err();
    assert_eq!(err, SetupError::UnknownModel("nope".to_string()));
    assert_eq!(
        err.message(),
        "unknown model 'nope' (try: parakeet-v3, parakeet-v2, whisper-small)"
    );
}

#[test]
fn from_alias_is_exact() {
    assert_eq!(Model::from_alias("v2"), Some(Model::ParakeetV2Int8));
    assert_eq!(Model::from_alias("whisper-small"), Some(Model::WhisperSmallEn));
    assert_eq!(Model::from_alias("V2"), None);
    assert_eq!(Model::from_alias(" v2"), None);
    assert_eq!(Model::from_alias(""), None);
}

#[test]
fn ids_parse_back_to_their_model() {
    for m in known_models() {
        assert_eq!(Model::parse(m.id()).unwrap(), m);
    }
    assert_eq!(known_models().len(), 3);
}

#[test]
fn ids_and_sizes() {
    assert_eq!(Model::ParakeetV3Int8.id(), "parakeet-v3");
    assert_eq!(Model::ParakeetV2Int8.id(), "parakeet-v2");
    assert_eq!(Model::WhisperSmallEn.id(), "whisper-small");
    assert_eq!(Model::ParakeetV2Int8.size_hint(), "~631MB");
    assert_eq!(Model::WhisperSmallEn.size_hint(), "244MB");
    assert_eq!(Model::ParakeetV2Int8.backend(), Backend::Parakeet);
}

#[test]
fn parakeet_variants_share_local_names() {
    let v3 = Model::ParakeetV3Int8.files();
    let v2 = Model::ParakeetV2Int8.files();
    let n3: Vec<&str> = v3.iter().map(|p| p.1).collect();
    let n2: Vec<&str> = v2.iter().map(|p| p.1).collect();
    assert_eq!(n3, n2);
    assert_eq!(n3, vec!["encoder.int8.onnx", "decoder_joint.int8.onnx", "nemo128.onnx", "vocab.txt"]);
    assert_eq!(
        v2[0].0,
        "https://huggingface.co/istupakov/parakeet-tdt-0.6b-v2-onnx/resolve/main/encoder-model.int8.onnx"
    );
    let w = Model::WhisperSmallEn.files();
    assert_eq!(
        w,
        vec![(
            "https://huggingface.co/ggerganov/whisper.cpp/resolve/main/ggml-small.en.bin",
            "ggml-small.en.bin"
        )]
    );
}

#[test]
fn missing_model_text() {
    assert_eq!(
        missing_model_message(Model::ParakeetV2Int8),
        "no model found for 'parakeet-v2' \u{2014} run: voicetools setup --model parakeet-v2"
    );
}

#[test]
fn list_rows_are_aligned() {
    assert_eq!(list_row(Model::ParakeetV3Int8, true), "parakeet-v3    ~650MB   [installed]");
    assert_eq!(list_row(Model::WhisperSmallEn, false), "whisper-small  244MB    [not installed]");
}

#[test]
fn human_unit_thresholds() {
    assert_eq!(human_unit(512), (0, "B"));
    assert_eq!(human_unit(1023), (0, "B"));
    assert_eq!(human_unit(1024), (1, "KB"));
    assert_eq!(human_unit(2048), (1, "KB"));
    assert_eq!(human_unit(5 * 1024 * 1024), (2, "MB"));
    assert_eq!(human_unit(1 << 30), (3, "GB"));
    assert_eq!(human_unit(u64::MAX), (3, "GB"));
}

#[test]
fn progress_is_due_every_five_megabytes() {
    let mut p = DownloadProgress::new();
    assert!(!p.record(64 * 1024));
    assert!(!p.record(PROGRESS_STEP - 64 * 1024 - 1));
    assert!(p.record(1));
    assert_eq!(p.written(), PROGRESS_STEP);
    assert!(!p.record(PROGRESS_STEP - 1));
    assert!(p.record(1));
    assert_eq!(p.written(), 2 * PROGRESS_STEP);
}

#[test]
fn installed_needs_every_file() {
    let m = Model::ParakeetV2Int8;
    assert!(m.installed_given(&vec![true, true, true, true]));
    assert!(!m.installed_given(&vec![true, false, true, true]));
    assert!(!m.installed_given(&vec![true, true, true]));
    assert!(Model::WhisperSmallEn.installed_given(&vec![true]));
    assert!(!Model::WhisperSmallEn.installed_given(&vec![]));
}

#[test]
fn human_units() {
    // The one-decimal renderings of larger units are floating point and are
    // made by the program; the library renders plain bytes and picks units.
    assert_eq!(human_small(512), Some("512 B".to_string()));
    assert_eq!(human_small(2048), None);
    assert_eq!(human_unit(2048), (1, "KB"));
    assert_eq!(human_small(5 * 1024 * 1024), None);
    assert_eq!(human_unit(5 * 1024 * 1024), (2, "MB"));
}

#[test]
fn plain_byte_counts() {
    assert_eq!(human_small(0), Some("0 B".to_string()));
    assert_eq!(human_small(7), Some("7 B".to_string()));
    assert_eq!(human_small(1023), Some("1023 B".to_string()));
    assert_eq!(human_small(1024), None);
}
