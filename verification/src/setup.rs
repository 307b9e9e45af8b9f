//! The model registry: which models exist, the names the CLI accepts for
//! them, where their files come from and what they are called on disk.

use vstd::prelude::*;
use vstd::string::StringExecFns;

use crate::settings::{decimal_text, format_u64};
use crate::text::{lowercase, pad_right, padded, same_text, to_lowercase, trim, trimmed};

verus! {

/// Which backend a model drives.
#[derive(Debug, Clone, Copy, PartialEq, Eq, Structural)]
pub enum Backend {
    Parakeet,
    Whisper,
}

/// The models `voicetools` knows how to fetch and run.
#[derive(Debug, Clone, Copy, PartialEq, Eq, Structural)]
pub enum Model {
    /// Recommended: 25 European languages (PalatineVision export).
    ParakeetV3Int8,
    /// English only (istupakov export).
    ParakeetV2Int8,
    /// Fallback: whisper.cpp ggml small.en.
    WhisperSmallEn,
}

/// Why a model name was refused.
#[derive(Debug, Clone, PartialEq, Eq)]
pub enum SetupError {
    /// No model answers to this (trimmed, lower-cased) name.
    UnknownModel(String),
}

/// Every known model, in the order `voicetools models` lists them.
pub open spec fn all_models() -> Seq<Model> {
    seq![Model::ParakeetV3Int8, Model::ParakeetV2Int8, Model::WhisperSmallEn]
}

/// The model a normalized CLI name stands for, if any.
pub open spec fn model_for_alias(key: Seq<char>) -> Option<Model> {
    if key == "parakeet"@ || key == "parakeet-v3"@ || key == "v3"@ {
        Some(Model::ParakeetV3Int8)
    } else if key == "parakeet-v2"@ || key == "v2"@ {
        Some(Model::ParakeetV2Int8)
    } else if key == "whisper"@ || key == "whisper-small"@ || key == "whisper-small-en"@ {
        Some(Model::WhisperSmallEn)
    } else {
        None
    }
}

/// The key a raw CLI name is looked up by: trimmed, then lower-cased.
pub open spec fn normalized_name(name: Seq<char>) -> Seq<char> {
    lowercase(trimmed(name))
}

/// What [`Model::parse`] answers for a raw CLI name.
pub open spec fn parse_result(name: Seq<char>) -> Result<Model, Seq<char>> {
    match model_for_alias(normalized_name(name)) {
        Some(m) => Ok(m),
        None => Err(normalized_name(name)),
    }
}

/// Stable identifier, also the on-disk directory name.
pub open spec fn model_id(m: Model) -> Seq<char> {
    match m {
        Model::ParakeetV3Int8 => "parakeet-v3"@,
        Model::ParakeetV2Int8 => "parakeet-v2"@,
        Model::WhisperSmallEn => "whisper-small"@,
    }
}

pub open spec fn model_backend(m: Model) -> Backend {
    match m {
        Model::ParakeetV3Int8 | Model::ParakeetV2Int8 => Backend::Parakeet,
        Model::WhisperSmallEn => Backend::Whisper,
    }
}

pub open spec fn model_size_hint(m: Model) -> Seq<char> {
    match m {
        Model::ParakeetV3Int8 => "~650MB"@,
        Model::ParakeetV2Int8 => "~631MB"@,
        Model::WhisperSmallEn => "244MB"@,
    }
}

/// `(remote_url, local_filename)` pairs a model is made of. Local names are
/// the same for every Parakeet export, so every variant loads alike.
pub open spec fn model_files(m: Model) -> Seq<(Seq<char>, Seq<char>)> {
    match m {
        Model::ParakeetV3Int8 => seq![
            ("https://huggingface.co/PalatineVision/parakeet-tdt-0.6b-v3-onnx/resolve/main/encoder-model.int8.onnx"@, "encoder.int8.onnx"@),
            ("https://huggingface.co/PalatineVision/parakeet-tdt-0.6b-v3-onnx/resolve/main/decoder_joint-model.int8.onnx"@, "decoder_joint.int8.onnx"@),
            ("https://huggingface.co/PalatineVision/parakeet-tdt-0.6b-v3-onnx/resolve/main/nemo128.onnx"@, "nemo128.onnx"@),
            ("https://huggingface.co/PalatineVision/parakeet-tdt-0.6b-v3-onnx/resolve/main/vocab.txt"@, "vocab.txt"@),
        ],
        Model::ParakeetV2Int8 => seq![
            ("https://huggingface.co/istupakov/parakeet-tdt-0.6b-v2-onnx/resolve/main/encoder-model.int8.onnx"@, "encoder.int8.onnx"@),
            ("https://huggingface.co/istupakov/parakeet-tdt-0.6b-v2-onnx/resolve/main/decoder_joint-model.int8.onnx"@, "decoder_joint.int8.onnx"@),
            ("https://huggingface.co/istupakov/parakeet-tdt-0.6b-v2-onnx/resolve/main/nemo128.onnx"@, "nemo128.onnx"@),
            ("https://huggingface.co/istupakov/parakeet-tdt-0.6b-v2-onnx/resolve/main/vocab.txt"@, "vocab.txt"@),
        ],
        Model::WhisperSmallEn => seq![
            (
                "https://huggingface.co/ggerganov/whisper.cpp/resolve/main/ggml-small.en.bin"@,
                "ggml-small.en.bin"@,
            ),
        ],
    }
}

/// The views of a list of `(url, file name)` pairs.
pub open spec fn files_view(v: Seq<(&str, &str)>) -> Seq<(Seq<char>, Seq<char>)> {
    v.map_values(|p: (&str, &str)| (p.0@, p.1@))
}

impl Model {
    /// Looks up an already normalized name (trimmed, lower-cased).
    pub fn from_alias(key: &str) -> (r: Option<Model>)
        ensures
            r == model_for_alias(key@),
    {
        if same_text(key, "parakeet") || same_text(key, "parakeet-v3") || same_text(key, "v3") {
            Some(Model::ParakeetV3Int8)
        } else if same_text(key, "parakeet-v2") || same_text(key, "v2") {
            Some(Model::ParakeetV2Int8)
        } else if same_text(key, "whisper") || same_text(key, "whisper-small") || same_text(
            key,
            "whisper-small-en",
        ) {
            Some(Model::WhisperSmallEn)
        } else {
            None
        }
    }

    /// Parses a CLI model name: surrounding white space is ignored, case is
    /// folded, and a few friendly aliases are accepted.
    pub fn parse(name: &str) -> (r: Result<Model, SetupError>)
        ensures
            match parse_result(name@) {
                Ok(m) => r == Ok::<Model, SetupError>(m),
                Err(key) => r matches Err(SetupError::UnknownModel(k)) && k@ == key,
            },
    {
        let key = to_lowercase(trim(name));
        match Model::from_alias(key.as_str()) {
            Some(m) => Ok(m),
            None => Err(SetupError::UnknownModel(key)),
        }
    }

    /// Stable identifier used as the on-disk directory name.
    pub fn id(&self) -> (r: &'static str)
        ensures
            r@ == model_id(*self),
    {
        match self {
            Model::ParakeetV3Int8 => "parakeet-v3",
            Model::ParakeetV2Int8 => "parakeet-v2",
            Model::WhisperSmallEn => "whisper-small",
        }
    }

    /// The backend that loads this model.
    pub fn backend(&self) -> (r: Backend)
        ensures
            r == model_backend(*self),
    {
        match self {
            Model::ParakeetV3Int8 | Model::ParakeetV2Int8 => Backend::Parakeet,
            Model::WhisperSmallEn => Backend::Whisper,
        }
    }

    /// Approximate download size, for display.
    pub fn size_hint(&self) -> (r: &'static str)
        ensures
            r@ == model_size_hint(*self),
    {
        match self {
            Model::ParakeetV3Int8 => "~650MB",
            Model::ParakeetV2Int8 => "~631MB",
            Model::WhisperSmallEn => "244MB",
        }
    }

    /// `(remote_url, local_filename)` pairs to fetch.
    pub fn files(&self) -> (r: Vec<(&'static str, &'static str)>)
        ensures
            files_view(r@) == model_files(*self),
            forall|i: int|
                0 <= i < r@.len() ==> #[trigger] r@[i].0@ == model_repo(*self) + remote_name(
                    r@[i].1@,
                ),
    {
        let v = match self {
            Model::ParakeetV3Int8 => vec![
                ("https://huggingface.co/PalatineVision/parakeet-tdt-0.6b-v3-onnx/resolve/main/encoder-model.int8.onnx", "encoder.int8.onnx"),
                ("https://huggingface.co/PalatineVision/parakeet-tdt-0.6b-v3-onnx/resolve/main/decoder_joint-model.int8.onnx", "decoder_joint.int8.onnx"),
                ("https://huggingface.co/PalatineVision/parakeet-tdt-0.6b-v3-onnx/resolve/main/nemo128.onnx", "nemo128.onnx"),
                ("https://huggingface.co/PalatineVision/parakeet-tdt-0.6b-v3-onnx/resolve/main/vocab.txt", "vocab.txt"),
            ],
            Model::ParakeetV2Int8 => vec![
                ("https://huggingface.co/istupakov/parakeet-tdt-0.6b-v2-onnx/resolve/main/encoder-model.int8.onnx", "encoder.int8.onnx"),
                ("https://huggingface.co/istupakov/parakeet-tdt-0.6b-v2-onnx/resolve/main/decoder_joint-model.int8.onnx", "decoder_joint.int8.onnx"),
                ("https://huggingface.co/istupakov/parakeet-tdt-0.6b-v2-onnx/resolve/main/nemo128.onnx", "nemo128.onnx"),
                ("https://huggingface.co/istupakov/parakeet-tdt-0.6b-v2-onnx/resolve/main/vocab.txt", "vocab.txt"),
            ],
            Model::WhisperSmallEn => vec![
                (
                    "https://huggingface.co/ggerganov/whisper.cpp/resolve/main/ggml-small.en.bin",
                    "ggml-small.en.bin",
                ),
            ],
        };
        assert(files_view(v@) =~= model_files(*self));
        proof {
            lemma_files_come_from_own_repo(*self);
            assert forall|i: int| 0 <= i < v@.len() implies #[trigger] v@[i].0@ == model_repo(*self)
                + remote_name(v@[i].1@) by {
                assert(files_view(v@)[i] == (v@[i].0@, v@[i].1@));
                assert(files_view(v@)[i] == model_files(*self)[i]);
                assert(model_files(*self)[i].0 == model_repo(*self) + remote_name(
                    model_files(*self)[i].1,
                ));
            }
        }
        v
    }
}


impl SetupError {
    /// The message shown to the user.
    pub fn message(&self) -> (r: String)
        ensures
            match self {
                SetupError::UnknownModel(key) => r@ == "unknown model '"@ + key@
                    + "' (try: parakeet-v3, parakeet-v2, whisper-small)"@,
            },
    {
        match self {
            SetupError::UnknownModel(key) => {
                let mut m = "unknown model '".to_owned();
                m.append(key.as_str());
                m.append("' (try: parakeet-v3, parakeet-v2, whisper-small)");
                m
            },
        }
    }
}

/// The error reported when a model's files are not installed.
pub open spec fn missing_model_text(m: Model) -> Seq<char> {
    "no model found for '"@ + model_id(m) + "' \u{2014} run: voicetools setup --model "@
        + model_id(m)
}

/// Tells the user how to install a model that is not ready.
pub fn missing_model_message(model: Model) -> (r: String)
    ensures
        r@ == missing_model_text(model),
{
    let mut m = "no model found for '".to_owned();
    m.append(model.id());
    m.append("' \u{2014} run: voicetools setup --model ");
    m.append(model.id());
    m
}

/// The unit a byte count is shown in: 0 = B, 1 = KB, 2 = MB, 3 = GB. The
/// largest unit (up to GB) whose size does not exceed the count.
pub open spec fn human_unit_of(bytes: u64) -> usize {
    if bytes < 0x400 {
        0
    } else if bytes < 0x10_0000 {
        1
    } else if bytes < 0x4000_0000 {
        2
    } else {
        3
    }
}

/// The number of bytes in one of the display units.
pub open spec fn unit_size(u: usize) -> int {
    if u == 0 { 1 } else if u == 1 { 0x400 } else if u == 2 { 0x10_0000 } else { 0x4000_0000 }
}

pub open spec fn unit_label(u: usize) -> Seq<char> {
    if u == 0 { "B"@ } else if u == 1 { "KB"@ } else if u == 2 { "MB"@ } else { "GB"@ }
}

/// Picks the unit a byte count is rendered in, and its label.
pub fn human_unit(bytes: u64) -> (r: (usize, &'static str))
    ensures
        r.0 == human_unit_of(bytes),
        r.1@ == unit_label(r.0),
        r.0 <= 3,
        unit_size(r.0) <= bytes || r.0 == 0,
        r.0 < 3 ==> bytes < unit_size(r.0) * 0x400,
{
    if bytes < 0x400 {
        (0, "B")
    } else if bytes < 0x10_0000 {
        (1, "KB")
    } else if bytes < 0x4000_0000 {
        (2, "MB")
    } else {
        (3, "GB")
    }
}

/// The rendering of a byte count below one KB: the count and `B`.
pub open spec fn human_bytes_text(bytes: u64) -> Seq<char> {
    decimal_text(bytes as nat) + " B"@
}

/// Renders a byte count that is shown in plain bytes (below 1024), as
/// `512 B`; larger counts are shown with one decimal in a larger unit, which
/// this returns nothing for.
pub fn human_small(bytes: u64) -> (r: Option<String>)
    ensures
        human_unit_of(bytes) == 0 ==> (r matches Some(t) && t@ == human_bytes_text(bytes)),
        human_unit_of(bytes) != 0 ==> r is None,
{
    if bytes < 0x400 {
        let mut t = format_u64(bytes);
        t.append(" B");
        Some(t)
    } else {
        None
    }
}

/// How many bytes must arrive between two progress lines.
pub const PROGRESS_STEP: u64 = 5 * 1024 * 1024;

/// Byte accounting of a download, deciding when to refresh the progress line.
pub struct DownloadProgress {
    written: u64,
    last_print: u64,
}

impl DownloadProgress {
    #[verifier::type_invariant]
    spec fn wf(self) -> bool {
        self.last_print <= self.written
    }

    pub closed spec fn spec_written(self) -> u64 {
        self.written
    }

    pub closed spec fn spec_last_print(self) -> u64 {
        self.last_print
    }

    /// Nothing written, nothing printed.
    pub fn new() -> (r: DownloadProgress)
        ensures
            r.spec_written() == 0,
            r.spec_last_print() == 0,
    {
        DownloadProgress { written: 0, last_print: 0 }
    }

    /// Bytes written so far.
    pub fn written(&self) -> (r: u64)
        ensures
            r == self.spec_written(),
    {
        self.written
    }

    /// Accounts for `n` more bytes; true when the progress line is due, that
    /// is when at least [`PROGRESS_STEP`] bytes arrived since it was last
    /// shown.
    pub fn record(&mut self, n: u64) -> (due: bool)
        requires
            old(self).spec_written() + n <= u64::MAX,
        ensures
            final(self).spec_written() == old(self).spec_written() + n,
            due == (final(self).spec_written() - old(self).spec_last_print() >= PROGRESS_STEP),
            due ==> final(self).spec_last_print() == final(self).spec_written(),
            !due ==> final(self).spec_last_print() == old(self).spec_last_print(),
            final(self).spec_last_print() <= final(self).spec_written(),
    {
        proof {
            use_type_invariant(&*self);
        }
        self.written = self.written + n;
        if self.written - self.last_print >= PROGRESS_STEP {
            self.last_print = self.written;
            true
        } else {
            false
        }
    }
}

impl Model {
    /// Whether the model is installed, given for each of its files (in the
    /// order of [`Model::files`]) whether it is present on disk: every one of
    /// them must be.
    pub fn installed_given(&self, present: &Vec<bool>) -> (r: bool)
        ensures
            r == (present@.len() == model_files(*self).len() && forall|i: int|
                0 <= i < present@.len() ==> present@[i]),
    {
        let n = self.files().len();
        if present.len() != n {
            return false;
        }
        let mut i: usize = 0;
        while i < present.len()
            invariant
                0 <= i <= present.len(),
                forall|j: int| 0 <= j < i ==> present@[j],
            decreases present.len() - i,
        {
            if !present[i] {
                return false;
            }
            i = i + 1;
        }
        true
    }
}

/// Every known model, in listing order.
pub fn known_models() -> (r: Vec<Model>)
    ensures
        r@ == all_models(),
{
    let r = vec![Model::ParakeetV3Int8, Model::ParakeetV2Int8, Model::WhisperSmallEn];
    assert(r@ =~= all_models());
    proof {
        lemma_listing_names_each_model_once();
    }
    r
}

/// One row of `voicetools models`: id and size in aligned columns, then
/// whether the model is installed.
pub open spec fn list_row_text(m: Model, installed: bool) -> Seq<char> {
    padded(model_id(m), 14) + " "@ + padded(model_size_hint(m), 8) + " ["@ + (if installed {
        "installed"@
    } else {
        "not installed"@
    }) + "]"@
}

/// Renders one row of the model listing.
pub fn list_row(model: Model, installed: bool) -> (r: String)
    ensures
        r@ == list_row_text(model, installed),
{
    let mut row = pad_right(model.id(), 14);
    row.append(" ");
    let size = pad_right(model.size_hint(), 8);
    row.append(size.as_str());
    row.append(" [");
    if installed {
        row.append("installed");
    } else {
        row.append("not installed");
    }
    row.append("]");
    row
}

/// The model listing names every model exactly once.
pub proof fn lemma_listing_names_each_model_once()
    ensures
        forall|m: Model| all_models().contains(m),
        forall|i: int, j: int|
            0 <= i < j < all_models().len() ==> all_models()[i] != all_models()[j],
{
    assert forall|m: Model| all_models().contains(m) by {
        match m {
            Model::ParakeetV3Int8 => assert(all_models()[0] == m),
            Model::ParakeetV2Int8 => assert(all_models()[1] == m),
            Model::WhisperSmallEn => assert(all_models()[2] == m),
        }
    }
}

/// The HuggingFace repository a model's files are fetched from.
pub open spec fn model_repo(m: Model) -> Seq<char> {
    match m {
        Model::ParakeetV3Int8 => "https://huggingface.co/PalatineVision/parakeet-tdt-0.6b-v3-onnx/resolve/main/"@,
        Model::ParakeetV2Int8 => "https://huggingface.co/istupakov/parakeet-tdt-0.6b-v2-onnx/resolve/main/"@,
        Model::WhisperSmallEn => "https://huggingface.co/ggerganov/whisper.cpp/resolve/main/"@,
    }
}

/// The remote name of the file stored locally as `local`: the two int8
/// networks are published as `*-model.int8.onnx`, the rest under their own
/// names.
pub open spec fn remote_name(local: Seq<char>) -> Seq<char> {
    if local == "encoder.int8.onnx"@ {
        "encoder-model.int8.onnx"@
    } else if local == "decoder_joint.int8.onnx"@ {
        "decoder_joint-model.int8.onnx"@
    } else {
        local
    }
}

/// Each model's files come from that model's own repository: every URL is
/// the model's repository followed by the remote name of the local file it
/// is stored as.
pub proof fn lemma_files_come_from_own_repo(m: Model)
    ensures
        forall|i: int|
            0 <= i < model_files(m).len() ==> #[trigger] model_files(m)[i].0 == model_repo(m)
                + remote_name(model_files(m)[i].1),
{
    reveal_strlit("encoder.int8.onnx");
    reveal_strlit("decoder_joint.int8.onnx");
    reveal_strlit("nemo128.onnx");
    reveal_strlit("vocab.txt");
    reveal_strlit("ggml-small.en.bin");
    reveal_strlit("encoder-model.int8.onnx");
    reveal_strlit("decoder_joint-model.int8.onnx");
    reveal_strlit("https://huggingface.co/PalatineVision/parakeet-tdt-0.6b-v3-onnx/resolve/main/");
    reveal_strlit("https://huggingface.co/istupakov/parakeet-tdt-0.6b-v2-onnx/resolve/main/");
    reveal_strlit("https://huggingface.co/ggerganov/whisper.cpp/resolve/main/");
    reveal_strlit("https://huggingface.co/PalatineVision/parakeet-tdt-0.6b-v3-onnx/resolve/main/encoder-model.int8.onnx");
    reveal_strlit("https://huggingface.co/PalatineVision/parakeet-tdt-0.6b-v3-onnx/resolve/main/decoder_joint-model.int8.onnx");
    reveal_strlit("https://huggingface.co/PalatineVision/parakeet-tdt-0.6b-v3-onnx/resolve/main/nemo128.onnx");
    reveal_strlit("https://huggingface.co/PalatineVision/parakeet-tdt-0.6b-v3-onnx/resolve/main/vocab.txt");
    reveal_strlit("https://huggingface.co/istupakov/parakeet-tdt-0.6b-v2-onnx/resolve/main/encoder-model.int8.onnx");
    reveal_strlit("https://huggingface.co/istupakov/parakeet-tdt-0.6b-v2-onnx/resolve/main/decoder_joint-model.int8.onnx");
    reveal_strlit("https://huggingface.co/istupakov/parakeet-tdt-0.6b-v2-onnx/resolve/main/nemo128.onnx");
    reveal_strlit("https://huggingface.co/istupakov/parakeet-tdt-0.6b-v2-onnx/resolve/main/vocab.txt");
    reveal_strlit("https://huggingface.co/ggerganov/whisper.cpp/resolve/main/ggml-small.en.bin");
    assert("decoder_joint.int8.onnx"@.len() != "encoder.int8.onnx"@.len());
    assert("nemo128.onnx"@.len() != "encoder.int8.onnx"@.len());
    assert("nemo128.onnx"@.len() != "decoder_joint.int8.onnx"@.len());
    assert("vocab.txt"@.len() != "encoder.int8.onnx"@.len());
    assert("vocab.txt"@.len() != "decoder_joint.int8.onnx"@.len());
    assert("ggml-small.en.bin"@.len() == "encoder.int8.onnx"@.len());
    assert("ggml-small.en.bin"@[0] != "encoder.int8.onnx"@[0]);
    assert("ggml-small.en.bin"@.len() != "decoder_joint.int8.onnx"@.len());
    assert forall|i: int|
        0 <= i < model_files(m).len() implies #[trigger] model_files(m)[i].0 == model_repo(m)
        + remote_name(model_files(m)[i].1) by {
        assert(model_files(m)[i].0 =~= model_repo(m) + remote_name(model_files(m)[i].1));
    }
}

/// No file is shared between two models: each fetches from its own
/// repository (the repositories differ right after `https://huggingface.co/`).
pub proof fn lemma_models_share_no_url(a: Model, b: Model)
    requires
        a != b,
    ensures
        forall|i: int, j: int|
            0 <= i < model_files(a).len() && 0 <= j < model_files(b).len() ==> #[trigger] model_files(
                a,
            )[i].0 != #[trigger] model_files(b)[j].0,
{
    lemma_files_come_from_own_repo(a);
    lemma_files_come_from_own_repo(b);
    reveal_strlit("https://huggingface.co/PalatineVision/parakeet-tdt-0.6b-v3-onnx/resolve/main/");
    reveal_strlit("https://huggingface.co/istupakov/parakeet-tdt-0.6b-v2-onnx/resolve/main/");
    reveal_strlit("https://huggingface.co/ggerganov/whisper.cpp/resolve/main/");
    assert(model_repo(a)[23] != model_repo(b)[23]);
    assert forall|i: int, j: int|
        0 <= i < model_files(a).len() && 0 <= j < model_files(b).len() implies #[trigger] model_files(
            a,
        )[i].0 != #[trigger] model_files(b)[j].0 by {
        let ua = model_files(a)[i].0;
        let ub = model_files(b)[j].0;
        assert(ua[23] == model_repo(a)[23]);
        assert(ub[23] == model_repo(b)[23]);
    }
}

/// Every model answers to its own identifier, so the names the CLI suggests
/// (and the directory names) always parse back to the same model.
pub proof fn lemma_id_names_its_model(m: Model)
    ensures
        model_for_alias(model_id(m)) == Some(m),
{
    reveal_strlit("parakeet");
    reveal_strlit("parakeet-v3");
    reveal_strlit("v3");
    reveal_strlit("parakeet-v2");
    reveal_strlit("v2");
    reveal_strlit("whisper");
    reveal_strlit("whisper-small");
    match m {
        Model::ParakeetV3Int8 => {},
        Model::ParakeetV2Int8 => {
            assert("parakeet-v2"@.len() != "parakeet"@.len());
            assert("parakeet-v2"@[10] != "parakeet-v3"@[10]);
            assert("parakeet-v2"@.len() != "v3"@.len());
        },
        Model::WhisperSmallEn => {
            assert("whisper-small"@[0] != "parakeet"@[0]);
            assert("whisper-small"@[0] != "parakeet-v3"@[0]);
            assert("whisper-small"@[0] != "v3"@[0]);
            assert("whisper-small"@[0] != "parakeet-v2"@[0]);
            assert("whisper-small"@[0] != "v2"@[0]);
            assert("whisper-small"@.len() != "whisper"@.len());
        },
    }
}

/// Every Parakeet variant is stored under the same local file names, so a
/// single loader serves them all.
pub proof fn lemma_parakeet_variants_share_file_names(a: Model, b: Model)
    requires
        model_backend(a) == Backend::Parakeet,
        model_backend(b) == Backend::Parakeet,
    ensures
        model_files(a).len() == model_files(b).len(),
        forall|i: int| 0 <= i < model_files(a).len() ==> model_files(a)[i].1 == model_files(b)[i].1,
{
}

/// Within one model no two files share a local name, so no download
/// overwrites another.
pub proof fn lemma_local_names_distinct(m: Model)
    ensures
        model_files(m).len() >= 1,
        forall|i: int, j: int|
            0 <= i < j < model_files(m).len() ==> model_files(m)[i].1 != model_files(m)[j].1,
{
    reveal_strlit("encoder.int8.onnx");
    reveal_strlit("decoder_joint.int8.onnx");
    reveal_strlit("nemo128.onnx");
    reveal_strlit("vocab.txt");
    let names = seq!["encoder.int8.onnx"@, "decoder_joint.int8.onnx"@, "nemo128.onnx"@, "vocab.txt"@];
    assert(names[0].len() == 17 && names[1].len() == 23 && names[2].len() == 12 && names[3].len() == 9);
    assert forall|i: int, j: int|
        0 <= i < j < model_files(m).len() implies model_files(m)[i].1 != model_files(m)[j].1 by {
        if model_backend(m) == Backend::Parakeet {
            assert(model_files(m)[i].1 == names[i]);
            assert(model_files(m)[j].1 == names[j]);
            assert(names[i].len() != names[j].len());
        }
    }
}

} // verus!
