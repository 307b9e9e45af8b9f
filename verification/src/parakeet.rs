//! Decoding logic of the Parakeet-TDT backend that does not touch tensors:
//! the greedy Token-and-Duration-Transducer control loop, the assembly of
//! subword tokens into words, and the vocabulary file format.
//!
//! The network itself (preprocessor, encoder, fused decoder+joint) runs in
//! the application; for every joint step it hands over the width of the
//! joint output and the indices of the largest token and duration logits.

use vstd::prelude::*;
use vstd::std_specs::iter::IteratorSpec;
use vstd::string::{StrSliceExecFns, StringExecFns};

use crate::text::{is_white_space, push_char, trim_start, white_space};

verus! {

/// Number of TDT duration classes (durations 0..=4); they trail the token
/// logits in the joint output.
pub const NUM_DURATIONS: usize = 5;

/// Cap on non-blank symbols emitted at one encoder frame.
pub const MAX_SYMBOLS_PER_FRAME: usize = 10;

/// Subword marker that starts a new word (U+2581).
pub const WORD_PREFIX: char = '\u{2581}';

/// Why a decode step was refused.
#[derive(Debug, Clone, Copy, PartialEq, Eq, Structural)]
pub enum DecodeError {
    /// The joint produced this many logits, not more than the duration
    /// classes.
    TooFewLogits(usize),
}

/// How many of `logits_len` joint outputs are token logits.
pub fn token_classes(logits_len: usize) -> (r: Result<usize, DecodeError>)
    ensures
        logits_len <= NUM_DURATIONS ==> r == Err::<usize, DecodeError>(
            DecodeError::TooFewLogits(logits_len),
        ),
        logits_len > NUM_DURATIONS ==> r == Ok::<usize, DecodeError>(
            (logits_len - NUM_DURATIONS) as usize,
        ),
{
    if logits_len <= NUM_DURATIONS {
        Err(DecodeError::TooFewLogits(logits_len))
    } else {
        Ok(logits_len - NUM_DURATIONS)
    }
}

/// The decoder's position as a plain value.
pub struct TdtState {
    pub n_frames: usize,
    /// Current encoder frame.
    pub t: usize,
    /// Non-blank symbols emitted at frame `t` so far.
    pub symbols_at_t: usize,
    /// The last emitted token, fed back to the predictor.
    pub label: i32,
}

pub open spec fn tdt_start(vocab_len: usize, n_frames: usize) -> TdtState {
    TdtState {
        n_frames,
        t: 0,
        symbols_at_t: 0,
        label: (if vocab_len >= 1 { vocab_len - 1 } else { 0 }) as i32,
    }
}

/// One greedy TDT step given the winning token and duration indices. The
/// blank token is the last token class. Returns the new position and the
/// token emitted, if it is not blank.
pub open spec fn tdt_step(s: TdtState, classes: usize, token: usize, duration: usize) -> (
    TdtState,
    Option<usize>,
) {
    let blank = classes - 1;
    let emitted = token != blank;
    let label = if emitted { token as i32 } else { s.label };
    let symbols: int = if emitted { s.symbols_at_t + 1 } else { s.symbols_at_t as int };
    let step: int = if !emitted && duration == 0 { 1 } else { duration as int };
    let (t, sym) = if step > 0 {
        (s.t + step, 0int)
    } else if symbols >= MAX_SYMBOLS_PER_FRAME {
        (s.t + 1, 0int)
    } else {
        (s.t as int, symbols)
    };
    (
        TdtState { n_frames: s.n_frames, t: t as usize, symbols_at_t: sym as usize, label },
        if emitted { Some(token) } else { None },
    )
}

/// What is left to decode; it shrinks at every step.
pub open spec fn decode_measure(s: TdtState) -> int {
    (s.n_frames - s.t) * (MAX_SYMBOLS_PER_FRAME + 1) + (MAX_SYMBOLS_PER_FRAME - s.symbols_at_t)
}

/// Greedy TDT decoding control over `n_frames` encoder frames.
pub struct TdtDecoder {
    n_frames: usize,
    t: usize,
    symbols_at_t: usize,
    label: i32,
}

impl View for TdtDecoder {
    type V = TdtState;

    closed spec fn view(&self) -> TdtState {
        TdtState {
            n_frames: self.n_frames,
            t: self.t,
            symbols_at_t: self.symbols_at_t,
            label: self.label,
        }
    }
}

impl TdtDecoder {
    #[verifier::type_invariant]
    spec fn wf(self) -> bool {
        &&& self.n_frames <= isize::MAX
        &&& self.t <= self.n_frames + NUM_DURATIONS
        &&& self.symbols_at_t < MAX_SYMBOLS_PER_FRAME
    }

    /// Starts at the first frame, seeded with the last vocabulary index as
    /// the start-of-sequence label. A frame count never exceeds `isize::MAX`
    /// (it is an array dimension).
    pub fn new(vocab_len: usize, n_frames: usize) -> (r: TdtDecoder)
        requires
            n_frames <= isize::MAX,
        ensures
            r@ == tdt_start(vocab_len, n_frames),
    {
        TdtDecoder {
            n_frames,
            t: 0,
            symbols_at_t: 0,
            label: vocab_len.saturating_sub(1) as i32,
        }
    }

    /// The current encoder frame.
    pub fn frame(&self) -> (r: usize)
        ensures
            r == self@.t,
    {
        self.t
    }

    /// The label fed to the predictor at the next step.
    pub fn label(&self) -> (r: i32)
        ensures
            r == self@.label,
    {
        self.label
    }

    /// Whether every frame has been consumed.
    pub fn finished(&self) -> (r: bool)
        ensures
            r == (self@.t >= self@.n_frames),
    {
        self.t >= self.n_frames
    }

    /// Applies one joint step: `token` and `duration` index the largest
    /// token logit (of `classes`) and duration logit. Returns the emitted
    /// token, if it is not blank; the caller then appends it and adopts the
    /// predictor's new states.
    pub fn step(&mut self, classes: usize, token: usize, duration: usize) -> (emitted: Option<usize>)
        requires
            !(old(self)@.t >= old(self)@.n_frames),
            1 <= classes,
            token < classes,
            duration < NUM_DURATIONS,
        ensures
            (final(self)@, emitted) == tdt_step(old(self)@, classes, token, duration),
            token == classes - 1 ==> final(self)@.label == old(self)@.label && emitted is None,
            token != classes - 1 ==> final(self)@.label == token as i32 && emitted == Some(token),
            decode_measure(final(self)@) < decode_measure(old(self)@),
            final(self)@.symbols_at_t < MAX_SYMBOLS_PER_FRAME,
    {
        proof {
            use_type_invariant(&*self);
        }
        let blank = classes - 1;
        let emitted = token != blank;
        let mut symbols = self.symbols_at_t;
        if emitted {
            self.label = token as i32;
            symbols = symbols + 1;
        }
        let mut step = duration;
        if !emitted && step == 0 {
            step = 1;
        }
        if step > 0 {
            self.t = self.t + step;
            self.symbols_at_t = 0;
        } else if symbols >= MAX_SYMBOLS_PER_FRAME {
            self.t = self.t + 1;
            self.symbols_at_t = 0;
        } else {
            self.symbols_at_t = symbols;
        }
        if emitted {
            Some(token)
        } else {
            None
        }
    }
}

/// The predictor is fed the last emitted token: a blank step (the last
/// token class) leaves the label alone and emits nothing, and any other
/// token is emitted and becomes the label.
pub proof fn lemma_label_follows_emitted_tokens(
    s: TdtState,
    classes: usize,
    token: usize,
    duration: usize,
)
    requires
        1 <= classes,
        token < classes,
    ensures
        token == classes - 1 ==> tdt_step(s, classes, token, duration).0.label == s.label
            && tdt_step(s, classes, token, duration).1 is None,
        token != classes - 1 ==> tdt_step(s, classes, token, duration).0.label == token as i32
            && tdt_step(s, classes, token, duration).1 == Some(token),
{
}

/// A blank never stalls the decoder, and a step that stays on its frame
/// always emits a token: so every step makes progress and at most
/// [`MAX_SYMBOLS_PER_FRAME`] tokens are emitted per frame.
pub proof fn lemma_decode_progress(s: TdtState, classes: usize, token: usize, duration: usize)
    requires
        s.n_frames <= isize::MAX,
        s.t < s.n_frames,
        s.symbols_at_t < MAX_SYMBOLS_PER_FRAME,
        1 <= classes,
        token < classes,
        duration < NUM_DURATIONS,
    ensures
        ({
            let (s2, e) = tdt_step(s, classes, token, duration);
            &&& e is None ==> s2.t > s.t
            &&& s2.t == s.t ==> (e is Some && s2.symbols_at_t == s.symbols_at_t + 1)
            &&& s2.symbols_at_t < MAX_SYMBOLS_PER_FRAME
            &&& s2.t > s.t ==> s2.symbols_at_t == 0
            &&& decode_measure(s2) < decode_measure(s)
        }),
{
}

/// The word being assembled and the word completed by a subword token: a
/// token starting with [`WORD_PREFIX`] closes the current word (if any) and
/// starts a new one; any other token continues the current word.
pub open spec fn emit_spec(token: Option<Seq<char>>, word: Seq<char>) -> (Seq<char>, Option<Seq<char>>) {
    match token {
        None => (word, None),
        Some(tok) => if tok.len() > 0 && tok[0] == WORD_PREFIX {
            if word.len() > 0 {
                (tok.drop_first(), Some(word))
            } else {
                (word + tok.drop_first(), None)
            }
        } else {
            (word + tok, None)
        },
    }
}

/// A token's text as it enters a word: without its leading word marker.
pub open spec fn token_piece(token: Option<Seq<char>>) -> Seq<char> {
    match token {
        None => Seq::empty(),
        Some(tok) => if tok.len() > 0 && tok[0] == WORD_PREFIX {
            tok.drop_first()
        } else {
            tok
        },
    }
}

/// All the text a token stream carries, markers removed.
pub open spec fn tokens_text(tokens: Seq<Option<Seq<char>>>) -> Seq<char>
    decreases tokens.len(),
{
    if tokens.len() == 0 {
        Seq::empty()
    } else {
        token_piece(tokens[0]) + tokens_text(tokens.drop_first())
    }
}

/// Feeds `tokens` in order through [`emit_spec`] starting from `word`: the
/// word left over and the segments emitted on the way.
pub open spec fn emit_run(tokens: Seq<Option<Seq<char>>>, word: Seq<char>) -> (
    Seq<char>,
    Seq<Seq<char>>,
)
    decreases tokens.len(),
{
    if tokens.len() == 0 {
        (word, Seq::empty())
    } else {
        let (w1, f) = emit_spec(tokens[0], word);
        let (w2, segs) = emit_run(tokens.drop_first(), w1);
        (
            w2,
            match f {
                Some(x) => seq![x] + segs,
                None => segs,
            },
        )
    }
}

/// The segments a whole decode emits: those flushed at word markers, then
/// the last word if it is not empty.
pub open spec fn decoded_segments(tokens: Seq<Option<Seq<char>>>) -> Seq<Seq<char>> {
    let (w, segs) = emit_run(tokens, Seq::empty());
    if w.len() > 0 {
        segs.push(w)
    } else {
        segs
    }
}

proof fn lemma_emit_run(tokens: Seq<Option<Seq<char>>>, word: Seq<char>)
    ensures
        emit_run(tokens, word).1.flatten() + emit_run(tokens, word).0 == word + tokens_text(tokens),
        forall|i: int|
            0 <= i < emit_run(tokens, word).1.len() ==> #[trigger] emit_run(tokens, word).1[i].len()
                > 0,
    decreases tokens.len(),
{
    if tokens.len() == 0 {
        assert(emit_run(tokens, word).1.flatten() =~= Seq::<char>::empty());
        assert(word + tokens_text(tokens) =~= word);
        assert(Seq::<char>::empty() + word =~= word);
    } else {
        let (w1, f) = emit_spec(tokens[0], word);
        let rest = tokens.drop_first();
        lemma_emit_run(rest, w1);
        let (w2, segs1) = emit_run(rest, w1);
        assert(w1 == word + token_piece(tokens[0]) || (f == Some(word) && w1 == token_piece(
            tokens[0],
        )));
        match f {
            Some(x) => {
                let segs = seq![x] + segs1;
                assert(segs.first() == x);
                assert(segs.drop_first() =~= segs1);
                assert(segs.flatten() == x + segs1.flatten());
                assert(segs.flatten() + w2 =~= word + (segs1.flatten() + w2));
                assert(word + tokens_text(tokens) =~= word + (token_piece(tokens[0]) + tokens_text(
                    rest,
                )));
                assert forall|i: int| 0 <= i < segs.len() implies #[trigger] segs[i].len() > 0 by {
                    if i > 0 {
                        assert(segs[i] == segs1[i - 1]);
                    }
                }
            },
            None => {
                assert(word + tokens_text(tokens) =~= (word + token_piece(tokens[0])) + tokens_text(
                    rest,
                ));
            },
        }
    }
}

proof fn lemma_flatten_push(segs: Seq<Seq<char>>, w: Seq<char>)
    ensures
        segs.push(w).flatten() == segs.flatten() + w,
    decreases segs.len(),
{
    if segs.len() == 0 {
        assert(segs.push(w).drop_first() =~= Seq::<Seq<char>>::empty());
        assert(segs.push(w).drop_first().flatten() =~= Seq::<char>::empty());
        assert(segs.push(w).first() == w);
        assert(w + Seq::<char>::empty() =~= w);
        assert(segs.push(w).flatten() =~= w);
        assert(segs.flatten() + w =~= w);
    } else {
        lemma_flatten_push(segs.drop_first(), w);
        assert(segs.push(w).drop_first() =~= segs.drop_first().push(w));
        assert(segs.push(w).flatten() =~= segs.flatten() + w);
    }
}

/// A whole decode loses and invents no text, and emits no empty segment:
/// the segments, joined back, are exactly the tokens' text with the word
/// markers removed, and a new segment begins exactly where a marker token
/// arrives while a word is being built (see [`emit_spec`]).
pub proof fn lemma_segments_are_the_words(tokens: Seq<Option<Seq<char>>>)
    ensures
        decoded_segments(tokens).flatten() == tokens_text(tokens),
        forall|i: int|
            0 <= i < decoded_segments(tokens).len() ==> #[trigger] decoded_segments(tokens)[i].len()
                > 0,
{
    lemma_emit_run(tokens, Seq::empty());
    let (w, segs) = emit_run(tokens, Seq::empty());
    assert(Seq::<char>::empty() + tokens_text(tokens) =~= tokens_text(tokens));
    if w.len() > 0 {
        lemma_flatten_push(segs, w);
        assert forall|i: int| 0 <= i < segs.push(w).len() implies #[trigger] segs.push(w)[i].len()
            > 0 by {
            if i < segs.len() {
                assert(segs.push(w)[i] == segs[i]);
            }
        }
    } else {
        assert(w =~= Seq::<char>::empty());
        assert(segs.flatten() + w =~= segs.flatten());
    }
}

/// A token that starts with the word marker (the bare marker included)
/// always closes a non-empty word: the word is emitted as a segment and the
/// token's text after the marker starts the next word. Any other token, or
/// a marker on an empty word, emits nothing.
pub proof fn lemma_marker_closes_word(word: Seq<char>, tok: Seq<char>)
    ensures
        word.len() > 0 && tok.len() > 0 && tok[0] == WORD_PREFIX ==> emit_spec(Some(tok), word) == (
            tok.drop_first(),
            Some(word),
        ),
        word.len() == 0 && tok.len() > 0 && tok[0] == WORD_PREFIX ==> emit_spec(Some(tok), word)
            == (tok.drop_first(), None::<Seq<char>>),
        !(tok.len() > 0 && tok[0] == WORD_PREFIX) ==> emit_spec(Some(tok), word) == (
            word + tok,
            None::<Seq<char>>,
        ),
        emit_spec(None, word) == (word, None::<Seq<char>>),
{
    assert(Seq::<char>::empty() + tok.drop_first() =~= tok.drop_first());
}

/// Appends a decoded subword token to the current word; returns the word it
/// completed, if any, to be emitted as a segment.
pub fn emit_token(token: Option<&str>, word: &mut String) -> (flushed: Option<String>)
    ensures
        ({
            let (w, f) = emit_spec(
                match token {
                    Some(t) => Some(t@),
                    None => None,
                },
                old(word)@,
            );
            &&& final(word)@ == w
            &&& match f {
                Some(x) => flushed matches Some(y) && y@ == x,
                None => flushed is None,
            }
        }),
{
    match token {
        None => None,
        Some(tok) => {
            let n = tok.unicode_len();
            if n > 0 && tok.get_char(0) == WORD_PREFIX {
                let rest = tok.substring_char(1, n);
                assert(rest@ =~= tok@.drop_first());
                if !word.as_str().is_empty() {
                    let mut fresh = rest.to_owned();
                    std::mem::swap(word, &mut fresh);
                    Some(fresh)
                } else {
                    word.append(rest);
                    None
                }
            } else {
                word.append(tok);
                None
            }
        },
    }
}

/// The word still being assembled when decoding ends, if it is not empty.
pub fn finish_word(word: String) -> (r: Option<String>)
    ensures
        word@.len() == 0 ==> r is None,
        word@.len() > 0 ==> r == Some(word),
{
    if word.as_str().is_empty() {
        None
    } else {
        Some(word)
    }
}


/// The pieces of `s` between line breaks (`'\n'`), in order; there is one
/// more piece than there are line breaks.
pub open spec fn line_pieces(s: Seq<char>) -> Seq<Seq<char>>
    decreases s.len(),
{
    if s.len() == 0 {
        seq![Seq::<char>::empty()]
    } else {
        let p = line_pieces(s.drop_last());
        if s.last() == '\n' {
            p.push(Seq::<char>::empty())
        } else {
            p.update(p.len() - 1, p.last().push(s.last()))
        }
    }
}

/// The lines of a text, split at `'\n'`: the final line break is optional,
/// so an empty last piece is not a line. Unlike `str::lines`, a `'\r'`
/// before a `'\n'` stays at the end of its line; [`first_field`] drops it
/// with the other white space, so the vocabulary tokens are those
/// `str::lines` would give.
pub open spec fn text_lines(s: Seq<char>) -> Seq<Seq<char>> {
    let p = line_pieces(s);
    if p.last().len() == 0 {
        p.drop_last()
    } else {
        p
    }
}

/// The longest prefix of `s` that holds no white space.
pub open spec fn non_white_prefix(s: Seq<char>) -> Seq<char>
    decreases s.len(),
{
    if s.len() > 0 && !is_white_space(s[0]) {
        seq![s[0]] + non_white_prefix(s.drop_first())
    } else {
        Seq::empty()
    }
}

/// The first white-space separated field of a line (what
/// `split_whitespace().next()` yields), or nothing: the longest prefix free
/// of white space once leading white space is dropped.
pub open spec fn first_field(line: Seq<char>) -> Seq<char> {
    non_white_prefix(trim_start(line))
}

/// Whether something follows the first field of a line.
spec fn field_ended(line: Seq<char>) -> bool {
    first_field(line).len() < trim_start(line).len()
}

proof fn lemma_trim_start_push(s: Seq<char>, c: char)
    ensures
        trim_start(s.push(c)) == (if trim_start(s).len() == 0 && is_white_space(c) {
            Seq::<char>::empty()
        } else {
            trim_start(s).push(c)
        }),
    decreases s.len(),
{
    if s.len() == 0 {
        assert(s.push(c) =~= seq![c]);
        assert(seq![c].drop_first() =~= Seq::<char>::empty());
        assert(trim_start(Seq::<char>::empty()) =~= Seq::<char>::empty());
        assert(s =~= Seq::<char>::empty());
        if is_white_space(c) {
            assert(trim_start(seq![c]) == trim_start(Seq::<char>::empty()));
        } else {
            assert(trim_start(seq![c]) == seq![c]);
        }
    } else {
        assert(s.push(c)[0] == s[0]);
        if is_white_space(s[0]) {
            assert(s.push(c).drop_first() =~= s.drop_first().push(c));
            lemma_trim_start_push(s.drop_first(), c);
        }
    }
}

proof fn lemma_non_white_prefix_push(t: Seq<char>, c: char)
    ensures
        non_white_prefix(t).len() <= t.len(),
        non_white_prefix(t) =~= t.take(non_white_prefix(t).len() as int),
        non_white_prefix(t.push(c)) == (if non_white_prefix(t).len() < t.len() {
            non_white_prefix(t)
        } else if is_white_space(c) {
            t
        } else {
            t.push(c)
        }),
    decreases t.len(),
{
    if t.len() == 0 {
        assert(t.push(c) =~= seq![c]);
        assert(seq![c].drop_first() =~= Seq::<char>::empty());
        assert(seq![c] + Seq::<char>::empty() =~= seq![c]);
        assert(t =~= Seq::<char>::empty());
    } else {
        assert(t.push(c)[0] == t[0]);
        assert(t.push(c).drop_first() =~= t.drop_first().push(c));
        lemma_non_white_prefix_push(t.drop_first(), c);
        if !is_white_space(t[0]) {
            let r = non_white_prefix(t.drop_first());
            assert(non_white_prefix(t) == seq![t[0]] + r);
            assert(seq![t[0]] + t.drop_first().take(r.len() as int) =~= t.take(r.len() as int + 1));
            if r.len() == t.drop_first().len() {
                assert(seq![t[0]] + t.drop_first() =~= t);
                assert(seq![t[0]] + t.drop_first().push(c) =~= t.push(c));
            }
        }
    }
}

/// How the first field of a line grows by one more character, as the
/// vocabulary scan tracks it.
proof fn lemma_field_step(line: Seq<char>, c: char)
    ensures
        first_field(line.push(c)) == (if field_ended(line) || is_white_space(c) {
            first_field(line)
        } else {
            first_field(line).push(c)
        }),
        field_ended(line.push(c)) == (if field_ended(line) {
            true
        } else if is_white_space(c) {
            first_field(line).len() > 0
        } else {
            false
        }),
{
    let t = trim_start(line);
    lemma_trim_start_push(line, c);
    lemma_non_white_prefix_push(t, c);
    if t.len() == 0 && is_white_space(c) {
        assert(non_white_prefix(Seq::<char>::empty()) =~= Seq::<char>::empty());
    } else {
        lemma_non_white_prefix_push(t.push(c), c);
        if !field_ended(line) {
            assert(non_white_prefix(t) =~= t);
        }
    }
}

/// The tokens of a vocabulary file: the first field of every line (some
/// exports append an index column).
pub open spec fn vocab_tokens(text: Seq<char>) -> Seq<Seq<char>> {
    text_lines(text).map_values(|l: Seq<char>| first_field(l))
}

pub open spec fn strings_view(v: Seq<String>) -> Seq<Seq<char>> {
    v.map_values(|t: String| t@)
}

/// Why a vocabulary file was refused.
#[derive(Debug, Clone, Copy, PartialEq, Eq, Structural)]
pub enum VocabError {
    /// The file holds no line at all.
    Empty,
}

proof fn lemma_pieces_nonempty(s: Seq<char>)
    ensures
        line_pieces(s).len() >= 1,
    decreases s.len(),
{
    if s.len() > 0 {
        lemma_pieces_nonempty(s.drop_last());
    }
}

/// Reads `vocab.txt`: one token per line, the first field of each line.
pub fn parse_vocab(text: &str) -> (r: Result<Vec<String>, VocabError>)
    ensures
        vocab_tokens(text@).len() == 0 ==> r == Err::<Vec<String>, VocabError>(VocabError::Empty),
        vocab_tokens(text@).len() > 0 ==> (r matches Ok(v) && strings_view(v@) == vocab_tokens(text@)),
{
    let mut tokens: Vec<String> = Vec::new();
    let mut cur = String::new();
    let mut ended = false;
    let mut line_nonempty = false;
    proof {
        lemma_pieces_nonempty(Seq::<char>::empty());
    }
    for c in it: text.chars()
        invariant
            it.seq() == text@,
            line_pieces(it.seq().take(it.index())).len() >= 1,
            strings_view(tokens@) == line_pieces(it.seq().take(it.index())).drop_last().map_values(
                |l: Seq<char>| first_field(l),
            ),
            cur@ == first_field(line_pieces(it.seq().take(it.index())).last()),
            ended == field_ended(line_pieces(it.seq().take(it.index())).last()),
            line_nonempty == (line_pieces(it.seq().take(it.index())).last().len() > 0),
    {
        let ghost prefix = it.seq().take(it.index());
        let ghost next = it.seq().take(it.index() + 1);
        let ghost p = line_pieces(prefix);
        proof {
            assert(next.drop_last() =~= prefix);
            assert(next.last() == c);
            lemma_pieces_nonempty(next);
        }
        if c == '\n' {
            let mut done = String::new();
            std::mem::swap(&mut cur, &mut done);
            let ghost before = tokens@;
            tokens.push(done);
            ended = false;
            line_nonempty = false;
            proof {
                let q = line_pieces(next);
                assert(q == p.push(Seq::<char>::empty()));
                assert(q.drop_last() =~= p);
                assert(tokens@ =~= before.push(done));
                assert(strings_view(before).len() == before.len());
                assert(before.len() == p.len() - 1);
                assert(strings_view(tokens@).len() == p.len());
                assert forall|i: int| 0 <= i < p.len() implies strings_view(tokens@)[i]
                    == first_field(p[i]) by {
                    if i < p.len() - 1 {
                        assert(strings_view(tokens@)[i] == strings_view(before)[i]);
                        assert(p.drop_last()[i] == p[i]);
                    }
                }
                assert(strings_view(tokens@) =~= q.drop_last().map_values(
                    |l: Seq<char>| first_field(l),
                ));
            }
        } else {
            proof {
                let q = line_pieces(next);
                assert(q == p.update(p.len() - 1, p.last().push(c)));
                assert(q.drop_last() =~= p.drop_last());
                assert(q.last() == p.last().push(c));
                assert(q.last().drop_last() =~= p.last());
                lemma_field_step(p.last(), c);
            }
            line_nonempty = true;
            if !ended {
                if white_space(c) {
                    ended = !cur.as_str().is_empty();
                } else {
                    push_char(&mut cur, c);
                }
            }
            proof {
                let q = line_pieces(next);
                assert(strings_view(tokens@) =~= q.drop_last().map_values(
                    |l: Seq<char>| first_field(l),
                ));
            }
        }
    }
    proof {
        assert(text@.take(text@.len() as int) =~= text@);
    }
    if line_nonempty {
        let ghost before = tokens@;
        let ghost last = cur@;
        tokens.push(cur);
        proof {
            let p = line_pieces(text@);
            assert(tokens@ =~= before.push(tokens@.last()));
            assert(strings_view(before).len() == before.len());
            assert(before.len() == p.len() - 1);
            assert(strings_view(tokens@).len() == p.len());
            assert forall|i: int| 0 <= i < p.len() implies strings_view(tokens@)[i]
                == first_field(p[i]) by {
                if i < p.len() - 1 {
                    assert(strings_view(tokens@)[i] == strings_view(before)[i]);
                    assert(p.drop_last()[i] == p[i]);
                }
            }
            assert(strings_view(tokens@) =~= text_lines(text@).map_values(
                |l: Seq<char>| first_field(l),
            ));
        }
    }
    if tokens.len() == 0 {
        Err(VocabError::Empty)
    } else {
        Ok(tokens)
    }
}

/// The error text for a network output that is missing from an export.
pub open spec fn missing_text(name: Seq<char>, model: Seq<char>) -> Seq<char> {
    model + " output '"@ + name
        + "' not found \u{2014} does this ONNX export use different tensor names?"@
}

/// Tells the user that `model` has no output called `name`.
pub fn missing(name: &str, model: &str) -> (r: String)
    ensures
        r@ == missing_text(name@, model@),
{
    let mut m = model.to_owned();
    m.append(" output '");
    m.append(name);
    m.append("' not found \u{2014} does this ONNX export use different tensor names?");
    m
}

} // verus!
