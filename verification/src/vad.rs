//! Voice activity detection with auto-stop on trailing silence.
//!
//! Each audio chunk is classified by its energy (the comparison with the
//! threshold is made by the caller) and fed here with a monotonic timestamp
//! in nanoseconds. Once speech has been heard, the first quiet chunk starts a
//! silence timer; when quiet chunks keep arriving for the configured time the
//! detector reports a timeout. Silence before any speech never times out.

use vstd::prelude::*;

verus! {

/// What a chunk of audio was found to hold.
#[derive(Debug, Clone, Copy, PartialEq, Eq, Structural)]
pub enum Chunk {
    /// No samples at all.
    Empty,
    /// Energy at or below the speech threshold.
    Quiet,
    /// Energy above the speech threshold.
    Loud,
}

/// The outcome of feeding one chunk.
#[derive(Debug, Clone, Copy, PartialEq, Eq, Structural)]
pub enum VadEvent {
    /// The chunk contains speech.
    Speech,
    /// The chunk is silent and nothing else happened.
    Silence,
    /// First silent chunk after speech: the trailing-silence timer started.
    SilenceStart,
    /// Trailing silence lasted long enough: stop recording.
    SilenceTimeout,
}

/// The state of the detector as a plain value.
pub struct VadState {
    pub silence_duration_ms: u64,
    /// When (in ns) the current run of trailing silence began, if any.
    pub silent_since: Option<u64>,
    pub heard_speech: bool,
}

/// Whole milliseconds elapsed from `since` to `now` (both in ns).
pub open spec fn elapsed_ms(since: u64, now: u64) -> int {
    if now >= since {
        (now - since) / 1_000_000
    } else {
        0
    }
}

/// One step of the detector.
pub open spec fn vad_step(s: VadState, chunk: Chunk, now: u64) -> (VadState, VadEvent) {
    match chunk {
        Chunk::Empty => (s, VadEvent::Silence),
        Chunk::Loud => (
            VadState { silence_duration_ms: s.silence_duration_ms, silent_since: None, heard_speech: true },
            VadEvent::Speech,
        ),
        Chunk::Quiet => if !s.heard_speech {
            (s, VadEvent::Silence)
        } else {
            match s.silent_since {
                Some(since) => if elapsed_ms(since, now) >= s.silence_duration_ms {
                    (s, VadEvent::SilenceTimeout)
                } else {
                    (s, VadEvent::Silence)
                },
                None => (
                    VadState {
                        silence_duration_ms: s.silence_duration_ms,
                        silent_since: Some(now),
                        heard_speech: true,
                    },
                    VadEvent::SilenceStart,
                ),
            }
        },
    }
}

/// Feeds `chunks[i]` at time `times[i]`, in order; the final state and the
/// events reported.
pub open spec fn vad_run(s: VadState, chunks: Seq<Chunk>, times: Seq<u64>) -> (
    VadState,
    Seq<VadEvent>,
)
    recommends
        chunks.len() == times.len(),
    decreases chunks.len(),
{
    if chunks.len() == 0 {
        (s, Seq::empty())
    } else {
        let (s1, e) = vad_step(s, chunks[0], times[0]);
        let (s2, es) = vad_run(s1, chunks.drop_first(), times.drop_first());
        (s2, seq![e] + es)
    }
}

/// Energy-based voice activity detector.
pub struct Vad {
    silence_duration_ms: u64,
    silent_since: Option<u64>,
    has_heard_speech: bool,
}

impl View for Vad {
    type V = VadState;

    closed spec fn view(&self) -> VadState {
        VadState {
            silence_duration_ms: self.silence_duration_ms,
            silent_since: self.silent_since,
            heard_speech: self.has_heard_speech,
        }
    }
}

impl Vad {
    /// A detector that stops after `silence_duration_ms` of trailing silence.
    pub fn new(silence_duration_ms: u64) -> (r: Vad)
        ensures
            r@ == (VadState { silence_duration_ms, silent_since: None, heard_speech: false }),
    {
        Vad { silence_duration_ms, silent_since: None, has_heard_speech: false }
    }

    /// Whether any speech has been observed so far.
    pub fn heard_speech(&self) -> (r: bool)
        ensures
            r == self@.heard_speech,
    {
        self.has_heard_speech
    }

    /// Feeds one chunk, observed at `now_ns`, and reports what it means.
    pub fn push(&mut self, chunk: Chunk, now_ns: u64) -> (e: VadEvent)
        ensures
            (final(self)@, e) == vad_step(old(self)@, chunk, now_ns),
    {
        match chunk {
            Chunk::Empty => VadEvent::Silence,
            Chunk::Loud => {
                self.has_heard_speech = true;
                self.silent_since = None;
                VadEvent::Speech
            },
            Chunk::Quiet => {
                if !self.has_heard_speech {
                    VadEvent::Silence
                } else {
                    match self.silent_since {
                        Some(since) => {
                            let elapsed = now_ns.saturating_sub(since) / 1_000_000;
                            if elapsed >= self.silence_duration_ms {
                                VadEvent::SilenceTimeout
                            } else {
                                VadEvent::Silence
                            }
                        },
                        None => {
                            self.silent_since = Some(now_ns);
                            VadEvent::SilenceStart
                        },
                    }
                }
            },
        }
    }
}


/// Silence before the user starts talking never times out: from a state that
/// has heard no speech, any run of chunks without speech reports only
/// `Silence` and leaves the state unchanged.
pub proof fn lemma_no_timeout_before_speech(s: VadState, chunks: Seq<Chunk>, times: Seq<u64>)
    requires
        !s.heard_speech,
        chunks.len() == times.len(),
        forall|i: int| 0 <= i < chunks.len() ==> chunks[i] != Chunk::Loud,
    ensures
        vad_run(s, chunks, times).0 == s,
        vad_run(s, chunks, times).1.len() == chunks.len(),
        forall|i: int|
            0 <= i < chunks.len() ==> vad_run(s, chunks, times).1[i] == VadEvent::Silence,
    decreases chunks.len(),
{
    if chunks.len() > 0 {
        lemma_no_timeout_before_speech(s, chunks.drop_first(), times.drop_first());
        let es = vad_run(s, chunks.drop_first(), times.drop_first()).1;
        assert forall|i: int| 0 <= i < chunks.len() implies vad_run(
            s,
            chunks,
            times,
        ).1[i] == VadEvent::Silence by {
            if i > 0 {
                assert(chunks.drop_first()[i - 1] == chunks[i]);
            }
        }
    }
}

/// Once a silence run has started, no further `SilenceStart` is reported
/// until speech is heard again: the event fires once per speech run.
pub proof fn lemma_silence_start_once_per_run(
    s: VadState,
    now: u64,
    chunks: Seq<Chunk>,
    times: Seq<u64>,
)
    requires
        vad_step(s, Chunk::Quiet, now).1 == VadEvent::SilenceStart,
        chunks.len() == times.len(),
        forall|i: int| 0 <= i < chunks.len() ==> chunks[i] != Chunk::Loud,
    ensures
        vad_run(vad_step(s, Chunk::Quiet, now).0, chunks, times).1.len() == chunks.len(),
        forall|i: int|
            0 <= i < chunks.len() ==> vad_run(vad_step(s, Chunk::Quiet, now).0, chunks, times).1[i]
                != VadEvent::SilenceStart,
{
    lemma_armed_run(vad_step(s, Chunk::Quiet, now).0, chunks, times);
}

/// A detector whose silence timer runs keeps it running through chunks
/// without speech, and reports no `SilenceStart` or `Speech` meanwhile.
pub proof fn lemma_armed_run(s: VadState, chunks: Seq<Chunk>, times: Seq<u64>)
    requires
        s.silent_since is Some,
        s.heard_speech,
        chunks.len() == times.len(),
        forall|i: int| 0 <= i < chunks.len() ==> chunks[i] != Chunk::Loud,
    ensures
        vad_run(s, chunks, times).0 == s,
        vad_run(s, chunks, times).1.len() == chunks.len(),
        forall|i: int|
            0 <= i < chunks.len() ==> vad_run(s, chunks, times).1[i] != VadEvent::SilenceStart
                && vad_run(s, chunks, times).1[i] != VadEvent::Speech,
    decreases chunks.len(),
{
    if chunks.len() > 0 {
        lemma_armed_run(s, chunks.drop_first(), times.drop_first());
        assert forall|i: int| 0 <= i < chunks.len() implies vad_run(s, chunks, times).1[i]
            != VadEvent::SilenceStart && vad_run(s, chunks, times).1[i] != VadEvent::Speech by {
            if i > 0 {
                assert(chunks.drop_first()[i - 1] == chunks[i]);
            }
        }
    }
}

/// A timeout is only ever reported after speech, once the silence timer has
/// run for at least the configured time.
pub proof fn lemma_timeout_needs_speech_and_time(s: VadState, chunk: Chunk, now: u64)
    requires
        vad_step(s, chunk, now).1 == VadEvent::SilenceTimeout,
    ensures
        s.heard_speech,
        chunk == Chunk::Quiet,
        s.silent_since matches Some(since) && elapsed_ms(since, now) >= s.silence_duration_ms,
{
}

/// Trailing silence that has lasted the configured time stops the
/// recording: once the timer runs, a quiet chunk at least that late reports
/// a timeout.
pub proof fn lemma_timeout_fires(s: VadState, since: u64, now: u64)
    requires
        s.heard_speech,
        s.silent_since == Some(since),
        elapsed_ms(since, now) >= s.silence_duration_ms,
    ensures
        vad_step(s, Chunk::Quiet, now).1 == VadEvent::SilenceTimeout,
{
}

/// Speaking again clears the timer: the next quiet chunk starts a fresh
/// silence run.
pub proof fn lemma_speech_resets_timer(s: VadState, t1: u64, t2: u64)
    ensures
        vad_step(s, Chunk::Loud, t1).1 == VadEvent::Speech,
        vad_step(vad_step(s, Chunk::Loud, t1).0, Chunk::Quiet, t2).1 == VadEvent::SilenceStart,
        vad_step(vad_step(s, Chunk::Loud, t1).0, Chunk::Quiet, t2).0.silent_since == Some(t2),
{
}

/// Having heard speech is never forgotten.
pub proof fn lemma_heard_speech_is_kept(s: VadState, chunks: Seq<Chunk>, times: Seq<u64>)
    requires
        s.heard_speech,
        chunks.len() == times.len(),
    ensures
        vad_run(s, chunks, times).0.heard_speech,
    decreases chunks.len(),
{
    if chunks.len() > 0 {
        lemma_heard_speech_is_kept(
            vad_step(s, chunks[0], times[0]).0,
            chunks.drop_first(),
            times.drop_first(),
        );
    }
}

/// The events reported by [`vad_run`].
pub open spec fn vad_events(s: VadState, chunks: Seq<Chunk>, times: Seq<u64>) -> Seq<VadEvent> {
    vad_run(s, chunks, times).1
}

/// The detector's state before any chunk.
pub open spec fn vad_initial(silence_duration_ms: u64) -> VadState {
    VadState { silence_duration_ms, silent_since: None, heard_speech: false }
}

proof fn lemma_events_unfold(s: VadState, chunks: Seq<Chunk>, times: Seq<u64>)
    requires
        chunks.len() == times.len(),
        chunks.len() > 0,
    ensures
        vad_events(s, chunks, times).len() == chunks.len(),
        vad_events(s, chunks, times)[0] == vad_step(s, chunks[0], times[0]).1,
        forall|i: int|
            0 <= i < chunks.len() - 1 ==> vad_events(s, chunks, times)[i + 1] == vad_events(
                vad_step(s, chunks[0], times[0]).0,
                chunks.drop_first(),
                times.drop_first(),
            )[i],
{
    lemma_events_len(vad_step(s, chunks[0], times[0]).0, chunks.drop_first(), times.drop_first());
}

proof fn lemma_events_len(s: VadState, chunks: Seq<Chunk>, times: Seq<u64>)
    requires
        chunks.len() == times.len(),
    ensures
        vad_events(s, chunks, times).len() == chunks.len(),
    decreases chunks.len(),
{
    if chunks.len() > 0 {
        lemma_events_len(vad_step(s, chunks[0], times[0]).0, chunks.drop_first(), times.drop_first());
    }
}

/// A `SilenceStart` or `SilenceTimeout` at `k` from a detector that has not
/// heard speech needs a `Speech` earlier in the run.
proof fn lemma_needs_speech(s: VadState, chunks: Seq<Chunk>, times: Seq<u64>, k: int)
    requires
        chunks.len() == times.len(),
        0 <= k < chunks.len(),
        !s.heard_speech,
        vad_events(s, chunks, times)[k] == VadEvent::SilenceStart || vad_events(s, chunks, times)[k]
            == VadEvent::SilenceTimeout,
    ensures
        exists|j: int| 0 <= j < k && #[trigger] vad_events(s, chunks, times)[j] == VadEvent::Speech,
    decreases chunks.len(),
{
    let s1 = vad_step(s, chunks[0], times[0]).0;
    lemma_events_unfold(s, chunks, times);
    let e = vad_events(s, chunks, times);
    let e1 = vad_events(s1, chunks.drop_first(), times.drop_first());
    if e[0] == VadEvent::Speech {
        assert(0 < k);
    } else {
        assert(k > 0);
        assert(e1[k - 1] == e[k]);
        lemma_needs_speech(s1, chunks.drop_first(), times.drop_first(), k - 1);
        let j = choose|j: int| 0 <= j < k - 1 && #[trigger] e1[j] == VadEvent::Speech;
        assert(e[j + 1] == VadEvent::Speech);
    }
}

/// While a silence run is going on, a `SilenceStart` at `k` needs a
/// `Speech` earlier in the run.
proof fn lemma_start_needs_speech(s: VadState, chunks: Seq<Chunk>, times: Seq<u64>, k: int)
    requires
        chunks.len() == times.len(),
        0 <= k < chunks.len(),
        s.silent_since is Some,
        vad_events(s, chunks, times)[k] == VadEvent::SilenceStart,
    ensures
        exists|j: int| 0 <= j < k && #[trigger] vad_events(s, chunks, times)[j] == VadEvent::Speech,
    decreases chunks.len(),
{
    let s1 = vad_step(s, chunks[0], times[0]).0;
    lemma_events_unfold(s, chunks, times);
    let e = vad_events(s, chunks, times);
    let e1 = vad_events(s1, chunks.drop_first(), times.drop_first());
    if e[0] == VadEvent::Speech {
        assert(0 < k);
    } else {
        assert(k > 0);
        assert(e1[k - 1] == e[k]);
        lemma_start_needs_speech(s1, chunks.drop_first(), times.drop_first(), k - 1);
        let j = choose|j: int| 0 <= j < k - 1 && #[trigger] e1[j] == VadEvent::Speech;
        assert(e[j + 1] == VadEvent::Speech);
    }
}

/// Between two `SilenceStart` events there is a `Speech` event.
proof fn lemma_starts_separated(s: VadState, chunks: Seq<Chunk>, times: Seq<u64>, i: int, k: int)
    requires
        chunks.len() == times.len(),
        0 <= i < k < chunks.len(),
        vad_events(s, chunks, times)[i] == VadEvent::SilenceStart,
        vad_events(s, chunks, times)[k] == VadEvent::SilenceStart,
    ensures
        exists|j: int| i < j < k && #[trigger] vad_events(s, chunks, times)[j] == VadEvent::Speech,
    decreases chunks.len(),
{
    let s1 = vad_step(s, chunks[0], times[0]).0;
    lemma_events_unfold(s, chunks, times);
    let e = vad_events(s, chunks, times);
    let e1 = vad_events(s1, chunks.drop_first(), times.drop_first());
    assert(e1[k - 1] == e[k]);
    if i == 0 {
        lemma_start_needs_speech(s1, chunks.drop_first(), times.drop_first(), k - 1);
        let j = choose|j: int| 0 <= j < k - 1 && #[trigger] e1[j] == VadEvent::Speech;
        assert(e[j + 1] == VadEvent::Speech);
    } else {
        assert(e1[i - 1] == e[i]);
        lemma_starts_separated(s1, chunks.drop_first(), times.drop_first(), i - 1, k - 1);
        let j = choose|j: int| i - 1 < j < k - 1 && #[trigger] e1[j] == VadEvent::Speech;
        assert(e[j + 1] == VadEvent::Speech);
    }
}

/// For a `SilenceTimeout` at `k`, the index of the `SilenceStart` that began
/// its silence run with no `Speech` since; or `-1` when that run was already
/// going on before the run of chunks began (and no speech came since).
proof fn lemma_timeout_follows_start(s: VadState, chunks: Seq<Chunk>, times: Seq<u64>, k: int) -> (i: int)
    requires
        chunks.len() == times.len(),
        0 <= k < chunks.len(),
        vad_events(s, chunks, times)[k] == VadEvent::SilenceTimeout,
    ensures
        -1 <= i < k,
        i == -1 ==> s.silent_since is Some,
        i >= 0 ==> vad_events(s, chunks, times)[i] == VadEvent::SilenceStart,
        forall|j: int| i < j < k ==> #[trigger] vad_events(s, chunks, times)[j] != VadEvent::Speech,
    decreases chunks.len(),
{
    let s1 = vad_step(s, chunks[0], times[0]).0;
    lemma_events_unfold(s, chunks, times);
    let e = vad_events(s, chunks, times);
    let e1 = vad_events(s1, chunks.drop_first(), times.drop_first());
    if k == 0 {
        -1
    } else {
        assert(e1[k - 1] == e[k]);
        let i1 = lemma_timeout_follows_start(s1, chunks.drop_first(), times.drop_first(), k - 1);
        assert forall|j: int| i1 + 1 < j < k implies #[trigger] e[j] != VadEvent::Speech by {
            assert(e[j] == e1[j - 1]);
        }
        if i1 >= 0 {
            assert(e[i1 + 1] == e1[i1]);
            i1 + 1
        } else if e[0] == VadEvent::SilenceStart {
            0
        } else {
            assert(e[0] != VadEvent::Speech);
            -1
        }
    }
}

/// The detector has heard speech after a run exactly when it had before, or
/// the run reported `Speech`.
proof fn lemma_heard_iff_speech(s: VadState, chunks: Seq<Chunk>, times: Seq<u64>)
    requires
        chunks.len() == times.len(),
    ensures
        vad_run(s, chunks, times).0.heard_speech <==> (s.heard_speech || exists|j: int|
            0 <= j < chunks.len() && #[trigger] vad_events(s, chunks, times)[j] == VadEvent::Speech),
    decreases chunks.len(),
{
    if chunks.len() > 0 {
        let s1 = vad_step(s, chunks[0], times[0]).0;
        lemma_events_unfold(s, chunks, times);
        lemma_heard_iff_speech(s1, chunks.drop_first(), times.drop_first());
        let e = vad_events(s, chunks, times);
        let e1 = vad_events(s1, chunks.drop_first(), times.drop_first());
        if exists|j: int| 0 <= j < chunks.len() - 1 && #[trigger] e1[j] == VadEvent::Speech {
            let j = choose|j: int| 0 <= j < chunks.len() - 1 && #[trigger] e1[j] == VadEvent::Speech;
            assert(e[j + 1] == VadEvent::Speech);
        }
        if exists|j: int| 0 <= j < chunks.len() && #[trigger] e[j] == VadEvent::Speech {
            let j = choose|j: int| 0 <= j < chunks.len() && #[trigger] e[j] == VadEvent::Speech;
            if j > 0 {
                assert(e1[j - 1] == VadEvent::Speech);
            }
        }
    }
}

/// Some event in `e[lo..hi]` is `Speech`.
#[verifier::opaque]
pub open spec fn speech_in(e: Seq<VadEvent>, lo: int, hi: int) -> bool {
    exists|j: int| lo <= j < hi && #[trigger] e[j] == VadEvent::Speech
}

/// No event in `e[lo..hi]` is `Speech`.
#[verifier::opaque]
pub open spec fn no_speech_in(e: Seq<VadEvent>, lo: int, hi: int) -> bool {
    forall|j: int| lo <= j < hi ==> #[trigger] e[j] != VadEvent::Speech
}

/// Some `SilenceStart` in `e[..k]` is followed by no `Speech` up to `k`:
/// a silence run that started before `k` is still going on at `k`.
#[verifier::opaque]
pub open spec fn silence_run_open(e: Seq<VadEvent>, k: int) -> bool {
    exists|i: int| 0 <= i < k && #[trigger] e[i] == VadEvent::SilenceStart && no_speech_in(e, i + 1, k)
}

/// What a detector reports over any sequence of chunks from its creation:
/// no `SilenceStart` or `SilenceTimeout` before the first `Speech`; between
/// two `SilenceStart` events there is a `Speech` (one start per speech
/// run); every `SilenceTimeout` follows a `SilenceStart` with no `Speech`
/// in between (its silence run is still open); and the detector has heard speech exactly when a `Speech`
/// was reported (and [`lemma_heard_speech_is_kept`]: it never forgets).
pub proof fn lemma_vad_event_order(silence_duration_ms: u64, chunks: Seq<Chunk>, times: Seq<u64>)
    requires
        chunks.len() == times.len(),
    ensures
        ({
            let s = vad_initial(silence_duration_ms);
            let e = vad_events(s, chunks, times);
            &&& e.len() == chunks.len()
            &&& forall|k: int|
                0 <= k < e.len() && (#[trigger] e[k] == VadEvent::SilenceStart || e[k]
                    == VadEvent::SilenceTimeout) ==> speech_in(e, 0, k)
            &&& forall|i: int, k: int|
                0 <= i < k < e.len() && #[trigger] e[i] == VadEvent::SilenceStart && #[trigger] e[k]
                    == VadEvent::SilenceStart ==> speech_in(e, i + 1, k)
            &&& forall|k: int|
                0 <= k < e.len() && #[trigger] e[k] == VadEvent::SilenceTimeout ==> silence_run_open(
                    e,
                    k,
                )
            &&& vad_run(s, chunks, times).0.heard_speech == speech_in(e, 0, e.len() as int)
        }),
{
    let s = vad_initial(silence_duration_ms);
    let e = vad_events(s, chunks, times);
    lemma_events_len(s, chunks, times);
    lemma_heard_iff_speech(s, chunks, times);
    assert(vad_run(s, chunks, times).0.heard_speech == speech_in(e, 0, e.len() as int)) by {
        reveal(speech_in);
    }
    lemma_order_needs_speech(s, chunks, times);
    lemma_order_starts(s, chunks, times);
    lemma_order_timeouts(s, chunks, times);
}

proof fn lemma_order_needs_speech(s: VadState, chunks: Seq<Chunk>, times: Seq<u64>)
    requires
        chunks.len() == times.len(),
        !s.heard_speech,
    ensures
        forall|k: int|
            0 <= k < chunks.len() && (#[trigger] vad_events(s, chunks, times)[k]
                == VadEvent::SilenceStart || vad_events(s, chunks, times)[k]
                == VadEvent::SilenceTimeout) ==> speech_in(vad_events(s, chunks, times), 0, k),
{
    let e = vad_events(s, chunks, times);
    assert forall|k: int|
        0 <= k < chunks.len() && (#[trigger] e[k] == VadEvent::SilenceStart || e[k]
            == VadEvent::SilenceTimeout) implies speech_in(e, 0, k) by {
        lemma_needs_speech(s, chunks, times, k);
        reveal(speech_in);
    }
}

proof fn lemma_order_starts(s: VadState, chunks: Seq<Chunk>, times: Seq<u64>)
    requires
        chunks.len() == times.len(),
    ensures
        forall|i: int, k: int|
            0 <= i < k < chunks.len() && #[trigger] vad_events(s, chunks, times)[i]
                == VadEvent::SilenceStart && #[trigger] vad_events(s, chunks, times)[k]
                == VadEvent::SilenceStart ==> speech_in(vad_events(s, chunks, times), i + 1, k),
{
    let e = vad_events(s, chunks, times);
    assert forall|i: int, k: int|
        0 <= i < k < chunks.len() && #[trigger] e[i] == VadEvent::SilenceStart && #[trigger] e[k]
            == VadEvent::SilenceStart implies speech_in(e, i + 1, k) by {
        lemma_starts_separated(s, chunks, times, i, k);
        reveal(speech_in);
    }
}

proof fn lemma_order_timeouts(s: VadState, chunks: Seq<Chunk>, times: Seq<u64>)
    requires
        chunks.len() == times.len(),
        s.silent_since is None,
    ensures
        forall|k: int|
            0 <= k < chunks.len() && #[trigger] vad_events(s, chunks, times)[k]
                == VadEvent::SilenceTimeout ==> silence_run_open(vad_events(s, chunks, times), k),
{
    let e = vad_events(s, chunks, times);
    assert forall|k: int|
        0 <= k < chunks.len() && #[trigger] e[k] == VadEvent::SilenceTimeout implies silence_run_open(
        e,
        k,
    ) by {
        let i = lemma_timeout_follows_start(s, chunks, times, k);
        reveal(no_speech_in);
        reveal(silence_run_open);
        assert(e[i] == VadEvent::SilenceStart);
        assert(no_speech_in(e, i + 1, k));
    }
}

} // verus!
