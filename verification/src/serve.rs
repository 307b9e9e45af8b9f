//! Decisions of the `serve` daemon: which stdin commands it understands,
//! what it does with them while idle and while listening, when to re-decode
//! a live partial transcript, and whether a finished capture is kept.
//!
//! The daemon loop itself (threads, microphone, stdout) drives these
//! functions; every time value is a monotonic timestamp in nanoseconds.

use vstd::prelude::*;
use vstd::string::StringExecFns;

use crate::protocol::{partial, render, LineKind};
use crate::text::{same_text, trim, trimmed};
use crate::vad::{Chunk, Vad, VadEvent, VadState, vad_step};

verus! {

/// A command read from stdin.
#[derive(Debug, Clone, Copy, PartialEq, Eq, Structural)]
pub enum Ctrl {
    Start,
    Cancel,
    Shutdown,
}

/// What one stdin line amounts to.
#[derive(Debug, Clone, Copy, PartialEq, Eq, Structural)]
pub enum StdinLine {
    Command(Ctrl),
    /// Nothing but white space: skipped silently.
    Blank,
    /// Some other text: skipped with a warning on stderr.
    Unknown,
}

/// The meaning of a stdin line, surrounding white space ignored.
pub open spec fn stdin_line_meaning(line: Seq<char>) -> StdinLine {
    let key = trimmed(line);
    if key == "START"@ {
        StdinLine::Command(Ctrl::Start)
    } else if key == "CANCEL"@ {
        StdinLine::Command(Ctrl::Cancel)
    } else if key == "SHUTDOWN"@ {
        StdinLine::Command(Ctrl::Shutdown)
    } else if key.len() == 0 {
        StdinLine::Blank
    } else {
        StdinLine::Unknown
    }
}

/// Classifies one line read from stdin.
pub fn parse_command(line: &str) -> (r: StdinLine)
    ensures
        r == stdin_line_meaning(line@),
{
    let key = trim(line);
    if same_text(key, "START") {
        StdinLine::Command(Ctrl::Start)
    } else if same_text(key, "CANCEL") {
        StdinLine::Command(Ctrl::Cancel)
    } else if same_text(key, "SHUTDOWN") {
        StdinLine::Command(Ctrl::Shutdown)
    } else if key.is_empty() {
        StdinLine::Blank
    } else {
        StdinLine::Unknown
    }
}

impl Ctrl {
    /// Whether the stdin reader stops after forwarding this command.
    pub fn ends_input(&self) -> (r: bool)
        ensures
            r == (*self == Ctrl::Shutdown),
    {
        match self {
            Ctrl::Shutdown => true,
            _ => false,
        }
    }
}

/// What the idle daemon does next.
#[derive(Debug, Clone, Copy, PartialEq, Eq, Structural)]
pub enum IdleAction {
    /// Open the microphone and listen for one utterance.
    Listen,
    /// Nothing is running; the command changes nothing.
    Ignore,
    /// Leave the command loop.
    Exit,
}

pub open spec fn idle_action(cmd: Option<Ctrl>) -> IdleAction {
    match cmd {
        Some(Ctrl::Start) => IdleAction::Listen,
        Some(Ctrl::Cancel) => IdleAction::Ignore,
        Some(Ctrl::Shutdown) => IdleAction::Exit,
        None => IdleAction::Exit,
    }
}

/// Reacts to a command received while idle; `None` means stdin closed.
pub fn on_idle_command(cmd: Option<Ctrl>) -> (r: IdleAction)
    ensures
        r == idle_action(cmd),
{
    match cmd {
        Some(Ctrl::Start) => IdleAction::Listen,
        Some(Ctrl::Cancel) => IdleAction::Ignore,
        Some(Ctrl::Shutdown) => IdleAction::Exit,
        None => IdleAction::Exit,
    }
}

/// The result of waiting a short while for audio.
#[derive(Debug, Clone, Copy, PartialEq, Eq, Structural)]
pub enum AudioPoll {
    /// A chunk arrived; the capture buffer now holds `total_len` samples.
    Received { chunk: Chunk, total_len: usize },
    /// Nothing arrived within the poll interval.
    TimedOut,
    /// The capture device went away.
    Disconnected,
}

/// The result of polling stdin for a command without blocking.
#[derive(Debug, Clone, Copy, PartialEq, Eq, Structural)]
pub enum CommandPoll {
    Got(Ctrl),
    Empty,
    Disconnected,
}

/// What the listening loop does after a command poll.
#[derive(Debug, Clone, Copy, PartialEq, Eq, Structural)]
pub enum Reaction {
    /// Go on listening (or finish, if the capture stopped).
    Continue,
    /// Release the microphone and shut the daemon down now.
    Shutdown,
}

/// How a finished capture ends.
#[derive(Debug, Clone, Copy, PartialEq, Eq, Structural)]
pub enum ListenEnd {
    /// Cancelled, or no speech heard: report `DONE` only.
    Discard,
    /// Transcribe the capture and report `FINAL` then `DONE`.
    Transcribe,
}

/// The state of one listening session as a plain value.
pub struct ListenerState {
    pub vad: VadState,
    pub partial_ms: u64,
    pub raw_len: usize,
    pub cancelled: bool,
    pub stop: bool,
    pub last_decoded_len: usize,
    /// Earliest time (ns) at which the next partial may be decoded.
    pub next_partial: int,
}

pub open spec fn ms_to_ns(ms: u64) -> int {
    ms * 1_000_000
}

pub open spec fn listener_start(silence_ms: u64, partial_ms: u64, now: u64) -> ListenerState {
    ListenerState {
        vad: VadState { silence_duration_ms: silence_ms, silent_since: None, heard_speech: false },
        partial_ms,
        raw_len: 0,
        cancelled: false,
        stop: false,
        last_decoded_len: 0,
        next_partial: now + ms_to_ns(partial_ms),
    }
}

/// The effect of one audio poll; the flag tells whether trailing silence
/// just began (reported as `PHASE silence`).
pub open spec fn listener_audio(s: ListenerState, poll: AudioPoll, now: u64) -> (ListenerState, bool) {
    match poll {
        AudioPoll::Received { chunk, total_len } => {
            let (v, e) = vad_step(s.vad, chunk, now);
            (
                ListenerState {
                    vad: v,
                    raw_len: total_len,
                    stop: s.stop || e == VadEvent::SilenceTimeout,
                    ..s
                },
                e == VadEvent::SilenceStart,
            )
        },
        AudioPoll::TimedOut => (s, false),
        AudioPoll::Disconnected => (ListenerState { stop: true, ..s }, false),
    }
}

/// The effect of one command poll while listening.
pub open spec fn listener_command(s: ListenerState, poll: CommandPoll) -> (ListenerState, Reaction) {
    match poll {
        CommandPoll::Got(Ctrl::Cancel) => (
            ListenerState { cancelled: true, stop: true, ..s },
            Reaction::Continue,
        ),
        CommandPoll::Got(Ctrl::Shutdown) => (s, Reaction::Shutdown),
        CommandPoll::Got(Ctrl::Start) => (s, Reaction::Continue),
        CommandPoll::Empty => (s, Reaction::Continue),
        CommandPoll::Disconnected => (s, Reaction::Shutdown),
    }
}

/// Whether a live partial is due: partials are enabled, the capture goes
/// on, speech was heard, new audio arrived since the last decode, and the
/// next slot has been reached.
pub open spec fn partial_due(s: ListenerState, now: u64) -> bool {
    &&& s.partial_ms > 0
    &&& !s.stop
    &&& s.vad.heard_speech
    &&& s.raw_len > s.last_decoded_len
    &&& now >= s.next_partial
}

/// The next partial slot after a decode that ran from `started` to
/// `finished`: one interval later, or as long as the decode took if that is
/// longer.
pub open spec fn next_slot(partial_ms: u64, started: u64, finished: u64) -> int {
    let took: int = if finished >= started { finished - started } else { 0 };
    finished + if took > ms_to_ns(partial_ms) { took } else { ms_to_ns(partial_ms) }
}

pub open spec fn listen_end(s: ListenerState) -> ListenEnd {
    if s.cancelled || !s.vad.heard_speech {
        ListenEnd::Discard
    } else {
        ListenEnd::Transcribe
    }
}

/// One listening session: voice activity, capture length, cancellation and
/// the pacing of live partial transcripts.
pub struct Listener {
    vad: Vad,
    partial_ms: u64,
    raw_len: usize,
    cancelled: bool,
    stop: bool,
    last_decoded_len: usize,
    next_partial: u128,
}

impl View for Listener {
    type V = ListenerState;

    closed spec fn view(&self) -> ListenerState {
        ListenerState {
            vad: self.vad@,
            partial_ms: self.partial_ms,
            raw_len: self.raw_len,
            cancelled: self.cancelled,
            stop: self.stop,
            last_decoded_len: self.last_decoded_len,
            next_partial: self.next_partial as int,
        }
    }
}

impl Listener {
    /// Starts a session at `now_ns`. `partial_ms` is the least gap between
    /// live partial decodes; `0` disables them.
    pub fn new(silence_ms: u64, partial_ms: u64, now_ns: u64) -> (r: Listener)
        ensures
            r@ == listener_start(silence_ms, partial_ms, now_ns),
    {
        let gap = (partial_ms as u128) * 1_000_000;
        Listener {
            vad: Vad::new(silence_ms),
            partial_ms,
            raw_len: 0,
            cancelled: false,
            stop: false,
            last_decoded_len: 0,
            next_partial: (now_ns as u128) + gap,
        }
    }

    /// Accounts for one audio poll at `now_ns`; true when trailing silence
    /// just began.
    pub fn on_audio(&mut self, poll: AudioPoll, now_ns: u64) -> (silence_started: bool)
        ensures
            (final(self)@, silence_started) == listener_audio(old(self)@, poll, now_ns),
    {
        match poll {
            AudioPoll::Received { chunk, total_len } => {
                let e = self.vad.push(chunk, now_ns);
                self.raw_len = total_len;
                match e {
                    VadEvent::SilenceTimeout => {
                        self.stop = true;
                        false
                    },
                    VadEvent::SilenceStart => true,
                    _ => false,
                }
            },
            AudioPoll::TimedOut => false,
            AudioPoll::Disconnected => {
                self.stop = true;
                false
            },
        }
    }

    /// Accounts for one command poll.
    pub fn on_command(&mut self, poll: CommandPoll) -> (r: Reaction)
        ensures
            (final(self)@, r) == listener_command(old(self)@, poll),
            poll == CommandPoll::Empty ==> final(self)@ == old(self)@ && r == Reaction::Continue,
    {
        match poll {
            CommandPoll::Got(Ctrl::Cancel) => {
                self.cancelled = true;
                self.stop = true;
                Reaction::Continue
            },
            CommandPoll::Got(Ctrl::Shutdown) => Reaction::Shutdown,
            CommandPoll::Got(Ctrl::Start) => Reaction::Continue,
            CommandPoll::Empty => Reaction::Continue,
            CommandPoll::Disconnected => Reaction::Shutdown,
        }
    }

    /// Whether the capture has stopped (timeout, cancel or lost device).
    pub fn is_stopped(&self) -> (r: bool)
        ensures
            r == self@.stop,
    {
        self.stop
    }

    /// Decides whether to decode a live partial now; when it does, the
    /// audio captured so far counts as decoded.
    pub fn begin_partial(&mut self, now_ns: u64) -> (due: bool)
        ensures
            due == partial_due(old(self)@, now_ns),
            due ==> final(self)@ == (ListenerState {
                last_decoded_len: old(self)@.raw_len,
                ..old(self)@
            }),
            !due ==> final(self)@ == old(self)@,
    {
        if self.partial_ms > 0 && !self.stop && self.vad.heard_speech()
            && self.raw_len > self.last_decoded_len && (now_ns as u128) >= self.next_partial {
            self.last_decoded_len = self.raw_len;
            true
        } else {
            false
        }
    }

    /// Records that a partial decode ran from `started_ns` to
    /// `finished_ns`, and schedules the next slot.
    pub fn end_partial(&mut self, started_ns: u64, finished_ns: u64)
        ensures
            final(self)@ == (ListenerState {
                next_partial: next_slot(old(self)@.partial_ms, started_ns, finished_ns),
                ..old(self)@
            }),
    {
        let took = finished_ns.saturating_sub(started_ns) as u128;
        let gap = (self.partial_ms as u128) * 1_000_000;
        let wait = if took > gap {
            took
        } else {
            gap
        };
        self.next_partial = (finished_ns as u128) + wait;
    }

    /// How the finished session ends.
    pub fn finish(&self) -> (r: ListenEnd)
        ensures
            r == listen_end(self@),
    {
        if self.cancelled || !self.vad.heard_speech() {
            ListenEnd::Discard
        } else {
            ListenEnd::Transcribe
        }
    }
}

/// The `PARTIAL` line for an interim transcript; empty text is not shown.
pub fn partial_update(text: &str) -> (r: Option<String>)
    ensures
        text@.len() == 0 ==> r is None,
        text@.len() > 0 ==> (r matches Some(line) && line@ == render(LineKind::Partial, text@)),
{
    if text.is_empty() {
        None
    } else {
        Some(partial(text))
    }
}

/// Adds one decoded segment to a transcript: segments are separated by a
/// single space.
pub fn append_segment(text: &mut String, seg: &str)
    ensures
        old(text)@.len() == 0 ==> final(text)@ == seg@,
        old(text)@.len() > 0 ==> final(text)@ == old(text)@ + " "@ + seg@,
{
    if !text.as_str().is_empty() {
        text.append(" ");
    }
    text.append(seg);
}


/// One thing that can happen to a listening session.
pub enum ListenerOp {
    Audio(AudioPoll, u64),
    Command(CommandPoll),
    BeginPartial(u64),
    EndPartial(u64, u64),
}

pub open spec fn listener_apply(s: ListenerState, op: ListenerOp) -> ListenerState {
    match op {
        ListenerOp::Audio(poll, now) => listener_audio(s, poll, now).0,
        ListenerOp::Command(poll) => listener_command(s, poll).0,
        ListenerOp::BeginPartial(now) => if partial_due(s, now) {
            ListenerState { last_decoded_len: s.raw_len, ..s }
        } else {
            s
        },
        ListenerOp::EndPartial(started, finished) => ListenerState {
            next_partial: next_slot(s.partial_ms, started, finished),
            ..s
        },
    }
}

/// The state after applying `ops` in order.
pub open spec fn listener_run(s: ListenerState, ops: Seq<ListenerOp>) -> ListenerState
    decreases ops.len(),
{
    if ops.len() == 0 {
        s
    } else {
        listener_run(listener_apply(s, ops[0]), ops.drop_first())
    }
}

/// A cancelled capture is discarded, whatever happens after the cancel; and
/// a stopped capture stays stopped.
pub proof fn lemma_cancel_discards(s: ListenerState, ops: Seq<ListenerOp>)
    requires
        s.cancelled,
    ensures
        listener_run(s, ops).cancelled,
        s.stop ==> listener_run(s, ops).stop,
        listen_end(listener_run(s, ops)) == ListenEnd::Discard,
    decreases ops.len(),
{
    if ops.len() > 0 {
        lemma_cancel_discards(listener_apply(s, ops[0]), ops.drop_first());
    }
}

/// `CANCEL` while listening stops the capture and marks it cancelled.
pub proof fn lemma_cancel_stops(s: ListenerState)
    ensures
        listener_command(s, CommandPoll::Got(Ctrl::Cancel)).0.cancelled,
        listener_command(s, CommandPoll::Got(Ctrl::Cancel)).0.stop,
        listener_command(s, CommandPoll::Got(Ctrl::Cancel)).1 == Reaction::Continue,
{
}

/// A command poll that finds no command changes nothing: the session goes
/// on exactly as before (in particular it is neither stopped nor
/// cancelled by it).
pub proof fn lemma_empty_poll_changes_nothing(s: ListenerState)
    ensures
        listener_command(s, CommandPoll::Empty).0 == s,
        listener_command(s, CommandPoll::Empty).1 == Reaction::Continue,
        !s.stop ==> !listener_command(s, CommandPoll::Empty).0.stop,
        !s.cancelled ==> !listener_command(s, CommandPoll::Empty).0.cancelled,
{
}

/// One capture at a time: a duplicate `START` while listening changes
/// nothing.
pub proof fn lemma_duplicate_start_ignored(s: ListenerState)
    ensures
        listener_command(s, CommandPoll::Got(Ctrl::Start)) == (s, Reaction::Continue),
{
}

/// `SHUTDOWN`, or stdin closing, ends the daemon at once, even mid-capture.
pub proof fn lemma_shutdown_is_immediate(s: ListenerState)
    ensures
        listener_command(s, CommandPoll::Got(Ctrl::Shutdown)).1 == Reaction::Shutdown,
        listener_command(s, CommandPoll::Disconnected).1 == Reaction::Shutdown,
        idle_action(Some(Ctrl::Shutdown)) == IdleAction::Exit,
        idle_action(None) == IdleAction::Exit,
{
}

/// A session that never hears speech is discarded.
pub proof fn lemma_no_speech_discards(s: ListenerState, ops: Seq<ListenerOp>)
    requires
        !s.vad.heard_speech,
        forall|i: int|
            0 <= i < ops.len() ==> !(#[trigger] ops[i] matches ListenerOp::Audio(
                AudioPoll::Received { chunk: Chunk::Loud, .. },
                _,
            )),
    ensures
        !listener_run(s, ops).vad.heard_speech,
        listen_end(listener_run(s, ops)) == ListenEnd::Discard,
    decreases ops.len(),
{
    if ops.len() > 0 {
        assert forall|i: int|
            0 <= i < ops.drop_first().len() implies !(#[trigger] ops.drop_first()[i] matches ListenerOp::Audio(
                AudioPoll::Received { chunk: Chunk::Loud, .. },
                _,
            )) by {
            assert(ops.drop_first()[i] == ops[i + 1]);
        }
        assert(!(ops[0] matches ListenerOp::Audio(AudioPoll::Received { chunk: Chunk::Loud, .. }, _)));
        lemma_no_speech_discards(listener_apply(s, ops[0]), ops.drop_first());
    }
}

/// With `partial_ms == 0` no live partial is ever decoded, and none is
/// decoded before speech or after the capture stopped.
pub proof fn lemma_partial_gates(s: ListenerState, now: u64)
    ensures
        s.partial_ms == 0 ==> !partial_due(s, now),
        !s.vad.heard_speech ==> !partial_due(s, now),
        s.stop ==> !partial_due(s, now),
        now < s.next_partial ==> !partial_due(s, now),
{
}

/// The same audio is never decoded twice: right after a partial decode
/// starts, no further partial is due until more audio arrives.
pub proof fn lemma_no_redecode_without_new_audio(s: ListenerState, now: u64, later: u64)
    requires
        partial_due(s, now),
    ensures
        !partial_due(listener_apply(s, ListenerOp::BeginPartial(now)), later),
{
}

/// A slow decode throttles itself: the next slot is at least one interval,
/// and at least the decode's own duration, after the decode finished.
pub proof fn lemma_partial_pacing(partial_ms: u64, started: u64, finished: u64)
    requires
        started <= finished,
    ensures
        next_slot(partial_ms, started, finished) >= finished + ms_to_ns(partial_ms),
        next_slot(partial_ms, started, finished) >= finished + (finished - started),
{
}

} // verus!
