use voicetools::vad::{Chunk, Vad, VadEvent};

const MS: u64 = 1_000_000;

#[test]
fn no_timeout_before_speech() {
    let mut vad = Vad::new(10);
    // Silence forever before any speech must never time out.
    let mut now = 0;
    for _ in 0..5 {
        assert_eq!(vad.push(Chunk::Quiet, now), VadEvent::Silence);
        now += 5 * MS;
    }
    assert!(!vad.heard_speech());
}

#[test]
fn speech_then_silence_times_out() {
    let mut vad = Vad::new(30);
    assert_eq!(vad.push(Chunk::Loud, 0), VadEvent::Speech);
    assert!(vad.heard_speech());

    // First silent chunk starts the clock but shouldn't time out yet.
    assert_eq!(vad.push(Chunk::Quiet, MS), VadEvent::SilenceStart);
    assert_eq!(vad.push(Chunk::Quiet, 51 * MS), VadEvent::SilenceTimeout);
}

#[test]
fn speech_resets_silence_timer() {
    let mut vad = Vad::new(50);
    vad.push(Chunk::Loud, 0);
    assert_eq!(vad.push(Chunk::Quiet, MS), VadEvent::SilenceStart);
    // Speaking again clears the timer.
    assert_eq!(vad.push(Chunk::Loud, 31 * MS), VadEvent::Speech);
    // Silence after fresh speech starts a new run.
    assert_eq!(vad.push(Chunk::Quiet, 32 * MS), VadEvent::SilenceStart);
}

#[test]
fn timeout_counts_whole_milliseconds() {
    let mut vad = Vad::new(30);
    vad.push(Chunk::Loud, 0);
    assert_eq!(vad.push(Chunk::Quiet, 100), VadEvent::SilenceStart);
    assert_eq!(vad.push(Chunk::Quiet, 100 + 30 * MS - 1), VadEvent::Silence);
    assert_eq!(vad.push(Chunk::Quiet, 100 + 30 * MS), VadEvent::SilenceTimeout);
    // The timer keeps running: later quiet chunks time out too.
    assert_eq!(vad.push(Chunk::Quiet, 200 * MS), VadEvent::SilenceTimeout);
}

#[test]
fn empty_chunks_change_nothing() {
    let mut vad = Vad::new(10);
    assert_eq!(vad.push(Chunk::Empty, 0), VadEvent::Silence);
    vad.push(Chunk::Loud, 0);
    assert_eq!(vad.push(Chunk::Empty, MS), VadEvent::Silence);
    // The timer did not start on the empty chunk.
    assert_eq!(vad.push(Chunk::Quiet, 100 * MS), VadEvent::SilenceStart);
}

#[test]
fn silence_start_fires_once_per_run() {
    let mut vad = Vad::new(1000);
    vad.push(Chunk::Loud, 0);
    assert_eq!(vad.push(Chunk::Quiet, MS), VadEvent::SilenceStart);
    for i in 2..10 {
        assert_eq!(vad.push(Chunk::Quiet, i * MS), VadEvent::Silence);
    }
}

#[test]
fn events_follow_speech_runs() {
    let mut vad = Vad::new(5);
    let chunks = [
        Chunk::Quiet, Chunk::Loud, Chunk::Quiet, Chunk::Quiet, Chunk::Quiet, Chunk::Loud,
        Chunk::Quiet, Chunk::Quiet,
    ];
    let events: Vec<VadEvent> =
        chunks.iter().enumerate().map(|(i, c)| vad.push(*c, i as u64 * 3 * MS)).collect();
    assert_eq!(
        events,
        vec![
            VadEvent::Silence,
            VadEvent::Speech,
            VadEvent::SilenceStart,
            VadEvent::Silence,
            VadEvent::SilenceTimeout,
            VadEvent::Speech,
            VadEvent::SilenceStart,
            VadEvent::Silence,
        ]
    );
    assert!(vad.heard_speech());
}
