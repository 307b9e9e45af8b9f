use voicetools::serve::{
    append_segment, on_idle_command, parse_command, partial_update, AudioPoll, CommandPoll, Ctrl,
    IdleAction, ListenEnd, Listener, Reaction, StdinLine,
};
use voicetools::vad::Chunk;

const MS: u64 = 1_000_000;

#[test]
fn commands_are_trimmed_and_exact() {
    assert_eq!(parse_command("START"), StdinLine::Command(Ctrl::Start));
    assert_eq!(parse_command("  CANCEL\r"), StdinLine::Command(Ctrl::Cancel));
    assert_eq!(parse_command("SHUTDOWN\n"), StdinLine::Command(Ctrl::Shutdown));
    assert_eq!(parse_command("   "), StdinLine::Blank);
    assert_eq!(parse_command(""), StdinLine::Blank);
    assert_eq!(parse_command("start"), StdinLine::Unknown);
    assert_eq!(parse_command("STOP"), StdinLine::Unknown);
    assert!(Ctrl::Shutdown.ends_input());
    assert!(!Ctrl::Start.ends_input());
}

#[test]
fn idle_daemon_reactions() {
    assert_eq!(on_idle_command(Some(Ctrl::Start)), IdleAction::Listen);
    assert_eq!(on_idle_command(Some(Ctrl::Cancel)), IdleAction::Ignore);
    assert_eq!(on_idle_command(Some(Ctrl::Shutdown)), IdleAction::Exit);
    assert_eq!(on_idle_command(None), IdleAction::Exit);
}

#[test]
fn utterance_is_transcribed_after_trailing_silence() {
    let mut l = Listener::new(30, 0, 0);
    assert!(!l.on_audio(AudioPoll::Received { chunk: Chunk::Loud, total_len: 160 }, MS));
    assert!(l.on_audio(AudioPoll::Received { chunk: Chunk::Quiet, total_len: 320 }, 2 * MS));
    assert!(!l.is_stopped());
    assert_eq!(l.on_command(CommandPoll::Empty), Reaction::Continue);
    assert!(!l.on_audio(AudioPoll::Received { chunk: Chunk::Quiet, total_len: 480 }, 40 * MS));
    assert!(l.is_stopped());
    assert_eq!(l.finish(), ListenEnd::Transcribe);
}

#[test]
fn cancel_discards_and_start_is_ignored() {
    let mut l = Listener::new(30, 0, 0);
    l.on_audio(AudioPoll::Received { chunk: Chunk::Loud, total_len: 160 }, MS);
    assert_eq!(l.on_command(CommandPoll::Got(Ctrl::Start)), Reaction::Continue);
    assert!(!l.is_stopped());
    assert_eq!(l.on_command(CommandPoll::Got(Ctrl::Cancel)), Reaction::Continue);
    assert!(l.is_stopped());
    assert_eq!(l.finish(), ListenEnd::Discard);
}

#[test]
fn shutdown_and_closed_stdin_end_listening() {
    let mut l = Listener::new(30, 0, 0);
    assert_eq!(l.on_command(CommandPoll::Got(Ctrl::Shutdown)), Reaction::Shutdown);
    assert_eq!(l.on_command(CommandPoll::Disconnected), Reaction::Shutdown);
}

#[test]
fn silence_only_is_discarded() {
    let mut l = Listener::new(30, 100, 0);
    l.on_audio(AudioPoll::Received { chunk: Chunk::Quiet, total_len: 160 }, MS);
    l.on_audio(AudioPoll::TimedOut, 2 * MS);
    l.on_audio(AudioPoll::Disconnected, 3 * MS);
    assert!(l.is_stopped());
    assert_eq!(l.finish(), ListenEnd::Discard);
}

#[test]
fn partials_are_paced() {
    let mut l = Listener::new(1000, 100, 0);
    l.on_audio(AudioPoll::Received { chunk: Chunk::Loud, total_len: 160 }, 10 * MS);
    // Not before the first slot, 100 ms after the start.
    assert!(!l.begin_partial(50 * MS));
    assert!(l.begin_partial(100 * MS));
    // No new audio: nothing to re-decode.
    assert!(!l.begin_partial(500 * MS));
    l.end_partial(100 * MS, 130 * MS);
    l.on_audio(AudioPoll::Received { chunk: Chunk::Loud, total_len: 320 }, 140 * MS);
    assert!(!l.begin_partial(229 * MS));
    assert!(l.begin_partial(230 * MS));
    // A decode slower than the interval pushes the next slot further out.
    l.end_partial(230 * MS, 480 * MS);
    l.on_audio(AudioPoll::Received { chunk: Chunk::Loud, total_len: 480 }, 490 * MS);
    assert!(!l.begin_partial(729 * MS));
    assert!(l.begin_partial(730 * MS));
}

#[test]
fn partials_disabled_with_zero_interval() {
    let mut l = Listener::new(1000, 0, 0);
    l.on_audio(AudioPoll::Received { chunk: Chunk::Loud, total_len: 160 }, MS);
    assert!(!l.begin_partial(10_000 * MS));
}

#[test]
fn partial_lines_skip_empty_text() {
    assert_eq!(partial_update(""), None);
    assert_eq!(partial_update("hello"), Some("PARTIAL hello".to_string()));
}

#[test]
fn segments_join_with_single_spaces() {
    let mut text = String::new();
    append_segment(&mut text, "hello");
    assert_eq!(text, "hello");
    append_segment(&mut text, "world");
    assert_eq!(text, "hello world");
}
