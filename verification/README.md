# voicetools

Local, offline voice-to-text for the terminal: capture the microphone, stop
on trailing silence, transcribe with Parakeet-TDT (ONNX Runtime) or Whisper,
and stream the text on stdout as a line protocol.

The crate is split in two:

- `src/` — the library, verified with Verus:
  - `setup`: the model registry (names and aliases, ids, backends, files to
    fetch, list rows, download progress pacing, byte-unit choice);
  - `vad`: the voice-activity state machine with its trailing-silence timer;
  - `protocol`: the stdout lines (`STATUS`, `SEGMENT`, `DONE`, ...);
  - `serve`: the daemon's decisions (stdin commands, cancel/shutdown,
    pacing of live partial transcripts, whether a capture is kept);
  - `parakeet`: greedy TDT decoding control, subword-to-word assembly and
    the `vocab.txt` format;
  - `tls`: extra CA certificates read from PEM text (through
    `rustls-pemfile`) and how each trust source is treated when it fails;
  - `whisper`, `settings`, `text`: segment clean-up, environment settings,
    decimal parsing and rendering, and the string helpers the parsers share.
- `app/` — the program: CLI, microphone (cpal), WAV loading and resampling,
  ONNX / whisper.cpp inference, downloads and TLS, and the loops that feed
  audio, commands and time into the library.
