//! Verified core of `voicetools`: model registry, voice-activity state
//! machine, stdout line protocol, daemon control decisions and the greedy
//! TDT decoding control of the Parakeet backend.

pub mod text;
pub mod setup;
pub mod vad;
pub mod protocol;
pub mod serve;
pub mod parakeet;
pub mod settings;
pub mod whisper;
pub mod tls;
