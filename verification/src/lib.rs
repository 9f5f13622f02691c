//! A voice-assistant pipeline: capture a short audio clip, transcribe it,
//! ask a local language-model server for a reply, and speak the reply aloud.
//!
//! This crate holds the verified core: the error taxonomy, the argument
//! lists handed to the external tools, the JSON framing of the requests and
//! responses, and the session state machine that sequences the four stages.
//! The unverified binary around it performs the actual process invocations,
//! file reads, HTTP transport and audio playback, and feeds the outcomes
//! back into the functions here as plain values.

pub mod json;
pub mod ollama;
pub mod session;
pub mod speech;
pub mod whisper;
