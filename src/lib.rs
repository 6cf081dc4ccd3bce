//! Real-time audio capture pipeline for streaming transcription: PCM16 frame
//! decoding, jitter-compensating silence, a bounded speech buffer, the
//! idle-triggered drain, and the per-connection session decisions.

pub mod ring;
pub mod pcm;
pub mod session;
pub mod speech;
pub mod transcript;
