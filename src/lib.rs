//! Per-speaker audio slice engine for realtime voice transcription.
//!
//! A slice (`audio_slice`) accumulates one speaker's audio along the
//! wrapping 48 kHz media clock (`clock`), decides when a transcription
//! should be requested, and reconciles returning transcripts
//! (`transcript`) against the audio that is buffered by then.  The buffer
//! manager routes frames, silences and responses to the slice of each
//! speaker; the voice-activity monitor tells when a speaker went quiet.
//! `laws` states how the slice operations relate to one another.
pub mod clock;
pub mod transcript;
pub mod audio_slice;
pub mod voice_activity;
pub mod buffer_manager;
pub mod laws;
