//! Core logic of a speech-corpus recording tool: a reader speaks a list of
//! sentences, and the recorder segments continuous microphone input into one
//! WAV file per sentence, using per-frame voice-activity decisions to find
//! where each utterance starts and ends and trimming the surrounding silence.
//!
//! The modules here hold the verified heart of the pipeline: frame sizing,
//! the segmentation state machine, silence trimming, the recording control
//! state machine, session cleanup rules, and sentence-list handling. Hardware
//! capture, resampling and the voice-activity model run outside and feed this
//! library plain values (samples, per-frame voice flags, timestamps).

pub mod auto_record;
pub mod config;
pub mod errors;
pub mod file_utils;
pub mod frames;
pub mod models;
pub mod recent;
pub mod segmentation;
pub mod session;
pub mod strutil;
pub mod trim;
pub mod wav;
