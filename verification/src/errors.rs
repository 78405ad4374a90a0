//! Error taxonomy of the recording pipeline.

use vstd::prelude::*;
use crate::config::RecordingState;

verus! {

/// The control operations a caller can request on the recorder.
#[derive(Clone, Copy, PartialEq, Eq, Structural, Debug)]
pub enum ControlOp {
    Start,
    Pause,
    Resume,
    Stop,
}

/// Everything that can end a sentence recording or refuse a control request.
///
/// `RecordingPaused` and `RecordingStopped` are control-flow signals used to
/// unwind the per-sentence recording cleanly; they trigger file cleanup, not
/// user-facing error reporting. All other variants abort the run.
#[derive(Clone, PartialEq, Eq, Debug)]
pub enum RecorderError {
    NoInputDevice,
    NoSupportedConfig,
    StreamBuildError(String),
    StreamPlayError(String),
    InvalidTransition { operation: ControlOp, state: RecordingState },
    RecordingPaused,
    RecordingStopped,
    IoError(String),
    WavFormatError(String),
}

} // verus!
