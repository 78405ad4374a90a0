//! The top-level recording control state machine.
//!
//! `AutoRecordState` owns the sentence list, the segmentation configuration
//! and the recording state. Legal transitions are start (Idle to Recording),
//! pause (Recording to Paused), resume (Paused to Recording) and stop
//! (Recording or Paused to Idle); anything else fails with
//! `InvalidTransition` naming the attempted operation and the current state,
//! and leaves the state unchanged.
//!
//! The per-sentence loop decisions — whether to keep waiting for an audio
//! event, what to do after a pause, how to advance past a finished sentence —
//! live here as verified functions on plain values. The thread that sleeps,
//! polls and performs I/O drives them from outside.

use vstd::prelude::*;
use vstd::pervasive::VecAdditionalExecFns;
use crate::config::{AudioConfig, AudioEvent, RecordingState};
use crate::errors::{ControlOp, RecorderError};
use crate::models::Sentence;

verus! {

/// The notifications the pipeline emits toward the UI layer.
#[derive(Clone, PartialEq, Eq, Debug)]
pub enum Notification {
    /// Recording of the sentence with this id has begun.
    SentenceStarted(usize),
    /// The sentence with this id was written to this path.
    SentenceFinished { id: usize, path: String },
    /// The whole auto-record run is over.
    AutoRecordComplete(bool),
    /// A stream or file diagnostic.
    Diagnostic(String),
}

/// What the control loop should do while a sentence recording is paused.
#[derive(Clone, Copy, PartialEq, Eq, Structural, Debug)]
pub enum PauseWait {
    /// Recording was stopped: leave the per-sentence loop.
    ExitLoop,
    /// Recording resumed: retry the same sentence from scratch.
    RetrySentence,
    /// Still paused: poll again.
    KeepWaiting,
}

/// What the control loop should do while waiting for an audio event.
#[derive(Clone, PartialEq, Eq, Debug)]
pub enum WaitDecision {
    /// Pause or stop was requested: unwind with this control-flow signal.
    Abort(RecorderError),
    /// The awaited event has happened.
    EventSeen,
    /// Nothing yet: sleep one poll interval and check again.
    KeepWaiting,
}

/// State of one auto-record run.
pub struct AutoRecordState {
    pub sentences: Vec<Sentence>,
    pub project_directory: String,
    pub silence_duration_ms: u64,
    pub silence_padding_ms: u64,
    pub current_sentence_index: usize,
    pub audio_config: AudioConfig,
    pub state: RecordingState,
}

impl AutoRecordState {
    /// A fresh run over `sentences`: positioned at the first sentence, Idle.
    pub fn new(
        sentences: Vec<Sentence>,
        project_directory: String,
        silence_duration_ms: u64,
        silence_padding_ms: u64,
        audio_config: AudioConfig,
    ) -> (r: Self)
        ensures
            r.sentences == sentences,
            r.project_directory == project_directory,
            r.silence_duration_ms == silence_duration_ms,
            r.silence_padding_ms == silence_padding_ms,
            r.current_sentence_index == 0,
            r.audio_config == audio_config,
            r.state is Idle,
    {
        AutoRecordState {
            sentences,
            project_directory,
            silence_duration_ms,
            silence_padding_ms,
            current_sentence_index: 0,
            audio_config,
            state: RecordingState::Idle,
        }
    }

    /// Start: legal only from Idle, and moves to Recording. From any other
    /// state the request is refused and nothing changes.
    pub fn start_recording(&mut self) -> (r: Result<(), RecorderError>)
        ensures
            old(self).state is Idle ==> r is Ok && *final(self) == (AutoRecordState {
                state: RecordingState::Recording,
                ..*old(self)
            }),
            !(old(self).state is Idle) ==> r == Err::<(), RecorderError>(
                RecorderError::InvalidTransition {
                    operation: ControlOp::Start,
                    state: old(self).state,
                },
            ) && *final(self) == *old(self),
    {
        match self.state {
            RecordingState::Idle => {
                self.state = RecordingState::Recording;
                Ok(())
            },
            _ => Err(RecorderError::InvalidTransition {
                operation: ControlOp::Start,
                state: self.state,
            }),
        }
    }

    /// Pause: legal only from Recording, and moves to Paused. From any other
    /// state the request is refused and nothing changes.
    pub fn pause_recording(&mut self) -> (r: Result<(), RecorderError>)
        ensures
            old(self).state is Recording ==> r is Ok && *final(self) == (AutoRecordState {
                state: RecordingState::Paused,
                ..*old(self)
            }),
            !(old(self).state is Recording) ==> r == Err::<(), RecorderError>(
                RecorderError::InvalidTransition {
                    operation: ControlOp::Pause,
                    state: old(self).state,
                },
            ) && *final(self) == *old(self),
    {
        match self.state {
            RecordingState::Recording => {
                self.state = RecordingState::Paused;
                Ok(())
            },
            _ => Err(RecorderError::InvalidTransition {
                operation: ControlOp::Pause,
                state: self.state,
            }),
        }
    }

    /// Resume: legal only from Paused, and moves back to Recording. From any
    /// other state the request is refused and nothing changes.
    pub fn resume_recording(&mut self) -> (r: Result<(), RecorderError>)
        ensures
            old(self).state is Paused ==> r is Ok && *final(self) == (AutoRecordState {
                state: RecordingState::Recording,
                ..*old(self)
            }),
            !(old(self).state is Paused) ==> r == Err::<(), RecorderError>(
                RecorderError::InvalidTransition {
                    operation: ControlOp::Resume,
                    state: old(self).state,
                },
            ) && *final(self) == *old(self),
    {
        match self.state {
            RecordingState::Paused => {
                self.state = RecordingState::Recording;
                Ok(())
            },
            _ => Err(RecorderError::InvalidTransition {
                operation: ControlOp::Resume,
                state: self.state,
            }),
        }
    }

    /// Stop: legal from Recording or Paused, and returns to Idle. From Idle
    /// the request is refused and nothing changes.
    pub fn stop_recording(&mut self) -> (r: Result<(), RecorderError>)
        ensures
            !(old(self).state is Idle) ==> r is Ok && *final(self) == (AutoRecordState {
                state: RecordingState::Idle,
                ..*old(self)
            }),
            old(self).state is Idle ==> r == Err::<(), RecorderError>(
                RecorderError::InvalidTransition {
                    operation: ControlOp::Stop,
                    state: old(self).state,
                },
            ) && *final(self) == *old(self),
    {
        match self.state {
            RecordingState::Recording | RecordingState::Paused => {
                self.state = RecordingState::Idle;
                Ok(())
            },
            _ => Err(RecorderError::InvalidTransition {
                operation: ControlOp::Stop,
                state: self.state,
            }),
        }
    }

    /// Whether the pipeline may keep running: any state but Idle.
    pub fn is_active(&self) -> (r: bool)
        ensures
            r == !(self.state is Idle),
    {
        match self.state {
            RecordingState::Idle => false,
            _ => true,
        }
    }

    /// The sentence the run is currently positioned at, if any is left.
    pub fn current_sentence(&self) -> (r: Option<&Sentence>)
        ensures
            self.current_sentence_index < self.sentences@.len() ==> (r matches Some(s) && *s
                == self.sentences@[self.current_sentence_index as int]),
            self.current_sentence_index >= self.sentences@.len() ==> r is None,
    {
        if self.current_sentence_index < self.sentences.len() {
            Some(&self.sentences[self.current_sentence_index])
        } else {
            None
        }
    }

    /// Pause or stop requested? Recording may go on only while the state is
    /// Recording; Paused and Idle unwind with their control-flow signal.
    pub fn check_recording_state(&self) -> (r: Result<(), RecorderError>)
        ensures
            self.state is Recording ==> r is Ok,
            self.state is Paused ==> r == Err::<(), RecorderError>(RecorderError::RecordingPaused),
            self.state is Idle ==> r == Err::<(), RecorderError>(RecorderError::RecordingStopped),
    {
        match self.state {
            RecordingState::Paused => Err(RecorderError::RecordingPaused),
            RecordingState::Idle => Err(RecorderError::RecordingStopped),
            RecordingState::Recording => Ok(()),
        }
    }

    /// After a sentence was recorded and written to `path`: marks it recorded
    /// with that path, advances to the next sentence, and reports the
    /// notification to emit.
    pub fn handle_successful_recording(&mut self, path: String) -> (n: Notification)
        requires
            old(self).current_sentence_index < old(self).sentences@.len(),
        ensures
            final(self).sentences@ == old(self).sentences@.update(
                old(self).current_sentence_index as int,
                Sentence {
                    id: old(self).sentences@[old(self).current_sentence_index as int].id,
                    text: old(self).sentences@[old(self).current_sentence_index as int].text,
                    recorded: true,
                    audio_file_path: Some(path),
                },
            ),
            final(self).current_sentence_index == old(self).current_sentence_index + 1,
            final(self).project_directory == old(self).project_directory,
            final(self).silence_duration_ms == old(self).silence_duration_ms,
            final(self).silence_padding_ms == old(self).silence_padding_ms,
            final(self).audio_config == old(self).audio_config,
            final(self).state == old(self).state,
            n == (Notification::SentenceFinished {
                id: old(self).sentences@[old(self).current_sentence_index as int].id,
                path: path,
            }),
    {
        let i = self.current_sentence_index;
        let n = self.sentences.len();
        assert(i < n);
        let id = self.sentences[i].id;
        let text = self.sentences[i].text.clone();
        let notification_path = path.clone();
        self.sentences.set(i, Sentence { id, text, recorded: true, audio_file_path: Some(path) });
        self.current_sentence_index = i + 1;
        Notification::SentenceFinished { id, path: notification_path }
    }

    /// The notification announcing that recording of the current sentence has
    /// begun.
    pub fn sentence_started_notification(&self) -> (n: Notification)
        requires
            self.current_sentence_index < self.sentences@.len(),
        ensures
            n == Notification::SentenceStarted(
                self.sentences@[self.current_sentence_index as int].id,
            ),
    {
        Notification::SentenceStarted(self.sentences[self.current_sentence_index].id)
    }

    /// On leaving the per-sentence loop for any reason: force the state back
    /// to Idle and report the completion notification to emit.
    pub fn finalize_recording(&mut self) -> (n: Notification)
        ensures
            *final(self) == (AutoRecordState { state: RecordingState::Idle, ..*old(self) }),
            n == Notification::AutoRecordComplete(true),
    {
        self.state = RecordingState::Idle;
        Notification::AutoRecordComplete(true)
    }
}

/// One poll of a paused run: stop exits the loop, resume retries the same
/// sentence from scratch, and while still paused the loop keeps polling.
pub fn resolve_pause(state: RecordingState) -> (r: PauseWait)
    ensures
        state is Idle ==> r is ExitLoop,
        state is Recording ==> r is RetrySentence,
        state is Paused ==> r is KeepWaiting,
{
    match state {
        RecordingState::Idle => PauseWait::ExitLoop,
        RecordingState::Recording => PauseWait::RetrySentence,
        RecordingState::Paused => PauseWait::KeepWaiting,
    }
}

/// One poll while waiting for an audio event. Pause or stop aborts the wait
/// with its control-flow signal. Otherwise a voice wait completes when the
/// onset signal has arrived, and a silence wait completes when the time since
/// the last voice frame has reached the silence duration.
pub fn wait_step(
    event: AudioEvent,
    state: RecordingState,
    voice_signal: bool,
    elapsed_ms: u64,
    silence_duration_ms: u64,
) -> (r: WaitDecision)
    ensures
        state is Paused ==> r == WaitDecision::Abort(RecorderError::RecordingPaused),
        state is Idle ==> r == WaitDecision::Abort(RecorderError::RecordingStopped),
        state is Recording && event is Voice ==> r == (if voice_signal {
            WaitDecision::EventSeen
        } else {
            WaitDecision::KeepWaiting
        }),
        state is Recording && event is Silence ==> r == (if elapsed_ms >= silence_duration_ms {
            WaitDecision::EventSeen
        } else {
            WaitDecision::KeepWaiting
        }),
{
    match state {
        RecordingState::Paused => WaitDecision::Abort(RecorderError::RecordingPaused),
        RecordingState::Idle => WaitDecision::Abort(RecorderError::RecordingStopped),
        RecordingState::Recording => match event {
            AudioEvent::Voice => {
                if voice_signal {
                    WaitDecision::EventSeen
                } else {
                    WaitDecision::KeepWaiting
                }
            },
            AudioEvent::Silence => {
                if elapsed_ms >= silence_duration_ms {
                    WaitDecision::EventSeen
                } else {
                    WaitDecision::KeepWaiting
                }
            },
        },
    }
}

} // verus!
