use recordr::auto_record::{
    resolve_pause, wait_step, AutoRecordState, Notification, PauseWait, WaitDecision,
};
use recordr::config::{AudioConfig, AudioEvent, RecordingState, SampleFormatKind};
use recordr::errors::{ControlOp, RecorderError};
use recordr::models::Sentence;
use recordr::segmentation::{segment_utterance, FrameOutcome, SegmentationEngine};
use recordr::session::{sentence_output_path, RecordingSession};
use recordr::wav::utterance_wav_bytes;

fn test_config() -> AudioConfig {
    AudioConfig { sample_rate: 16000, channels: 1, sample_format: SampleFormatKind::Float32 }
}

fn sentence(id: usize, text: &str) -> Sentence {
    Sentence { id, text: text.to_string(), recorded: false, audio_file_path: None }
}

#[test]
fn grace_period_blocks_short_voice_burst() {
    // Frames every 32 ms, voice starting right away: every voice frame falls
    // within the grace period of the previous reset, so speech never starts
    // and no voice signal is emitted.
    let mut engine = SegmentationEngine::new(800, 3200, 512, 0);
    for i in 1..=20u64 {
        let outcome = engine.process_chunk(vec![5; 512], true, i * 32);
        assert_eq!(outcome, FrameOutcome::Buffered);
    }
    assert!(!engine.is_speaking);
    assert!(!engine.done);
}

#[test]
fn voice_after_grace_period_starts_speech() {
    // 200 ms of silence first, then a voice frame: the elapsed time since the
    // previous reset is past the grace period, so speech starts and the onset
    // is signalled.
    let mut engine = SegmentationEngine::new(800, 3200, 512, 0);
    let outcome = engine.process_chunk(vec![0; 512], false, 100);
    assert_eq!(outcome, FrameOutcome::Buffered);
    let outcome = engine.process_chunk(vec![5; 512], true, 232);
    assert_eq!(outcome, FrameOutcome::VoiceSignal);
    assert!(engine.is_speaking);
}

#[test]
fn silence_to_stop_triggers_exactly_once() {
    let mut engine = SegmentationEngine::new(800, 0, 4, 0);
    // Speech onset.
    assert_eq!(engine.process_chunk(vec![7; 4], true, 300), FrameOutcome::VoiceSignal);
    // Silence short of the duration: nothing yet.
    assert_eq!(engine.process_chunk(vec![0; 4], false, 900), FrameOutcome::Buffered);
    // Silence reaching the duration: the utterance ends once.
    let outcome = engine.process_chunk(vec![0; 4], false, 1100);
    assert!(matches!(outcome, FrameOutcome::UtteranceEnd(_)));
    assert!(engine.done);
    assert!(!engine.is_speaking);
    // Further silence frames are ignored and never re-trigger a write.
    for i in 0..5u64 {
        let outcome = engine.process_chunk(vec![0; 4], false, 1200 + i * 32);
        assert_eq!(outcome, FrameOutcome::Ignored);
    }
}

#[test]
fn segment_utterance_stops_at_first_utterance_end() {
    // 4-sample frames every 32 ms: silence until 300 ms, voice until 600 ms,
    // then silence; silence_duration 200 ms, no padding.
    let mut engine = SegmentationEngine::new(200, 0, 4, 0);
    let mut frames: Vec<(Vec<i16>, bool, u64)> = Vec::new();
    for i in 1..=40u64 {
        let t = i * 32;
        let is_voice = (300..600).contains(&t);
        frames.push((vec![i as i16; 4], is_voice, t));
    }
    let audio = segment_utterance(&mut engine, &mut frames).expect("utterance ends");
    // Voice frames are 10..=18 (320..=576 ms); the utterance ends at the
    // silence frame 200 ms past the last voice frame. Kept: frames 9..=19.
    let mut expected: Vec<i16> = Vec::new();
    for i in 9..=19u64 {
        expected.extend_from_slice(&[i as i16; 4]);
    }
    assert_eq!(audio, expected);
    assert!(engine.done);
    // The unconsumed frames stay in the stream.
    assert!(!frames.is_empty());

    // A stream with no voice at all never ends the utterance and is consumed.
    let mut engine = SegmentationEngine::new(200, 0, 4, 0);
    let mut frames: Vec<(Vec<i16>, bool, u64)> = vec![(vec![0; 4], false, 32), (vec![0; 4], false, 64)];
    assert_eq!(segment_utterance(&mut engine, &mut frames), None);
    assert!(frames.is_empty());
    assert!(!engine.done);
}

#[test]
fn transitions_follow_the_legal_cycle() {
    let mut state = AutoRecordState::new(
        vec![sentence(1, "one")],
        "proj".to_string(),
        800,
        200,
        test_config(),
    );
    assert_eq!(state.state, RecordingState::Idle);
    assert!(state.start_recording().is_ok());
    assert_eq!(state.state, RecordingState::Recording);
    assert!(state.pause_recording().is_ok());
    assert_eq!(state.state, RecordingState::Paused);
    assert!(state.resume_recording().is_ok());
    assert_eq!(state.state, RecordingState::Recording);
    assert!(state.stop_recording().is_ok());
    assert_eq!(state.state, RecordingState::Idle);
}

#[test]
fn pause_from_idle_is_refused_and_state_unchanged() {
    let mut state = AutoRecordState::new(Vec::new(), "p".to_string(), 800, 200, test_config());
    let result = state.pause_recording();
    assert_eq!(
        result,
        Err(RecorderError::InvalidTransition {
            operation: ControlOp::Pause,
            state: RecordingState::Idle,
        })
    );
    assert_eq!(state.state, RecordingState::Idle);
}

#[test]
fn resume_from_idle_is_refused_and_state_unchanged() {
    let mut state = AutoRecordState::new(Vec::new(), "p".to_string(), 800, 200, test_config());
    let result = state.resume_recording();
    assert_eq!(
        result,
        Err(RecorderError::InvalidTransition {
            operation: ControlOp::Resume,
            state: RecordingState::Idle,
        })
    );
    assert_eq!(state.state, RecordingState::Idle);
}

#[test]
fn stop_from_idle_is_refused() {
    let mut state = AutoRecordState::new(Vec::new(), "p".to_string(), 800, 200, test_config());
    let result = state.stop_recording();
    assert_eq!(
        result,
        Err(RecorderError::InvalidTransition {
            operation: ControlOp::Stop,
            state: RecordingState::Idle,
        })
    );
}

#[test]
fn wait_step_decisions() {
    assert_eq!(
        wait_step(AudioEvent::Voice, RecordingState::Paused, true, 0, 800),
        WaitDecision::Abort(RecorderError::RecordingPaused)
    );
    assert_eq!(
        wait_step(AudioEvent::Silence, RecordingState::Idle, false, 0, 800),
        WaitDecision::Abort(RecorderError::RecordingStopped)
    );
    assert_eq!(
        wait_step(AudioEvent::Voice, RecordingState::Recording, true, 0, 800),
        WaitDecision::EventSeen
    );
    assert_eq!(
        wait_step(AudioEvent::Voice, RecordingState::Recording, false, 0, 800),
        WaitDecision::KeepWaiting
    );
    assert_eq!(
        wait_step(AudioEvent::Silence, RecordingState::Recording, false, 800, 800),
        WaitDecision::EventSeen
    );
    assert_eq!(
        wait_step(AudioEvent::Silence, RecordingState::Recording, false, 799, 800),
        WaitDecision::KeepWaiting
    );
}

#[test]
fn check_recording_state_signals() {
    let mut state = AutoRecordState::new(Vec::new(), "p".to_string(), 800, 200, test_config());
    assert_eq!(state.check_recording_state(), Err(RecorderError::RecordingStopped));
    state.start_recording().unwrap();
    assert_eq!(state.check_recording_state(), Ok(()));
    state.pause_recording().unwrap();
    assert_eq!(state.check_recording_state(), Err(RecorderError::RecordingPaused));
}

#[test]
fn resolve_pause_decisions() {
    assert_eq!(resolve_pause(RecordingState::Idle), PauseWait::ExitLoop);
    assert_eq!(resolve_pause(RecordingState::Recording), PauseWait::RetrySentence);
    assert_eq!(resolve_pause(RecordingState::Paused), PauseWait::KeepWaiting);
}

#[test]
fn advancing_marks_the_sentence_recorded() {
    let mut state = AutoRecordState::new(
        vec![sentence(7, "alpha"), sentence(8, "beta")],
        "proj".to_string(),
        800,
        200,
        test_config(),
    );
    let n = state.handle_successful_recording("proj/alpha.wav".to_string());
    assert_eq!(
        n,
        Notification::SentenceFinished { id: 7, path: "proj/alpha.wav".to_string() }
    );
    assert_eq!(state.current_sentence_index, 1);
    assert!(state.sentences[0].recorded);
    assert_eq!(state.sentences[0].audio_file_path, Some("proj/alpha.wav".to_string()));
    assert!(!state.sentences[1].recorded);
}

#[test]
fn aborted_session_deletes_the_partial_file() {
    let mut session = RecordingSession::open("proj/partial.wav".to_string());
    assert!(session.stream_open && session.file_exists);
    session.teardown(true);
    assert!(!session.stream_open);
    assert!(!session.file_exists);
}

#[test]
fn successful_session_keeps_the_finalized_file() {
    let mut session = RecordingSession::open("proj/done.wav".to_string());
    session.teardown(false);
    assert!(!session.stream_open);
    assert!(session.file_exists);
    assert!(session.finalized);
}

#[test]
fn end_to_end_hello_world() {
    // One sentence, silence_duration 800 ms, silence_padding 200 ms, 16 kHz:
    // 500 ms silence, 1000 ms voice, then silence until the utterance ends.
    let sentences = vec![sentence(1, "Hello world")];
    let mut state = AutoRecordState::new(
        sentences,
        "proj".to_string(),
        800,
        200,
        test_config(),
    );
    state.start_recording().unwrap();
    let mut notifications = Vec::new();
    notifications.push(state.sentence_started_notification());

    // Frame setup as the capture path would compute it.
    let chunk_size = recordr::frames::get_chunk_size(16000).unwrap();
    assert_eq!(chunk_size, 512);
    let padding = recordr::frames::padding_samples(200, 16000) as usize;
    assert_eq!(padding, 3200);

    let mut engine = SegmentationEngine::new(800, padding, chunk_size, 0);
    let session = RecordingSession::open(sentence_output_path(
        "proj",
        &state.current_sentence().unwrap().text,
    ));
    assert_eq!(session.path, "proj/Hello_world.wav");

    // Feed classified frames: frame i covers [32*i, 32*(i+1)) ms; the first
    // 15 frames (480 ms) are silence, the next 31 (992 ms) voice, the rest
    // silence. Each frame is filled with its own index.
    let mut trimmed: Option<Vec<i16>> = None;
    let mut voice_signals: usize = 0;
    for i in 0..80u64 {
        let is_voice = (15..46).contains(&i);
        let outcome = engine.process_chunk(vec![i as i16; chunk_size], is_voice, (i + 1) * 32);
        match outcome {
            FrameOutcome::VoiceSignal => voice_signals += 1,
            FrameOutcome::UtteranceEnd(audio) => {
                trimmed = Some(audio);
                break;
            }
            _ => {}
        }
    }
    // Onset was signalled exactly once: the first voice frame arrives 512 ms
    // after the last reset; every later voice frame arrives within 32 ms.
    assert_eq!(voice_signals, 1);

    // The utterance: padding (6 frames) + flanking frame + 31 voice frames +
    // flanking frame + padding, i.e. frames 8..=52, ~200 ms + 1000 ms + 200 ms.
    let audio = trimmed.expect("utterance should have ended");
    assert_eq!(audio.len(), 45 * chunk_size);
    let mut expected = Vec::new();
    for i in 8..=52i16 {
        expected.extend_from_slice(&vec![i; chunk_size]);
    }
    assert_eq!(audio, expected);

    // The finished WAV byte stream: header plus two bytes per sample.
    let bytes = utterance_wav_bytes(1, 16000, &audio).unwrap();
    assert_eq!(bytes.len(), 44 + 2 * audio.len());

    // Successful completion: stream closed, file kept, events emitted.
    let mut session = session;
    session.teardown(false);
    assert!(session.file_exists && session.finalized);
    notifications.push(state.handle_successful_recording(session.path.clone()));
    assert!(state.current_sentence().is_none());
    notifications.push(state.finalize_recording());
    assert_eq!(state.state, RecordingState::Idle);
    assert!(state.sentences[0].recorded);

    assert_eq!(
        notifications,
        vec![
            Notification::SentenceStarted(1),
            Notification::SentenceFinished { id: 1, path: "proj/Hello_world.wav".to_string() },
            Notification::AutoRecordComplete(true),
        ]
    );
}
