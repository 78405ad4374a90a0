//! The segmentation engine: decides, one classified frame at a time, when an
//! utterance starts and ends.
//!
//! Per sentence the engine moves through waiting-for-voice, speaking and done.
//! A voice frame resets the activity clock; speech is accepted only when the
//! time elapsed since the previous reset has reached the grace period, which
//! guards against transient noise. Once speaking, a silence frame whose
//! elapsed time since the last voice frame reaches the configured silence
//! duration ends the utterance: the buffered frames are trimmed and returned,
//! exactly once. Every frame seen before that, voice or silence, is retained
//! in the utterance buffer with its classification.
//!
//! The engine works on plain values: the caller supplies each frame's samples,
//! its voice/silence classification, and the current time in milliseconds.

use vstd::prelude::*;
use crate::config::AudioChunkWithVAD;
use crate::trim::{spec_trimmed_audio, trim_chunks};

verus! {

/// Voice must persist this long past the previous activity reset before the
/// engine accepts a speech onset.
pub const GRACE_PERIOD_MS: u64 = 200;

/// What one frame made the engine do.
#[derive(Clone, PartialEq, Eq, Debug)]
pub enum FrameOutcome {
    /// The frame was retained; nothing else happened.
    Buffered,
    /// Speech onset: voice persisted past the grace period. The controller's
    /// wait for voice may be unblocked.
    VoiceSignal,
    /// Silence persisted past the configured duration: the utterance is
    /// finished and these are its trimmed samples, ready to be written.
    UtteranceEnd(Vec<i16>),
    /// The engine was already done; the frame was discarded.
    Ignored,
}

/// Mathematical state of the engine.
pub struct EngineModel {
    pub silence_duration_ms: int,
    pub padding_samples: int,
    pub chunk_size: int,
    pub is_speaking: bool,
    pub last_active_time_ms: int,
    pub done: bool,
    pub chunks: Seq<AudioChunkWithVAD>,
}

/// How one classified frame transforms the engine state.
pub open spec fn spec_step(pre: EngineModel, chunk: Vec<i16>, is_voice: bool, now_ms: int)
    -> EngineModel {
    if pre.done {
        pre
    } else {
        let with_frame = EngineModel {
            chunks: pre.chunks.push(AudioChunkWithVAD { chunk: chunk, is_voice: is_voice }),
            ..pre
        };
        if is_voice {
            if now_ms - pre.last_active_time_ms >= GRACE_PERIOD_MS {
                EngineModel { last_active_time_ms: now_ms, is_speaking: true, ..with_frame }
            } else {
                EngineModel { last_active_time_ms: now_ms, ..with_frame }
            }
        } else {
            if pre.is_speaking && now_ms - pre.last_active_time_ms >= pre.silence_duration_ms {
                EngineModel { is_speaking: false, done: true, ..with_frame }
            } else {
                with_frame
            }
        }
    }
}

/// Whether a frame signals speech onset: a voice frame arriving once the
/// grace period has elapsed since the previous activity reset.
pub open spec fn spec_voice_signal(pre: EngineModel, is_voice: bool, now_ms: int) -> bool {
    !pre.done && is_voice && now_ms - pre.last_active_time_ms >= GRACE_PERIOD_MS
}

/// Whether a frame ends the utterance: a silence frame, while speaking, whose
/// elapsed time since the last voice frame reaches the silence duration.
pub open spec fn spec_utterance_end(pre: EngineModel, is_voice: bool, now_ms: int) -> bool {
    !pre.done && !is_voice && pre.is_speaking && now_ms - pre.last_active_time_ms
        >= pre.silence_duration_ms
}

/// Per-sentence segmentation state: speaking flag, activity clock and the
/// classified utterance buffer.
pub struct SegmentationEngine {
    pub silence_duration_ms: u64,
    pub padding_samples: usize,
    pub chunk_size: usize,
    pub is_speaking: bool,
    pub last_active_time_ms: u64,
    pub done: bool,
    pub chunks: Vec<AudioChunkWithVAD>,
}

impl View for SegmentationEngine {
    type V = EngineModel;

    open spec fn view(&self) -> EngineModel {
        EngineModel {
            silence_duration_ms: self.silence_duration_ms as int,
            padding_samples: self.padding_samples as int,
            chunk_size: self.chunk_size as int,
            is_speaking: self.is_speaking,
            last_active_time_ms: self.last_active_time_ms as int,
            done: self.done,
            chunks: self.chunks@,
        }
    }
}

impl SegmentationEngine {
    /// Structural invariant: a frame always holds at least one sample.
    pub open spec fn wf(self) -> bool {
        self.chunk_size >= 1
    }

    /// A fresh engine for one sentence: not speaking, not done, empty buffer,
    /// activity clock set to the moment the stream starts.
    pub fn new(
        silence_duration_ms: u64,
        padding_samples: usize,
        chunk_size: usize,
        start_time_ms: u64,
    ) -> (r: Self)
        requires
            chunk_size >= 1,
        ensures
            r.wf(),
            r@ == (EngineModel {
                silence_duration_ms: silence_duration_ms as int,
                padding_samples: padding_samples as int,
                chunk_size: chunk_size as int,
                is_speaking: false,
                last_active_time_ms: start_time_ms as int,
                done: false,
                chunks: Seq::<AudioChunkWithVAD>::empty(),
            }),
    {
        let r = SegmentationEngine {
            silence_duration_ms,
            padding_samples,
            chunk_size,
            is_speaking: false,
            last_active_time_ms: start_time_ms,
            done: false,
            chunks: Vec::new(),
        };
        proof {
            assert(r.chunks@ =~= Seq::<AudioChunkWithVAD>::empty());
        }
        r
    }

    /// Consumes one classified frame at time `now_ms`: retains it, updates the
    /// speaking state per the grace-period and silence-duration rules, and
    /// reports what happened. When silence has persisted long enough while
    /// speaking, returns the trimmed utterance audio — exactly once; frames
    /// after that are ignored.
    pub fn process_chunk(&mut self, chunk: Vec<i16>, is_voice: bool, now_ms: u64) -> (outcome:
        FrameOutcome)
        requires
            old(self).wf(),
            now_ms >= old(self).last_active_time_ms,
        ensures
            final(self).wf(),
            final(self)@ == spec_step(old(self)@, chunk, is_voice, now_ms as int),
            final(self).last_active_time_ms <= now_ms,
            (outcome is VoiceSignal) == spec_voice_signal(old(self)@, is_voice, now_ms as int),
            (outcome matches FrameOutcome::UtteranceEnd(_)) == spec_utterance_end(old(self)@,
                is_voice, now_ms as int),
            (outcome matches FrameOutcome::UtteranceEnd(audio) ==> audio@ == spec_trimmed_audio(
                final(self)@.chunks, old(self).padding_samples as int,
                old(self).chunk_size as int)),
            (outcome is Ignored) == old(self).done,
    {
        if self.done {
            return FrameOutcome::Ignored;
        }
        let elapsed = now_ms - self.last_active_time_ms;
        self.chunks.push(AudioChunkWithVAD { chunk, is_voice });
        if is_voice {
            self.last_active_time_ms = now_ms;
            if elapsed >= GRACE_PERIOD_MS {
                self.is_speaking = true;
                FrameOutcome::VoiceSignal
            } else {
                FrameOutcome::Buffered
            }
        } else if self.is_speaking && elapsed >= self.silence_duration_ms {
            self.is_speaking = false;
            self.done = true;
            let audio = trim_chunks(&self.chunks, self.padding_samples, self.chunk_size);
            FrameOutcome::UtteranceEnd(audio)
        } else {
            FrameOutcome::Buffered
        }
    }
}

/// Folds a whole sequence of classified frames `(samples, is_voice, time)`
/// through the engine, oldest first.
pub open spec fn spec_run(pre: EngineModel, frames: Seq<(Vec<i16>, bool, u64)>) -> EngineModel
    decreases frames.len(),
{
    if frames.len() == 0 {
        pre
    } else {
        spec_run(spec_step(pre, frames[0].0, frames[0].1, frames[0].2 as int), frames.drop_first())
    }
}

/// Folding one more frame onto a run equals one step after the shorter run.
proof fn lemma_spec_run_snoc(pre: EngineModel, frames: Seq<(Vec<i16>, bool, u64)>, i: int)
    requires
        0 <= i < frames.len(),
    ensures
        spec_run(pre, frames.take(i + 1)) == spec_step(
            spec_run(pre, frames.take(i)),
            frames[i].0,
            frames[i].1,
            frames[i].2 as int,
        ),
    decreases i,
{
    let mid = spec_step(pre, frames[0].0, frames[0].1, frames[0].2 as int);
    if i == 0 {
        assert(frames.take(1)[0] == frames[0]);
        assert(frames.take(1).drop_first() =~= Seq::<(Vec<i16>, bool, u64)>::empty());
        assert(spec_run(pre, frames.take(1)) == spec_run(mid, frames.take(1).drop_first()));
        assert(spec_run(mid, frames.take(1).drop_first()) == mid);
        assert(frames.take(0) =~= Seq::<(Vec<i16>, bool, u64)>::empty());
        assert(spec_run(pre, frames.take(0)) == pre);
    } else {
        let rest = frames.drop_first();
        assert(frames.take(i + 1)[0] == frames[0]);
        assert(frames.take(i + 1).drop_first() =~= rest.take(i));
        assert(spec_run(pre, frames.take(i + 1)) == spec_run(mid, rest.take(i)));
        assert(frames.take(i)[0] == frames[0]);
        assert(frames.take(i).drop_first() =~= rest.take(i - 1));
        assert(spec_run(pre, frames.take(i)) == spec_run(mid, rest.take(i - 1)));
        assert(rest[i - 1] == frames[i]);
        lemma_spec_run_snoc(mid, rest, i - 1);
    }
}

/// Whether the frame at position `i` of a stream ends the utterance, given
/// everything before it has been fed through the engine.
pub open spec fn spec_ends_at(
    pre: EngineModel,
    frames: Seq<(Vec<i16>, bool, u64)>,
    i: int,
) -> bool {
    &&& 0 <= i < frames.len()
    &&& spec_utterance_end(spec_run(pre, frames.take(i)), frames[i].1, frames[i].2 as int)
}

/// Offline segmentation of one sentence: consumes a pre-classified frame
/// stream `(samples, is_voice, time)`, oldest first, feeding each frame
/// through the engine and stopping at the first frame that ends the
/// utterance; returns the trimmed audio, with the unconsumed frames left in
/// the stream, or nothing when the stream runs out first. Timestamps must not
/// run backwards. (A stream ends an utterance at most once: past the ending
/// frame the engine is done.)
#[verifier::rlimit(100)]
pub fn segment_utterance(
    engine: &mut SegmentationEngine,
    frames: &mut Vec<(Vec<i16>, bool, u64)>,
) -> (r: Option<Vec<i16>>)
    requires
        old(engine).wf(),
        old(frames)@.len() > 0 ==> old(frames)@[0].2 >= old(engine).last_active_time_ms,
        forall|i: int|
            0 < i < old(frames)@.len() ==> (#[trigger] old(frames)@[i]).2 >= old(frames)@[i - 1].2,
    ensures
        final(engine).wf(),
        (r matches Some(audio) ==> exists|i: int|
            #[trigger] spec_ends_at(old(engine)@, old(frames)@, i) && final(engine)@ == spec_step(
                spec_run(old(engine)@, old(frames)@.take(i)),
                old(frames)@[i].0,
                old(frames)@[i].1,
                old(frames)@[i].2 as int,
            ) && audio@ == spec_trimmed_audio(
                final(engine)@.chunks,
                old(engine).padding_samples as int,
                old(engine).chunk_size as int,
            ) && final(frames)@ == old(frames)@.subrange(i + 1, old(frames)@.len() as int)),
        (r is None ==> final(engine)@ == spec_run(old(engine)@, old(frames)@)
            && final(frames)@.len() == 0 && forall|i: int|
            !#[trigger] spec_ends_at(old(engine)@, old(frames)@, i)),
{
    let total = frames.len();
    let mut i: usize = 0;
    proof {
        assert(old(frames)@.take(0) =~= Seq::<(Vec<i16>, bool, u64)>::empty());
        assert(frames@ =~= old(frames)@.subrange(0, old(frames)@.len() as int));
    }
    while frames.len() > 0
        invariant
            total == old(frames)@.len(),
            i + frames@.len() == old(frames)@.len(),
            frames@ == old(frames)@.subrange(i as int, old(frames)@.len() as int),
            engine.wf(),
            engine.padding_samples == old(engine).padding_samples,
            engine.chunk_size == old(engine).chunk_size,
            engine@ == spec_run(old(engine)@, old(frames)@.take(i as int)),
            i < old(frames)@.len() ==> old(frames)@[i as int].2 >= engine.last_active_time_ms,
            forall|i0: int|
                0 < i0 < old(frames)@.len()
                    ==> (#[trigger] old(frames)@[i0]).2 >= old(frames)@[i0 - 1].2,
            forall|j: int| 0 <= j < i ==> !(#[trigger] spec_ends_at(old(engine)@, old(frames)@, j)),
        decreases frames@.len(),
    {
        let ghost rest_before = frames@;
        let (chunk, is_voice, now_ms) = frames.remove(0);
        proof {
            assert(rest_before[0] == old(frames)@[i as int]);
            assert(old(frames)@[i as int].0 == chunk && old(frames)@[i as int].1 == is_voice
                && old(frames)@[i as int].2 == now_ms);
            assert(frames@ =~= old(frames)@.subrange(i + 1, old(frames)@.len() as int));
        }
        let outcome = engine.process_chunk(chunk, is_voice, now_ms);
        proof {
            lemma_spec_run_snoc(old(engine)@, old(frames)@, i as int);
        }
        if let FrameOutcome::UtteranceEnd(audio) = outcome {
            proof {
                assert(spec_ends_at(old(engine)@, old(frames)@, i as int));
            }
            return Some(audio);
        }
        proof {
            assert(!spec_ends_at(old(engine)@, old(frames)@, i as int));
        }
        i += 1;
    }
    proof {
        assert(old(frames)@.take(old(frames)@.len() as int) =~= old(frames)@);
        assert(forall|j: int|
            (j < 0 || j >= old(frames)@.len())
                ==> !(#[trigger] spec_ends_at(old(engine)@, old(frames)@, j)));
    }
    None
}

/// A single voice frame arriving once the grace period has elapsed flips the
/// engine to speaking and signals the onset.
pub proof fn lemma_voice_onset_after_grace(pre: EngineModel, chunk: Vec<i16>, now_ms: int)
    requires
        !pre.done,
        now_ms - pre.last_active_time_ms >= GRACE_PERIOD_MS,
    ensures
        spec_step(pre, chunk, true, now_ms).is_speaking,
        spec_voice_signal(pre, true, now_ms),
{
}

/// A burst of voice frames in which every frame arrives within the grace
/// period of the previous activity reset neither flips the engine to speaking
/// nor emits the voice signal at any point.
pub proof fn lemma_grace_period_blocks_short_burst(
    pre: EngineModel,
    frames: Seq<(Vec<i16>, bool, u64)>,
)
    requires
        !pre.done,
        !pre.is_speaking,
        forall|i: int| 0 <= i < frames.len() ==> (#[trigger] frames[i]).1,
        frames.len() > 0 ==> frames[0].2 - pre.last_active_time_ms < GRACE_PERIOD_MS,
        forall|i: int|
            0 < i < frames.len() ==> (#[trigger] frames[i]).2 - frames[i - 1].2 < GRACE_PERIOD_MS,
    ensures
        !spec_run(pre, frames).is_speaking,
        !spec_run(pre, frames).done,
        forall|i: int|
            0 <= i < frames.len() ==> !spec_voice_signal(
                spec_run(pre, #[trigger] frames.take(i)),
                frames[i].1,
                frames[i].2 as int,
            ),
    decreases frames.len(),
{
    if frames.len() == 0 {
    } else {
        let mid = spec_step(pre, frames[0].0, frames[0].1, frames[0].2 as int);
        assert(!mid.is_speaking && !mid.done && mid.last_active_time_ms == frames[0].2);
        let rest = frames.drop_first();
        assert(forall|i: int|
            0 < i < rest.len() ==> (#[trigger] rest[i]).2 - rest[i - 1].2 < GRACE_PERIOD_MS && rest[
                i] == frames[i + 1] && rest[i - 1] == frames[i]);
        lemma_grace_period_blocks_short_burst(mid, rest);
        assert(spec_run(pre, frames) == spec_run(mid, rest));
        assert forall|i: int| 0 <= i < frames.len() implies !spec_voice_signal(
            spec_run(pre, #[trigger] frames.take(i)),
            frames[i].1,
            frames[i].2 as int,
        ) by {
            if i == 0 {
                assert(frames.take(0).len() == 0);
                assert(spec_run(pre, frames.take(0)) == pre);
            } else {
                assert(frames.take(i)[0] == frames[0]);
                assert(frames.take(i).drop_first() =~= rest.take(i - 1));
                assert(spec_run(pre, frames.take(i)) == spec_run(mid, rest.take(i - 1)));
                assert(!spec_voice_signal(spec_run(mid, rest.take(i - 1)), rest[i - 1].1,
                    rest[i - 1].2 as int));
                assert(rest[i - 1] == frames[i]);
            }
        }
    }
}

/// Silence short of the configured duration changes nothing but the buffer:
/// the engine stays speaking and the utterance does not end early.
pub proof fn lemma_short_silence_keeps_speaking(pre: EngineModel, chunk: Vec<i16>, now_ms: int)
    requires
        !pre.done,
        pre.is_speaking,
        now_ms - pre.last_active_time_ms < pre.silence_duration_ms,
    ensures
        spec_step(pre, chunk, false, now_ms).is_speaking,
        !spec_step(pre, chunk, false, now_ms).done,
        !spec_utterance_end(pre, false, now_ms),
{
}

/// Once speaking, a silence frame whose elapsed time since the last voice
/// frame reaches the silence duration ends the utterance, and it ends exactly
/// once: after that the engine is done, no later frame changes it, and no
/// later frame can trigger another utterance end or voice signal.
pub proof fn lemma_utterance_ends_exactly_once(
    pre: EngineModel,
    chunk: Vec<i16>,
    now_ms: int,
    later: Seq<(Vec<i16>, bool, u64)>,
)
    requires
        !pre.done,
        pre.is_speaking,
        now_ms - pre.last_active_time_ms >= pre.silence_duration_ms,
    ensures
        spec_utterance_end(pre, false, now_ms),
        spec_step(pre, chunk, false, now_ms).done,
        spec_run(spec_step(pre, chunk, false, now_ms), later) == spec_step(pre, chunk, false,
            now_ms),
        forall|i: int|
            0 <= i < later.len() ==> !spec_utterance_end(
                spec_run(spec_step(pre, chunk, false, now_ms), #[trigger] later.take(i)),
                later[i].1,
                later[i].2 as int,
            ) && !spec_voice_signal(
                spec_run(spec_step(pre, chunk, false, now_ms), later.take(i)),
                later[i].1,
                later[i].2 as int,
            ),
{
    let mid = spec_step(pre, chunk, false, now_ms);
    lemma_done_engine_is_inert(mid, later);
}

/// A finished engine is inert: no sequence of frames changes it, signals
/// onset, or re-triggers an utterance end.
pub proof fn lemma_done_engine_is_inert(pre: EngineModel, frames: Seq<(Vec<i16>, bool, u64)>)
    requires
        pre.done,
    ensures
        spec_run(pre, frames) == pre,
        forall|i: int|
            0 <= i < frames.len() ==> !spec_utterance_end(
                spec_run(pre, #[trigger] frames.take(i)),
                frames[i].1,
                frames[i].2 as int,
            ) && !spec_voice_signal(
                spec_run(pre, frames.take(i)),
                frames[i].1,
                frames[i].2 as int,
            ),
    decreases frames.len(),
{
    if frames.len() == 0 {
    } else {
        assert(spec_step(pre, frames[0].0, frames[0].1, frames[0].2 as int) == pre);
        lemma_done_engine_is_inert(pre, frames.drop_first());
        assert forall|i: int| 0 <= i < frames.len() implies !spec_utterance_end(
            spec_run(pre, #[trigger] frames.take(i)),
            frames[i].1,
            frames[i].2 as int,
        ) && !spec_voice_signal(
            spec_run(pre, frames.take(i)),
            frames[i].1,
            frames[i].2 as int,
        ) by {
            if i == 0 {
                assert(spec_run(pre, frames.take(0)) == pre);
            } else {
                let rest = frames.drop_first();
                assert(frames.take(i)[0] == frames[0]);
                assert(frames.take(i).drop_first() =~= rest.take(i - 1));
                assert(spec_run(pre, frames.take(i)) == spec_run(pre, rest.take(i - 1)));
                assert(rest[i - 1] == frames[i]);
            }
        }
    }
}

} // verus!
