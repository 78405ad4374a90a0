//! Frame sizing and sample-count arithmetic.
//!
//! The classifier consumes fixed-size frames. The frame size is derived from
//! the sample rate as `round(sample_rate / 31.25)`, rounded up to the next
//! multiple of 256, which yields roughly 32 ms frames. Capture callbacks
//! deliver variably sized buffers, so a `ChunkAccumulator` regroups samples
//! into exact frames without losing or duplicating any across boundaries.

use vstd::prelude::*;
use crate::errors::RecorderError;

verus! {

/// `round(sample_rate / 31.25)`, rounded up to the next multiple of 256.
///
/// `sample_rate / 31.25 == 8 * sample_rate / 250`, and `8 * sample_rate` is
/// even while half of 250 is odd, so rounding to nearest never ties and
/// equals `(8 * sample_rate + 125) / 250` in integer division.
pub open spec fn spec_chunk_size(sample_rate: int) -> int {
    let rounded = (8 * sample_rate + 125) / 250;
    ((rounded + 255) / 256) * 256
}

/// The classifier frame size, in samples, for a capture sample rate.
pub fn get_chunk_size(sample_rate: usize) -> (r: Result<usize, RecorderError>)
    requires
        8 * sample_rate + 125 <= usize::MAX,
    ensures
        r == Ok::<usize, RecorderError>(spec_chunk_size(sample_rate as int) as usize),
{
    let rounded: usize = (8 * sample_rate + 125) / 250;
    proof {
        assert(((rounded + 255) / 256) * 256 <= rounded + 255) by (nonlinear_arith);
    }
    let chunk_size: usize = ((rounded + 255) / 256) * 256;
    Ok(chunk_size)
}

/// Frame length of the fixed-mode detector used by the legacy pipeline:
/// 10 ms of samples, defined only for the four rates that detector accepts.
pub fn get_frame_length(sample_rate: usize) -> (r: Result<usize, RecorderError>)
    ensures
        sample_rate == 8000 ==> r == Ok::<usize, RecorderError>(160usize),
        sample_rate == 16000 ==> r == Ok::<usize, RecorderError>(320usize),
        sample_rate == 32000 ==> r == Ok::<usize, RecorderError>(640usize),
        sample_rate == 48000 ==> r == Ok::<usize, RecorderError>(960usize),
        !(sample_rate == 8000 || sample_rate == 16000 || sample_rate == 32000
            || sample_rate == 48000) ==> r == Err::<usize, RecorderError>(
            RecorderError::NoSupportedConfig,
        ),
{
    match sample_rate {
        8000 => Ok(160),
        16000 => Ok(320),
        32000 => Ok(640),
        48000 => Ok(960),
        _ => Err(RecorderError::NoSupportedConfig),
    }
}

/// `ceil(input_chunk / ratio)` where `ratio == from_rate / to_rate`: how many
/// samples a resampler converting `from_rate` to `to_rate` emits for an input
/// chunk, so that downstream frame alignment stays correct.
pub open spec fn spec_resampled_chunk_size(input_chunk: int, from_rate: int, to_rate: int) -> int {
    (input_chunk * to_rate + from_rate - 1) / from_rate
}

/// Output chunk size of a rate converter, recomputed per call.
pub fn resampled_chunk_size(input_chunk: usize, from_rate: u32, to_rate: u32) -> (r: usize)
    requires
        from_rate >= 1,
        input_chunk * to_rate + from_rate - 1 <= usize::MAX,
    ensures
        r == spec_resampled_chunk_size(input_chunk as int, from_rate as int, to_rate as int),
{
    (input_chunk * (to_rate as usize) + ((from_rate as usize) - 1)) / (from_rate as usize)
}

/// `round(silence_padding_seconds * sample_rate)`: how many samples of
/// retained silence the configured padding stands for.
pub open spec fn spec_padding_samples(silence_padding_ms: int, sample_rate: int) -> int {
    (silence_padding_ms * sample_rate + 500) / 1000
}

/// The padding duration converted to a sample count, rounded to nearest.
pub fn padding_samples(silence_padding_ms: u64, sample_rate: u32) -> (r: u64)
    requires
        silence_padding_ms * sample_rate + 500 <= u64::MAX,
    ensures
        r == spec_padding_samples(silence_padding_ms as int, sample_rate as int),
{
    (silence_padding_ms * (sample_rate as u64) + 500) / 1000
}

/// Concatenation of a sequence of sample buffers.
pub open spec fn concat_samples(chunks: Seq<Vec<i16>>) -> Seq<i16> {
    chunks.map_values(|c: Vec<i16>| c@).flatten()
}

/// Regroups arbitrarily sized capture buffers into frames of exactly
/// `chunk_size` samples, keeping the remainder for the next call.
pub struct ChunkAccumulator {
    buffer: Vec<i16>,
    chunk_size: usize,
}

impl ChunkAccumulator {
    /// Structural invariant: the pending remainder is always shorter than one
    /// frame.
    pub closed spec fn wf(self) -> bool {
        &&& self.chunk_size >= 1
        &&& self.buffer@.len() < self.chunk_size
    }

    /// Samples received but not yet emitted as part of a full frame.
    pub closed spec fn pending(self) -> Seq<i16> {
        self.buffer@
    }

    /// The frame size this accumulator was built with.
    pub closed spec fn spec_chunk_size(self) -> int {
        self.chunk_size as int
    }

    pub fn new(chunk_size: usize) -> (r: Self)
        requires
            chunk_size >= 1,
        ensures
            r.wf(),
            r.pending() == Seq::<i16>::empty(),
            r.spec_chunk_size() == chunk_size,
    {
        ChunkAccumulator { buffer: Vec::new(), chunk_size }
    }

    /// Feeds one capture buffer in and returns every full frame now
    /// available, in order. No sample is lost, duplicated or reordered: the
    /// samples pending before the call followed by `data` equal the emitted
    /// frames followed by the samples still pending.
    pub fn push(&mut self, data: &[i16]) -> (frames: Vec<Vec<i16>>)
        requires
            old(self).wf(),
        ensures
            final(self).wf(),
            final(self).spec_chunk_size() == old(self).spec_chunk_size(),
            forall|i: int|
                0 <= i < frames@.len() ==> (#[trigger] frames@[i])@.len()
                    == old(self).spec_chunk_size(),
            old(self).pending() + data@ == concat_samples(frames@) + final(self).pending(),
    {
        broadcast use vstd::seq_lib::group_seq_lib_default;

        let mut frames: Vec<Vec<i16>> = Vec::new();
        let mut i: usize = 0;
        proof {
            assert(concat_samples(frames@) =~= Seq::<i16>::empty());
            assert(old(self).pending() + data@.subrange(0, 0) =~= old(self).pending());
        }
        while i < data.len()
            invariant
                i <= data@.len(),
                self.wf(),
                self.chunk_size == old(self).chunk_size,
                forall|j: int|
                    0 <= j < frames@.len() ==> (#[trigger] frames@[j])@.len()
                        == old(self).spec_chunk_size(),
                old(self).pending() + data@.subrange(0, i as int) == concat_samples(frames@)
                    + self.pending(),
            decreases data@.len() - i,
        {
            let ghost pending_before = self.pending();
            self.buffer.push(data[i]);
            proof {
                assert(self.pending() =~= pending_before.push(data@[i as int]));
                assert(data@.subrange(0, i + 1) =~= data@.subrange(0, i as int).push(
                    data@[i as int]));
                assert(old(self).pending() + data@.subrange(0, i + 1) =~= (old(self).pending()
                    + data@.subrange(0, i as int)) + seq![data@[i as int]]);
                assert(concat_samples(frames@) + self.pending() =~= (concat_samples(frames@)
                    + pending_before) + seq![data@[i as int]]);
                assert(old(self).pending() + data@.subrange(0, i + 1) =~= concat_samples(frames@)
                    + self.pending());
            }
            if self.buffer.len() == self.chunk_size {
                let mut full: Vec<i16> = Vec::new();
                core::mem::swap(&mut full, &mut self.buffer);
                let ghost frames_before = frames@;
                frames.push(full);
                proof {
                    assert(frames@.map_values(|c: Vec<i16>| c@) =~= frames_before.map_values(
                        |c: Vec<i16>| c@).push(full@));
                    Seq::lemma_flatten_push(frames_before.map_values(|c: Vec<i16>| c@), full@);
                    assert(old(self).pending() + data@.subrange(0, i + 1) =~= concat_samples(
                        frames@) + self.pending());
                }
            }
            i += 1;
        }
        proof {
            assert(data@.subrange(0, data@.len() as int) =~= data@);
        }
        frames
    }
}

} // verus!
