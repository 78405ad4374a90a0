//! Silence trimming.
//!
//! When an utterance ends, the buffer holds silence, the spoken sentence, and
//! trailing silence, one classified frame per entry. The written audio keeps
//! every frame from one before the first voice frame through one after the
//! last voice frame, plus up to `padding_samples / chunk_size` frames of
//! retained silence on each side, so the file carries bounded silence padding
//! instead of the raw silence-to-silence capture.

use vstd::prelude::*;
use crate::config::AudioChunkWithVAD;

verus! {

/// The samples of a frame sequence, concatenated in order.
pub open spec fn concat_chunk_samples(chunks: Seq<AudioChunkWithVAD>) -> Seq<i16> {
    chunks.map_values(|c: AudioChunkWithVAD| c.chunk@).flatten()
}

/// Whether any frame is classified as voice.
pub open spec fn has_voice(chunks: Seq<AudioChunkWithVAD>) -> bool {
    exists|i: int| 0 <= i < chunks.len() && (#[trigger] chunks[i]).is_voice
}

/// Index of the first voice frame (meaningful only when `has_voice`).
pub open spec fn first_voice(chunks: Seq<AudioChunkWithVAD>) -> int
    decreases chunks.len(),
{
    if chunks.len() == 0 {
        0
    } else if chunks[0].is_voice {
        0
    } else {
        1 + first_voice(chunks.drop_first())
    }
}

/// Index of the last voice frame (meaningful only when `has_voice`).
pub open spec fn last_voice(chunks: Seq<AudioChunkWithVAD>) -> int
    decreases chunks.len(),
{
    if chunks.len() == 0 {
        -1
    } else if chunks.last().is_voice {
        chunks.len() - 1
    } else {
        last_voice(chunks.drop_last())
    }
}

/// Index of the first voice frame minus one, clamped to 0; the first frame of
/// the speech portion. 0 when no frame is voice.
pub open spec fn spec_start_index(chunks: Seq<AudioChunkWithVAD>) -> int {
    let fv = if has_voice(chunks) {
        first_voice(chunks)
    } else {
        0
    };
    if fv >= 1 {
        fv - 1
    } else {
        0
    }
}

/// Index of the last voice frame plus one, clamped to the last index; the
/// last frame of the speech portion. The last index when no frame is voice.
pub open spec fn spec_end_index(chunks: Seq<AudioChunkWithVAD>) -> int {
    if has_voice(chunks) {
        if last_voice(chunks) + 1 <= chunks.len() - 1 {
            last_voice(chunks) + 1
        } else {
            chunks.len() - 1
        }
    } else {
        chunks.len() - 1
    }
}

/// First frame kept: up to `pad_chunks` frames before the speech portion.
pub open spec fn spec_trim_lo(chunks: Seq<AudioChunkWithVAD>, pad_chunks: int) -> int {
    if spec_start_index(chunks) - pad_chunks >= 0 {
        spec_start_index(chunks) - pad_chunks
    } else {
        0
    }
}

/// One past the last frame kept: up to `pad_chunks` frames after the speech
/// portion.
pub open spec fn spec_trim_hi(chunks: Seq<AudioChunkWithVAD>, pad_chunks: int) -> int {
    if spec_end_index(chunks) + 1 + pad_chunks <= chunks.len() {
        spec_end_index(chunks) + 1 + pad_chunks
    } else {
        chunks.len() as int
    }
}

/// The samples the trimming step writes for a classified buffer: the kept
/// frame range, concatenated. Empty when the buffer is empty.
pub open spec fn spec_trimmed_audio(
    chunks: Seq<AudioChunkWithVAD>,
    padding_samples: int,
    chunk_size: int,
) -> Seq<i16>
    recommends
        chunk_size >= 1,
{
    if chunks.len() == 0 {
        Seq::empty()
    } else {
        let pad_chunks = padding_samples / chunk_size;
        concat_chunk_samples(
            chunks.subrange(spec_trim_lo(chunks, pad_chunks), spec_trim_hi(chunks, pad_chunks)),
        )
    }
}

/// A synthetic utterance buffer: `n` silence frames, then `m` voice frames,
/// then `k` silence frames.
pub open spec fn spec_synthetic(chunks: Seq<AudioChunkWithVAD>, n: int, m: int, k: int) -> bool {
    &&& n >= 0 && m >= 0 && k >= 0
    &&& chunks.len() == n + m + k
    &&& forall|i: int|
        0 <= i < chunks.len() ==> ((#[trigger] chunks[i]).is_voice <==> n <= i < n + m)
}

/// On a synthetic buffer the trim keeps exactly `min(pad + 1, n)` silence
/// frames before the voice and `min(pad + 1, k)` after it: the `pad` padding
/// frames plus the one flanking frame that belongs to the speech portion.
pub proof fn lemma_trim_synthetic_bounds(
    chunks: Seq<AudioChunkWithVAD>,
    n: int,
    m: int,
    k: int,
    pad: int,
)
    requires
        spec_synthetic(chunks, n, m, k),
        m >= 1,
        pad >= 0,
    ensures
        spec_trim_lo(chunks, pad) == n - vstd::math::min(pad + 1, n),
        spec_trim_hi(chunks, pad) == n + m + vstd::math::min(pad + 1, k),
{
    lemma_first_voice_is(chunks, n);
    lemma_last_voice_is(chunks, n + m - 1);
}

/// Trim correctness on a synthetic buffer whose padding covers the flanking
/// silence: with `p = padding_samples / chunk_size` padding frames and
/// `n <= p` and `k <= p`, the written output is exactly `min(p, n)` silence
/// frames, the `m` voice frames, and `min(p, k)` silence frames, in order.
pub proof fn lemma_trim_keeps_bounded_padding(
    chunks: Seq<AudioChunkWithVAD>,
    n: int,
    m: int,
    k: int,
    padding_samples: int,
    chunk_size: int,
)
    requires
        spec_synthetic(chunks, n, m, k),
        m >= 1,
        chunk_size >= 1,
        padding_samples >= 0,
        n <= padding_samples / chunk_size,
        k <= padding_samples / chunk_size,
    ensures
        ({
            let p = padding_samples / chunk_size;
            spec_trimmed_audio(chunks, padding_samples, chunk_size) == concat_chunk_samples(
                chunks.subrange(n - vstd::math::min(p, n), n + m + vstd::math::min(p, k)),
            )
        }),
{
    let p = padding_samples / chunk_size;
    lemma_trim_synthetic_bounds(chunks, n, m, k, p);
    assert(spec_trim_lo(chunks, p) == 0);
    assert(spec_trim_hi(chunks, p) == n + m + k);
    assert(n - vstd::math::min(p, n) == 0);
    assert(n + m + vstd::math::min(p, k) == n + m + k);
}

/// `first_voice` returns the unique position that is voice with only silence
/// before it.
pub proof fn lemma_first_voice_is(chunks: Seq<AudioChunkWithVAD>, i: int)
    requires
        0 <= i < chunks.len(),
        chunks[i].is_voice,
        forall|j: int| 0 <= j < i ==> !(#[trigger] chunks[j]).is_voice,
    ensures
        has_voice(chunks),
        first_voice(chunks) == i,
    decreases chunks.len(),
{
    if i == 0 {
    } else {
        assert(!chunks[0].is_voice);
        assert(chunks.drop_first()[i - 1] == chunks[i]);
        assert(forall|j: int|
            0 <= j < i - 1 ==> !(#[trigger] chunks.drop_first()[j]).is_voice
                && chunks.drop_first()[j] == chunks[j + 1]);
        lemma_first_voice_is(chunks.drop_first(), i - 1);
    }
}

/// `last_voice` returns the unique position that is voice with only silence
/// after it.
pub proof fn lemma_last_voice_is(chunks: Seq<AudioChunkWithVAD>, i: int)
    requires
        0 <= i < chunks.len(),
        chunks[i].is_voice,
        forall|j: int| i < j < chunks.len() ==> !(#[trigger] chunks[j]).is_voice,
    ensures
        has_voice(chunks),
        last_voice(chunks) == i,
    decreases chunks.len(),
{
    if i == chunks.len() - 1 {
    } else {
        assert(!chunks.last().is_voice);
        assert(chunks.drop_last()[i] == chunks[i]);
        assert(forall|j: int|
            i < j < chunks.drop_last().len() ==> !(#[trigger] chunks.drop_last()[j]).is_voice
                && chunks.drop_last()[j] == chunks[j]);
        lemma_last_voice_is(chunks.drop_last(), i);
    }
}

/// Position of the first voice-classified frame, if any.
fn find_first_voice(chunks: &Vec<AudioChunkWithVAD>) -> (r: Option<usize>)
    ensures
        match r {
            Some(i) => i < chunks@.len() && chunks@[i as int].is_voice && forall|j: int|
                0 <= j < i ==> !(#[trigger] chunks@[j]).is_voice,
            None => forall|j: int| 0 <= j < chunks@.len() ==> !(#[trigger] chunks@[j]).is_voice,
        },
{
    let mut i: usize = 0;
    while i < chunks.len()
        invariant
            i <= chunks@.len(),
            forall|j: int| 0 <= j < i ==> !(#[trigger] chunks@[j]).is_voice,
        decreases chunks@.len() - i,
    {
        if chunks[i].is_voice {
            return Some(i);
        }
        i += 1;
    }
    None
}

/// Position of the last voice-classified frame, if any.
fn find_last_voice(chunks: &Vec<AudioChunkWithVAD>) -> (r: Option<usize>)
    ensures
        match r {
            Some(i) => i < chunks@.len() && chunks@[i as int].is_voice && forall|j: int|
                i < j < chunks@.len() ==> !(#[trigger] chunks@[j]).is_voice,
            None => forall|j: int| 0 <= j < chunks@.len() ==> !(#[trigger] chunks@[j]).is_voice,
        },
{
    let mut i: usize = chunks.len();
    while i > 0
        invariant
            i <= chunks@.len(),
            forall|j: int| i <= j < chunks@.len() ==> !(#[trigger] chunks@[j]).is_voice,
        decreases i,
    {
        i -= 1;
        if chunks[i].is_voice {
            return Some(i);
        }
    }
    None
}

/// Trims a classified utterance buffer: returns, in order, the samples of up
/// to `padding_samples / chunk_size` frames before the speech portion, the
/// speech portion itself (first voice frame minus one through last voice
/// frame plus one, clamped into the buffer), and up to
/// `padding_samples / chunk_size` frames after it. An all-silence buffer is
/// kept whole; an empty buffer yields no samples.
pub fn trim_chunks(chunks: &Vec<AudioChunkWithVAD>, padding_samples: usize, chunk_size: usize) -> (
    out: Vec<i16>)
    requires
        chunk_size >= 1,
    ensures
        out@ == spec_trimmed_audio(chunks@, padding_samples as int, chunk_size as int),
{
    broadcast use vstd::seq_lib::group_seq_lib_default;

    let len = chunks.len();
    if len == 0 {
        let out: Vec<i16> = Vec::new();
        proof {
            assert(out@ =~= spec_trimmed_audio(chunks@, padding_samples as int, chunk_size as int));
        }
        return out;
    }
    let pad_chunks = padding_samples / chunk_size;

    let first = find_first_voice(chunks);
    let last = find_last_voice(chunks);

    let start_index: usize = match first {
        Some(i) => {
            proof {
                lemma_first_voice_is(chunks@, i as int);
            }
            if i >= 1 {
                i - 1
            } else {
                0
            }
        },
        None => 0,
    };

    let end_index: usize = match last {
        Some(i) => {
            proof {
                lemma_last_voice_is(chunks@, i as int);
            }
            if i + 1 <= len - 1 {
                i + 1
            } else {
                len - 1
            }
        },
        None => len - 1,
    };

    assert(start_index as int == spec_start_index(chunks@));
    assert(end_index as int == spec_end_index(chunks@));
    assert(start_index <= end_index && end_index < len);

    let lo: usize = if start_index >= pad_chunks {
        start_index - pad_chunks
    } else {
        0
    };
    let after_capacity = len - (end_index + 1);
    let hi: usize = if pad_chunks >= after_capacity {
        len
    } else {
        end_index + 1 + pad_chunks
    };

    assert(lo as int == spec_trim_lo(chunks@, pad_chunks as int));
    assert(hi as int == spec_trim_hi(chunks@, pad_chunks as int));

    let mut out: Vec<i16> = Vec::new();
    let mut idx: usize = lo;
    proof {
        assert(out@ =~= concat_chunk_samples(chunks@.subrange(lo as int, lo as int)));
    }
    while idx < hi
        invariant
            lo <= idx <= hi <= chunks@.len(),
            out@ == concat_chunk_samples(chunks@.subrange(lo as int, idx as int)),
        decreases hi - idx,
    {
        let frame = &chunks[idx];
        let mut j: usize = 0;
        let ghost out_before = out@;
        while j < frame.chunk.len()
            invariant
                j <= frame.chunk@.len(),
                out@ == out_before + frame.chunk@.subrange(0, j as int),
            decreases frame.chunk@.len() - j,
        {
            out.push(frame.chunk[j]);
            proof {
                assert(out@ =~= out_before + frame.chunk@.subrange(0, j + 1));
            }
            j += 1;
        }
        proof {
            let prefix = chunks@.subrange(lo as int, idx as int);
            let extended = chunks@.subrange(lo as int, idx as int + 1);
            assert(frame.chunk@.subrange(0, frame.chunk@.len() as int) =~= frame.chunk@);
            assert(extended =~= prefix.push(chunks@[idx as int]));
            assert(extended.map_values(|c: AudioChunkWithVAD| c.chunk@) =~= prefix.map_values(
                |c: AudioChunkWithVAD| c.chunk@).push(frame.chunk@));
            Seq::lemma_flatten_push(prefix.map_values(|c: AudioChunkWithVAD| c.chunk@),
                frame.chunk@);
            assert(out@ =~= concat_chunk_samples(extended));
        }
        idx += 1;
    }
    proof {
        assert(out@ =~= spec_trimmed_audio(chunks@, padding_samples as int, chunk_size as int));
    }
    out
}

} // verus!
