//! Shared data types of the recording pipeline.

use vstd::prelude::*;

verus! {

/// The two audio events the per-sentence control loop waits for.
#[derive(Clone, Copy, PartialEq, Eq, Structural, Debug)]
pub enum AudioEvent {
    Voice,
    Silence,
}

/// Whether the auto-record pipeline may run, is suspended, or is stopped.
#[derive(Clone, Copy, PartialEq, Eq, Structural, Debug)]
pub enum RecordingState {
    Idle,
    Recording,
    Paused,
}

/// Sample encodings a capture device may deliver; anything else is rejected
/// when the stream is built.
#[derive(Clone, Copy, PartialEq, Eq, Structural, Debug)]
pub enum SampleFormatKind {
    Int16,
    Float32,
}

/// The negotiated capture configuration, reduced to the plain values the
/// segmentation logic reads. The device handle itself stays with the caller
/// that owns the hardware stream.
#[derive(Clone, Copy, PartialEq, Eq, Structural, Debug)]
pub struct AudioConfig {
    pub sample_rate: u32,
    pub channels: u16,
    pub sample_format: SampleFormatKind,
}

/// One classifier-sized frame of samples together with its voice/silence
/// classification. Immutable once classified.
#[derive(Clone, Debug)]
pub struct AudioChunkWithVAD {
    pub chunk: Vec<i16>,
    pub is_voice: bool,
}

/// The first rate of the preference list — common speech rates, highest
/// quality first — that a device range `[min_rate, max_rate]` supports.
pub open spec fn spec_range_rate(min_rate: u32, max_rate: u32) -> Option<u32> {
    if min_rate <= 48000 && 48000 <= max_rate {
        Some(48000u32)
    } else if min_rate <= 44100 && 44100 <= max_rate {
        Some(44100u32)
    } else if min_rate <= 32000 && 32000 <= max_rate {
        Some(32000u32)
    } else if min_rate <= 16000 && 16000 <= max_rate {
        Some(16000u32)
    } else if min_rate <= 8000 && 8000 <= max_rate {
        Some(8000u32)
    } else {
        None
    }
}

/// The preferred capture rate within one supported range, if any.
pub fn range_rate(min_rate: u32, max_rate: u32) -> (r: Option<u32>)
    ensures
        r == spec_range_rate(min_rate, max_rate),
{
    if min_rate <= 48000 && 48000 <= max_rate {
        Some(48000)
    } else if min_rate <= 44100 && 44100 <= max_rate {
        Some(44100)
    } else if min_rate <= 32000 && 32000 <= max_rate {
        Some(32000)
    } else if min_rate <= 16000 && 16000 <= max_rate {
        Some(16000)
    } else if min_rate <= 8000 && 8000 <= max_rate {
        Some(8000)
    } else {
        None
    }
}

/// Scans a device's supported rate ranges `(min_rate, max_rate)`, in order,
/// and picks from the first range that supports one of the preferred speech
/// rates both that range's index and the chosen rate. None when no range
/// supports any preferred rate — the device has no supported configuration.
pub fn pick_supported_rate(ranges: &Vec<(u32, u32)>) -> (r: Option<(usize, u32)>)
    ensures
        match r {
            Some(pick) => pick.0 < ranges@.len() && spec_range_rate(
                ranges@[pick.0 as int].0,
                ranges@[pick.0 as int].1,
            ) == Some(pick.1) && forall|j: int|
                0 <= j < pick.0 ==> spec_range_rate((#[trigger] ranges@[j]).0, ranges@[j].1)
                    is None,
            None => forall|j: int|
                0 <= j < ranges@.len() ==> spec_range_rate((#[trigger] ranges@[j]).0, ranges@[j].1)
                    is None,
        },
{
    let mut i: usize = 0;
    while i < ranges.len()
        invariant
            i <= ranges@.len(),
            forall|j: int|
                0 <= j < i ==> spec_range_rate((#[trigger] ranges@[j]).0, ranges@[j].1) is None,
        decreases ranges@.len() - i,
    {
        let (min_rate, max_rate) = ranges[i];
        if let Some(rate) = range_rate(min_rate, max_rate) {
            return Some((i, rate));
        }
        i += 1;
    }
    None
}

} // verus!
