use recordr::config::AudioChunkWithVAD;
use recordr::frames::{
    get_chunk_size, get_frame_length, padding_samples, resampled_chunk_size, ChunkAccumulator,
};
use recordr::errors::RecorderError;
use recordr::trim::trim_chunks;

#[test]
fn chunk_size_for_common_rates() {
    assert_eq!(get_chunk_size(8000), Ok(256));
    assert_eq!(get_chunk_size(16000), Ok(512));
    assert_eq!(get_chunk_size(32000), Ok(1024));
    assert_eq!(get_chunk_size(48000), Ok(1536));
    assert_eq!(get_chunk_size(44100), Ok(1536));
}

#[test]
fn frame_length_for_legacy_detector_rates() {
    assert_eq!(get_frame_length(8000), Ok(160));
    assert_eq!(get_frame_length(16000), Ok(320));
    assert_eq!(get_frame_length(32000), Ok(640));
    assert_eq!(get_frame_length(48000), Ok(960));
    assert_eq!(get_frame_length(44100), Err(RecorderError::NoSupportedConfig));
}

#[test]
fn resampled_chunk_size_examples() {
    // 48 kHz capture downsampled to the classifier's 16 kHz: a third, exactly.
    assert_eq!(resampled_chunk_size(1536, 48000, 16000), 512);
    // 44.1 kHz does not divide evenly; the size is rounded up.
    assert_eq!(resampled_chunk_size(1536, 44100, 16000), 558);
    // Equal rates pass the chunk through.
    assert_eq!(resampled_chunk_size(512, 16000, 16000), 512);
}

#[test]
fn padding_samples_examples() {
    assert_eq!(padding_samples(200, 16000), 3200);
    assert_eq!(padding_samples(0, 16000), 0);
    // Rounded to nearest: 33 ms at 44.1 kHz is 1455.3 samples.
    assert_eq!(padding_samples(33, 44100), 1455);
}

#[test]
fn accumulator_regroups_exactly() {
    let mut acc = ChunkAccumulator::new(4);
    // 3 samples: no full frame yet.
    let frames = acc.push(&[1, 2, 3]);
    assert!(frames.is_empty());
    // 6 more: frames [1,2,3,4] and [5,6,7,8], remainder [9].
    let frames = acc.push(&[4, 5, 6, 7, 8, 9]);
    assert_eq!(frames, vec![vec![1, 2, 3, 4], vec![5, 6, 7, 8]]);
    // 3 more complete the third frame.
    let frames = acc.push(&[10, 11, 12]);
    assert_eq!(frames, vec![vec![9, 10, 11, 12]]);
}

fn frame(value: i16, len: usize, is_voice: bool) -> AudioChunkWithVAD {
    AudioChunkWithVAD { chunk: vec![value; len], is_voice }
}

#[test]
fn trim_keeps_padding_and_speech_byte_exact() {
    // 5 silence + 2 voice + 5 silence frames of 4 samples; padding covers 2
    // frames (8 samples). Kept: frames 2..=9 — two padding frames, the
    // flanking silence frame, the voice, the flanking silence frame, and two
    // padding frames.
    let mut chunks = Vec::new();
    for i in 0..12 {
        chunks.push(frame(i as i16, 4, i == 5 || i == 6));
    }
    let out = trim_chunks(&chunks, 8, 4);
    let mut expected = Vec::new();
    for i in 2..=9 {
        expected.extend_from_slice(&[i as i16; 4]);
    }
    assert_eq!(out, expected);
}

#[test]
fn trim_with_ample_padding_keeps_everything() {
    // Padding longer than the flanking silence: nothing is dropped.
    let mut chunks = Vec::new();
    for i in 0..7 {
        chunks.push(frame(i as i16, 2, i >= 2 && i <= 4));
    }
    let out = trim_chunks(&chunks, 100, 2);
    let mut expected = Vec::new();
    for i in 0..7 {
        expected.extend_from_slice(&[i as i16; 2]);
    }
    assert_eq!(out, expected);
}

#[test]
fn trim_all_silence_buffer_is_kept_whole() {
    let chunks = vec![frame(1, 2, false), frame(2, 2, false)];
    let out = trim_chunks(&chunks, 0, 2);
    assert_eq!(out, vec![1, 1, 2, 2]);
}

#[test]
fn trim_empty_buffer_writes_nothing() {
    let chunks: Vec<AudioChunkWithVAD> = Vec::new();
    let out = trim_chunks(&chunks, 8, 4);
    assert!(out.is_empty());
}

#[test]
fn trim_zero_padding_keeps_one_flanking_frame() {
    // With no padding the kept range is still first-voice-minus-one through
    // last-voice-plus-one.
    let mut chunks = Vec::new();
    for i in 0..6 {
        chunks.push(frame(i as i16, 1, i == 3));
    }
    let out = trim_chunks(&chunks, 0, 1);
    assert_eq!(out, vec![2, 3, 4]);
}
