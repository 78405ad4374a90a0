//! WAV encoding of finished utterances: 16-bit integer PCM at the negotiated
//! channel count and sample rate. The byte stream is produced in memory; the
//! caller writes it to disk.

use vstd::prelude::*;
use vstd::string::StringExecFns;
use crate::errors::RecorderError;

verus! {

/// Names the byte stream hound produces for a 16-bit integer PCM spec and a
/// sample sequence. The result is a function of these values alone.
pub uninterp spec fn wav_bytes_of(channels: u16, sample_rate: u32, samples: Seq<i16>) -> Seq<u8>;

/// Relies on hound's `WavWriter::new`, `write_sample::<i16>` and `finalize`
/// over an in-memory cursor: writes a RIFF/WAVE header (44 bytes for up to
/// two channels, 68 beyond) followed by each sample as two little-endian
/// bytes, and succeeds exactly when the sample count fills whole frames.
#[verifier::external_body]
fn encode_wav_i16(channels: u16, sample_rate: u32, samples: &Vec<i16>) -> (r: Result<
    Vec<u8>,
    RecorderError,
>)
    requires
        channels >= 1,
        sample_rate >= 1,
        2 * (sample_rate as int) * (channels as int) <= u32::MAX,
        2 * samples@.len() + 68 <= u32::MAX,
    ensures
        (r is Ok) == (samples@.len() % (channels as nat) == 0),
        (r matches Ok(bytes) ==> bytes@ == wav_bytes_of(channels, sample_rate, samples@)),
        (r matches Ok(bytes) ==> bytes@.len() == (if channels <= 2 {
            44int
        } else {
            68int
        }) + 2 * samples@.len()),
{
    let spec = hound::WavSpec {
        channels,
        sample_rate,
        bits_per_sample: 16,
        sample_format: hound::SampleFormat::Int,
    };
    let mut cursor = std::io::Cursor::new(Vec::new());
    let mut writer = hound::WavWriter::new(&mut cursor, spec)
        .map_err(|e| RecorderError::WavFormatError(e.to_string()))?;
    for &s in samples.iter() {
        writer.write_sample(s).map_err(|e| RecorderError::WavFormatError(e.to_string()))?;
    }
    writer.finalize().map_err(|e| RecorderError::WavFormatError(e.to_string()))?;
    Ok(cursor.into_inner())
}

/// Encodes an utterance as a WAV byte stream, or says exactly why it cannot
/// be: a zero channel count or rate, audio too large for the format's 32-bit
/// sizes, or a sample count that does not fill whole frames.
pub fn utterance_wav_bytes(channels: u16, sample_rate: u32, samples: &Vec<i16>) -> (r: Result<
    Vec<u8>,
    RecorderError,
>)
    ensures
        (r is Ok) == (channels >= 1 && sample_rate >= 1 && 2 * (sample_rate as int) * (
        channels as int) <= u32::MAX && 2 * samples@.len() + 68 <= u32::MAX && samples@.len() % (
        channels as nat) == 0),
        (r matches Ok(bytes) ==> bytes@ == wav_bytes_of(channels, sample_rate, samples@)),
        (r matches Ok(bytes) ==> bytes@.len() == (if channels <= 2 {
            44int
        } else {
            68int
        }) + 2 * samples@.len()),
{
    if channels == 0 || sample_rate == 0 {
        return Err(RecorderError::WavFormatError(String::from_str("zero channels or rate")));
    }
    let byte_rate_x2: u64 = 2u64 * (sample_rate as u64);
    proof {
        assert(byte_rate_x2 * (channels as u64) <= 0x1_FFFF_FFFEu64 * 0xFFFFu64)
            by (nonlinear_arith)
            requires
                byte_rate_x2 <= 0x1_FFFF_FFFEu64,
                (channels as u64) <= 0xFFFFu64,
        ;
    }
    if !(byte_rate_x2 * (channels as u64) <= u32::MAX as u64) {
        return Err(RecorderError::WavFormatError(String::from_str("byte rate too large")));
    }
    if !((samples.len() as u64) <= ((u32::MAX - 68) / 2) as u64) {
        return Err(RecorderError::WavFormatError(String::from_str("audio too long")));
    }
    if samples.len() % (channels as usize) != 0 {
        return Err(RecorderError::WavFormatError(String::from_str("unfinished frame")));
    }
    encode_wav_i16(channels, sample_rate, samples)
}

} // verus!
