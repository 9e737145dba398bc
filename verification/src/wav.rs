//! Morse text as a WAVE stream in memory, written by the `hound` crate.

use vstd::prelude::*;
use crate::synth::{fits, is_morse, is_render_error, render, rendered, symbols_of};
use crate::synth::{RenderError, MAX_SAMPLES};
use crate::timing::TimingConfig;

verus! {

/// The error of `hound`'s readers and writers.
#[verifier::external_type_specification]
#[verifier::external_body]
pub struct ExHoundError(hound::Error);

/// The most samples per second that a stream can be written at.
pub const MAX_SAMPLE_RATE: u32 = 0x3fff_ffff;

/// The bytes of the WAVE stream that `hound` writes for integer samples in a
/// given number of channels, at a given rate and bit depth.
pub uninterp spec fn wav_bytes(
    samples: Seq<i16>,
    channels: u16,
    sample_rate: u32,
    bits_per_sample: u16,
) -> Seq<u8>;

/// Whether `hound` writes integer samples of `bits_per_sample` bits at all.
pub open spec fn is_depth(bits_per_sample: u16) -> bool {
    bits_per_sample == 8 || bits_per_sample == 16 || bits_per_sample == 24 || bits_per_sample
        == 32
}

/// Whether every sample can be written at `bits_per_sample` bits: at eight
/// bits a sample has to lie between -128 and 127.
pub open spec fn samples_fit(samples: Seq<i16>, bits_per_sample: u16) -> bool {
    bits_per_sample == 8 ==> forall|i: int|
        0 <= i < samples.len() ==> -128 <= #[trigger] samples[i] <= 127
}

/// Whether samples can be written as a stream: the bit depth is known, every
/// sample fits it, and the last frame has a sample for each channel.
pub open spec fn is_streamable(samples: Seq<i16>, channels: u16, bits_per_sample: u16) -> bool {
    &&& is_depth(bits_per_sample)
    &&& samples_fit(samples, bits_per_sample)
    &&& channels > 0
    &&& (samples.len() as int) % (channels as int) == 0
}

/// Writes `samples` as a WAVE stream in memory with `hound`: a `WavWriter` is
/// made with `WavWriter::new` over a cursor on an empty buffer, each sample
/// goes to `write_sample` in order, and `finalize` closes the stream. The
/// writer gives its bytes up only when it is done, so the three calls stand
/// together. If all of them succeed the buffer is returned, and its content is
/// named `wav_bytes`. Writing to the buffer itself does not fail, so the calls
/// succeed unless `new` refuses the bit depth, `write_sample` finds a sample
/// too wide for eight bits, or `finalize` finds a last frame that lacks a
/// channel. The bounds keep the writer's 32-bit counts of bytes from
/// overflowing and its divisions from dividing by zero.
#[verifier::external_body]
fn wav_stream(samples: &Vec<i16>, channels: u16, sample_rate: u32, bits_per_sample: u16) -> (r:
    Result<Vec<u8>, hound::Error>)
    requires
        channels >= 1,
        sample_rate >= 1,
        bits_per_sample <= 32,
        sample_rate * 4 * channels <= u32::MAX,
        samples@.len() * 4 + 60 <= u32::MAX,
    ensures
        is_streamable(samples@, channels, bits_per_sample) <==> r is Ok,
        r matches Ok(bytes) ==> bytes@ == wav_bytes(
            samples@,
            channels,
            sample_rate,
            bits_per_sample,
        ),
{
    let sample_format = hound::SampleFormat::Int;
    let spec = hound::WavSpec { channels, sample_rate, bits_per_sample, sample_format };
    let mut bytes: Vec<u8> = Vec::new();
    let mut writer = hound::WavWriter::new(std::io::Cursor::new(&mut bytes), spec)?;
    for sample in samples.iter() {
        writer.write_sample(*sample)?;
    }
    writer.finalize()?;
    Ok(bytes)
}

/// Whether a stream can be written in the format of `config`: the rate is in
/// range and the bit depth is one that the writer knows.
pub open spec fn is_writable(config: TimingConfig) -> bool {
    &&& 1 <= config.sample_rate <= MAX_SAMPLE_RATE
    &&& is_depth(config.bits_per_sample)
}

/// Whether a stream can be written in the format of `config`.
pub fn can_write(config: &TimingConfig) -> (r: bool)
    ensures
        r == is_writable(*config),
{
    let bits: u16 = config.bits_per_sample;
    1 <= config.sample_rate && config.sample_rate <= MAX_SAMPLE_RATE && (bits == 8 || bits == 16
        || bits == 24 || bits == 32)
}

/// What becomes of a written stream: its bytes, or the sink's failure.
pub fn stream_result(written: Result<Vec<u8>, hound::Error>) -> (r: Result<Vec<u8>, RenderError>)
    ensures
        match written {
            Ok(bytes) => r == Ok::<Vec<u8>, RenderError>(bytes),
            Err(_) => r == Err::<Vec<u8>, RenderError>(RenderError::SinkIOError),
        },
{
    match written {
        Ok(bytes) => Ok(bytes),
        Err(_) => Err(RenderError::SinkIOError),
    }
}

/// Writes samples as a one-channel WAVE stream in the format of `config`. The
/// stream is owed whenever the samples are not too many, the format can be
/// written and every sample fits the bit depth.
pub fn samples_to_wav(samples: &Vec<i16>, config: &TimingConfig) -> (r: Result<
    Vec<u8>,
    RenderError,
>)
    ensures
        match r {
            Ok(bytes) => is_writable(*config) && samples@.len() <= MAX_SAMPLES && samples_fit(
                samples@,
                config.bits_per_sample,
            ) && bytes@ == wav_bytes(samples@, 1, config.sample_rate, config.bits_per_sample),
            Err(e) => if samples@.len() > MAX_SAMPLES {
                e == RenderError::TooLong
            } else if !is_writable(*config) {
                e == RenderError::UnsupportedFormat
            } else {
                !samples_fit(samples@, config.bits_per_sample) && e == RenderError::SinkIOError
            },
        },
{
    if samples.len() as u64 > MAX_SAMPLES {
        return Err(RenderError::TooLong);
    }
    if !can_write(config) {
        return Err(RenderError::UnsupportedFormat);
    }
    stream_result(wav_stream(samples, 1, config.sample_rate, config.bits_per_sample))
}

/// Renders a Morse text and writes it as a one-channel WAVE stream in memory.
/// A text that cannot be rendered fails as `render` says, before anything is
/// written. The stream is owed whenever the text can be rendered, the format
/// can be written and every sample fits the bit depth.
pub fn write_morse_in_memory(morse: &str, config: &TimingConfig, tone: &Vec<i16>) -> (r: Result<
    Vec<u8>,
    RenderError,
>)
    ensures
        match r {
            Ok(bytes) => is_morse(morse@) && fits(symbols_of(morse@), *config, tone@.len() as int)
                && is_writable(*config) && samples_fit(
                rendered(symbols_of(morse@), *config, tone@),
                config.bits_per_sample,
            ) && bytes@ == wav_bytes(
                rendered(symbols_of(morse@), *config, tone@),
                1,
                config.sample_rate,
                config.bits_per_sample,
            ),
            Err(e) => if !is_morse(morse@) || !fits(
                symbols_of(morse@),
                *config,
                tone@.len() as int,
            ) {
                is_render_error(morse@, *config, tone@.len() as int, e)
            } else if !is_writable(*config) {
                e == RenderError::UnsupportedFormat
            } else {
                !samples_fit(rendered(symbols_of(morse@), *config, tone@), config.bits_per_sample)
                    && e == RenderError::SinkIOError
            },
        },
{
    match render(morse, config, tone) {
        Ok(samples) => samples_to_wav(&samples, config),
        Err(e) => Err(e),
    }
}

} // verus!
