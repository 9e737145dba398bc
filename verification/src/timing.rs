//! Symbols, timing, and how many samples each symbol lasts.
//!
//! Durations are whole milliseconds. A sample count is a duration times the
//! sample rate, rounded up; counts are taken in half milliseconds so that the
//! half unit of silence after a dot or dash is exact.

use vstd::prelude::*;

verus! {

/// One symbol of Morse text.
#[derive(Clone, Copy, Debug, PartialEq, Eq)]
pub enum MorseSymbol {
    /// `.`: a tone of one unit.
    Dot,
    /// `-`: a tone of three units.
    Dash,
    /// A space: the gap between two characters.
    CharGap,
    /// `/`: the gap between two words.
    WordGap,
}

/// The timing and the audio format of one rendering.
#[derive(Clone, Copy, Debug, PartialEq, Eq)]
pub struct TimingConfig {
    /// Length of a dot, in milliseconds.
    pub unit_ms: u32,
    /// Pitch of the tone, in hertz.
    pub frequency_hz: u32,
    /// Samples per second.
    pub sample_rate: u32,
    /// Bits per sample.
    pub bits_per_sample: u16,
    /// Silence for a space, in milliseconds.
    pub char_gap_ms: u32,
    /// Half the silence for a `/`, in milliseconds.
    pub word_gap_ms: u32,
}

/// Length of a dot unless configured otherwise, in milliseconds.
pub const UNIT_MS: u32 = 100;

/// Pitch of the tone unless configured otherwise, in hertz.
pub const FREQUENCY_HZ: u32 = 600;

/// Samples per second unless configured otherwise.
pub const SAMPLE_RATE: u32 = 44100;

/// Bits per sample unless configured otherwise.
pub const BITS_PER_SAMPLE: u16 = 16;

/// Silence for a space unless configured otherwise: one and a half units.
pub const CHAR_GAP_MS: u32 = 150;

/// The samples that `half_ms` half milliseconds last at `rate` samples per
/// second, rounded up.
pub open spec fn samples_in(half_ms: int, rate: int) -> int {
    (half_ms * rate + 1999) / 2000
}

/// The samples of tone that a symbol starts with.
pub open spec fn tone_len(sym: MorseSymbol, config: TimingConfig) -> int {
    match sym {
        MorseSymbol::Dot => samples_in(2 * config.unit_ms, config.sample_rate as int),
        MorseSymbol::Dash => samples_in(6 * config.unit_ms, config.sample_rate as int),
        MorseSymbol::CharGap => 0,
        MorseSymbol::WordGap => 0,
    }
}

/// The samples of silence that a symbol ends with: half a unit after a dot or
/// a dash, the character gap for a space, twice the word gap for a `/`.
pub open spec fn quiet_len(sym: MorseSymbol, config: TimingConfig) -> int {
    match sym {
        MorseSymbol::Dot => samples_in(config.unit_ms as int, config.sample_rate as int),
        MorseSymbol::Dash => samples_in(config.unit_ms as int, config.sample_rate as int),
        MorseSymbol::CharGap => samples_in(2 * config.char_gap_ms, config.sample_rate as int),
        MorseSymbol::WordGap => samples_in(4 * config.word_gap_ms, config.sample_rate as int),
    }
}

/// The samples of silence that end every rendering: one unit.
pub open spec fn pad_len(config: TimingConfig) -> int {
    samples_in(2 * config.unit_ms, config.sample_rate as int)
}

/// No count is negative, and no tone is longer than that of a dash.
pub proof fn lemma_counts(sym: MorseSymbol, config: TimingConfig)
    ensures
        0 <= tone_len(sym, config) <= tone_len(MorseSymbol::Dash, config),
        0 <= quiet_len(sym, config),
        0 <= pad_len(config),
{
    let u = config.unit_ms as int;
    let c = config.char_gap_ms as int;
    let w = config.word_gap_ms as int;
    let r = config.sample_rate as int;
    assert(0 <= u * r && 0 <= (2 * u) * r <= (6 * u) * r && 0 <= (2 * c) * r && 0 <= (4 * w) * r)
        by (nonlinear_arith)
        requires
            0 <= u,
            0 <= c,
            0 <= w,
            0 <= r,
    ;
}

impl TimingConfig {
    /// The usual timing and format, with the two gaps as given.
    pub fn new(char_gap_ms: u32, word_gap_ms: u32) -> (r: TimingConfig)
        ensures
            r == (TimingConfig {
                unit_ms: UNIT_MS,
                frequency_hz: FREQUENCY_HZ,
                sample_rate: SAMPLE_RATE,
                bits_per_sample: BITS_PER_SAMPLE,
                char_gap_ms,
                word_gap_ms,
            }),
    {
        TimingConfig {
            unit_ms: UNIT_MS,
            frequency_hz: FREQUENCY_HZ,
            sample_rate: SAMPLE_RATE,
            bits_per_sample: BITS_PER_SAMPLE,
            char_gap_ms,
            word_gap_ms,
        }
    }

    /// The samples of tone that `sym` starts with.
    pub fn tone_samples(&self, sym: MorseSymbol) -> (n: u64)
        ensures
            n == tone_len(sym, *self),
    {
        match sym {
            MorseSymbol::Dot => sample_count(2 * (self.unit_ms as u64), self.sample_rate),
            MorseSymbol::Dash => sample_count(6 * (self.unit_ms as u64), self.sample_rate),
            MorseSymbol::CharGap => 0,
            MorseSymbol::WordGap => 0,
        }
    }

    /// The samples of silence that `sym` ends with.
    pub fn quiet_samples(&self, sym: MorseSymbol) -> (n: u64)
        ensures
            n == quiet_len(sym, *self),
    {
        match sym {
            MorseSymbol::Dot => sample_count(self.unit_ms as u64, self.sample_rate),
            MorseSymbol::Dash => sample_count(self.unit_ms as u64, self.sample_rate),
            MorseSymbol::CharGap => sample_count(2 * (self.char_gap_ms as u64), self.sample_rate),
            MorseSymbol::WordGap => sample_count(4 * (self.word_gap_ms as u64), self.sample_rate),
        }
    }

    /// The samples of silence that end every rendering.
    pub fn pad_samples(&self) -> (n: u64)
        ensures
            n == pad_len(*self),
    {
        sample_count(2 * (self.unit_ms as u64), self.sample_rate)
    }
}

/// The samples that `half_ms` half milliseconds last at `rate` samples per
/// second, rounded up.
pub fn sample_count(half_ms: u64, rate: u32) -> (n: u64)
    requires
        half_ms <= 6 * 0xffff_ffff,
    ensures
        n == samples_in(half_ms as int, rate as int),
{
    assert(0 <= half_ms * rate <= (6 * 0xffff_ffff) * 0xffff_ffff) by (nonlinear_arith)
        requires
            0 <= half_ms <= 6 * 0xffff_ffff,
            0 <= rate <= 0xffff_ffff,
    ;
    let product: u128 = (half_ms as u128) * (rate as u128);
    let n: u128 = (product + 1999) / 2000;
    n as u64
}

} // verus!
