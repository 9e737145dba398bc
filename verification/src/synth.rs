//! Morse text rendered as audio samples.
//!
//! The samples of a tone are not computed here: the caller hands in the tone's
//! wave, sample `i` of it being the tone `i` ticks after its onset. Every tone
//! starts at its onset, so a dot is the start of that wave and a dash a longer
//! start of it. Silence is the sample zero.

use vstd::prelude::*;
use crate::text::chars_of;
use crate::timing::{lemma_counts, pad_len, quiet_len, tone_len, MorseSymbol, TimingConfig};

verus! {

/// The most samples that one rendering may hold.
pub const MAX_SAMPLES: u64 = 1073741808;

/// Why a Morse text was not rendered.
#[derive(Clone, Copy, Debug, PartialEq, Eq)]
pub enum RenderError {
    /// The text holds a character that is no Morse symbol: the first such
    /// character and its place.
    InvalidMorseSymbol { index: usize, found: char },
    /// The tone's wave is shorter than the tone of a dash.
    ToneTooShort,
    /// The rendering would hold more than `MAX_SAMPLES` samples.
    TooLong,
    /// The sample rate or the bit depth cannot be written as a WAVE stream.
    UnsupportedFormat,
    /// Writing the samples out failed.
    SinkIOError,
}

/// The symbol that a character of Morse text stands for.
pub open spec fn symbol_of(c: char) -> Option<MorseSymbol> {
    if c == '.' {
        Some(MorseSymbol::Dot)
    } else if c == '-' {
        Some(MorseSymbol::Dash)
    } else if c == ' ' {
        Some(MorseSymbol::CharGap)
    } else if c == '/' {
        Some(MorseSymbol::WordGap)
    } else {
        None
    }
}

/// Whether every character of `morse` is a Morse symbol.
pub open spec fn is_morse(morse: Seq<char>) -> bool {
    forall|i: int| 0 <= i < morse.len() ==> symbol_of(#[trigger] morse[i]) is Some
}

/// Whether `i` is the place of the first character of `morse` that is no
/// Morse symbol.
pub open spec fn is_first_invalid(morse: Seq<char>, i: int) -> bool {
    &&& 0 <= i < morse.len()
    &&& symbol_of(morse[i]) is None
    &&& forall|j: int| 0 <= j < i ==> symbol_of(#[trigger] morse[j]) is Some
}

/// The symbols of a Morse text, one for each character.
pub open spec fn symbols_of(morse: Seq<char>) -> Seq<MorseSymbol> {
    Seq::new(morse.len(), |i: int| symbol_of(morse[i])->0)
}

/// `n` samples of silence.
pub open spec fn silence(n: int) -> Seq<i16> {
    Seq::new(n as nat, |i: int| 0i16)
}

/// The samples of one symbol: its tone, then its silence.
pub open spec fn symbol_samples(sym: MorseSymbol, config: TimingConfig, tone: Seq<i16>) -> Seq<
    i16,
> {
    tone.take(tone_len(sym, config)) + silence(quiet_len(sym, config))
}

/// The samples of a run of symbols, one symbol after the other.
pub open spec fn body_samples(
    symbols: Seq<MorseSymbol>,
    config: TimingConfig,
    tone: Seq<i16>,
) -> Seq<i16>
    decreases symbols.len(),
{
    if symbols.len() == 0 {
        Seq::empty()
    } else {
        body_samples(symbols.drop_last(), config, tone) + symbol_samples(
            symbols.last(),
            config,
            tone,
        )
    }
}

/// The number of samples of a run of symbols: the sum over the symbols of
/// their tone and their silence.
pub open spec fn body_len(symbols: Seq<MorseSymbol>, config: TimingConfig) -> int
    decreases symbols.len(),
{
    if symbols.len() == 0 {
        0
    } else {
        body_len(symbols.drop_last(), config) + tone_len(symbols.last(), config) + quiet_len(
            symbols.last(),
            config,
        )
    }
}

/// A whole rendering: the symbols' samples, then one unit of silence.
pub open spec fn rendered(symbols: Seq<MorseSymbol>, config: TimingConfig, tone: Seq<i16>) -> Seq<
    i16,
> {
    body_samples(symbols, config, tone) + silence(pad_len(config))
}

/// The number of samples of a whole rendering.
pub open spec fn rendered_len(symbols: Seq<MorseSymbol>, config: TimingConfig) -> int {
    body_len(symbols, config) + pad_len(config)
}

/// Whether a run of symbols can be rendered: the wave covers a dash and the
/// result is not too long.
pub open spec fn fits(symbols: Seq<MorseSymbol>, config: TimingConfig, tone_samples: int) -> bool {
    &&& tone_samples >= tone_len(MorseSymbol::Dash, config)
    &&& rendered_len(symbols, config) <= MAX_SAMPLES
}

/// Whether `e` is the error that rendering a run of symbols ends in.
pub open spec fn is_fit_error(
    symbols: Seq<MorseSymbol>,
    config: TimingConfig,
    tone_samples: int,
    e: RenderError,
) -> bool {
    if tone_samples < tone_len(MorseSymbol::Dash, config) {
        e == RenderError::ToneTooShort
    } else {
        rendered_len(symbols, config) > MAX_SAMPLES && e == RenderError::TooLong
    }
}

/// Whether `e` is the error that parsing `morse` ends in.
pub open spec fn is_parse_error(morse: Seq<char>, e: RenderError) -> bool {
    match e {
        RenderError::InvalidMorseSymbol { index, found } => is_first_invalid(morse, index as int)
            && found == morse[index as int],
        _ => false,
    }
}

/// Whether `e` is the error that rendering `morse` ends in. An invalid
/// character comes before every other reason.
pub open spec fn is_render_error(
    morse: Seq<char>,
    config: TimingConfig,
    tone_samples: int,
    e: RenderError,
) -> bool {
    if is_morse(morse) {
        is_fit_error(symbols_of(morse), config, tone_samples, e)
    } else {
        is_parse_error(morse, e)
    }
}

/// A rendering fails with an invalid symbol exactly when the text holds a
/// character that is no Morse symbol; the empty text holds none.
pub proof fn lemma_invalid_symbol_iff(
    morse: Seq<char>,
    config: TimingConfig,
    tone_samples: int,
    e: RenderError,
)
    requires
        is_render_error(morse, config, tone_samples, e),
    ensures
        e is InvalidMorseSymbol <==> !is_morse(morse),
        is_morse(Seq::<char>::empty()),
{
}

/// The sum over a run of symbols is never negative and never less than the sum
/// over a start of the run.
proof fn lemma_body_len_grows(symbols: Seq<MorseSymbol>, config: TimingConfig, n: int)
    requires
        0 <= n <= symbols.len(),
    ensures
        0 <= body_len(symbols.take(n), config) <= body_len(symbols, config),
    decreases symbols.len(),
{
    if n == symbols.len() {
        assert(symbols.take(n) =~= symbols);
        if n > 0 {
            lemma_body_len_grows(symbols.drop_last(), config, n - 1);
            assert(symbols.drop_last().take(n - 1) =~= symbols.drop_last());
            lemma_counts(symbols.last(), config);
        }
    } else {
        lemma_body_len_grows(symbols.drop_last(), config, n);
        assert(symbols.drop_last().take(n) =~= symbols.take(n));
        lemma_counts(symbols.last(), config);
    }
}

/// The number of samples of a rendering is the sum of what each symbol lasts,
/// each part rounded up by itself, and the unit of silence at the end.
pub proof fn lemma_rendered_len(symbols: Seq<MorseSymbol>, config: TimingConfig, tone: Seq<i16>)
    requires
        tone.len() >= tone_len(MorseSymbol::Dash, config),
    ensures
        body_samples(symbols, config, tone).len() == body_len(symbols, config),
        rendered(symbols, config, tone).len() == rendered_len(symbols, config),
    decreases symbols.len(),
{
    lemma_counts(MorseSymbol::Dot, config);
    if symbols.len() > 0 {
        lemma_rendered_len(symbols.drop_last(), config, tone);
        lemma_counts(symbols.last(), config);
    }
}

/// Where a symbol's samples stand in a rendering: after the samples of all the
/// symbols before it.
pub proof fn lemma_symbol_in_rendering(
    symbols: Seq<MorseSymbol>,
    config: TimingConfig,
    tone: Seq<i16>,
    k: int,
    j: int,
)
    requires
        tone.len() >= tone_len(MorseSymbol::Dash, config),
        0 <= k < symbols.len(),
        0 <= j < tone_len(symbols[k], config) + quiet_len(symbols[k], config),
    ensures
        0 <= body_len(symbols.take(k), config) + j < body_len(symbols, config),
        rendered(symbols, config, tone)[body_len(symbols.take(k), config) + j] == symbol_samples(
            symbols[k],
            config,
            tone,
        )[j],
    decreases symbols.len(),
{
    let head = symbols.drop_last();
    lemma_rendered_len(symbols, config, tone);
    lemma_rendered_len(head, config, tone);
    lemma_counts(symbols[k], config);
    lemma_counts(symbols.last(), config);
    lemma_counts(MorseSymbol::Dot, config);
    lemma_body_len_grows(symbols, config, k);
    if k == symbols.len() - 1 {
        assert(symbols.take(k) =~= head);
    } else {
        lemma_symbol_in_rendering(head, config, tone, k, j);
        assert(head.take(k) =~= symbols.take(k));
        assert(head[k] == symbols[k]);
    }
}

/// Silence is zero throughout, however long it is.
pub proof fn lemma_silence_is_zero(n: int, i: int)
    requires
        0 <= i < n,
    ensures
        silence(n).len() == n,
        silence(n)[i] == 0,
{
}

/// How often `sym` stands in a run of symbols.
pub open spec fn count_of(symbols: Seq<MorseSymbol>, sym: MorseSymbol) -> int
    decreases symbols.len(),
{
    if symbols.len() == 0 {
        0
    } else {
        count_of(symbols.drop_last(), sym) + if symbols.last() == sym {
            1int
        } else {
            0int
        }
    }
}

/// The samples that one symbol lasts: its tone and its silence.
pub open spec fn symbol_len(sym: MorseSymbol, config: TimingConfig) -> int {
    tone_len(sym, config) + quiet_len(sym, config)
}

/// The number of samples of a rendering depends only on how many dots,
/// dashes, spaces and slashes the text holds: each kind counts as often as it
/// stands there, and one unit of silence is added.
pub proof fn lemma_rendered_len_by_counts(symbols: Seq<MorseSymbol>, config: TimingConfig)
    ensures
        rendered_len(symbols, config) == count_of(symbols, MorseSymbol::Dot) * symbol_len(
            MorseSymbol::Dot,
            config,
        ) + count_of(symbols, MorseSymbol::Dash) * symbol_len(MorseSymbol::Dash, config)
            + count_of(symbols, MorseSymbol::CharGap) * symbol_len(MorseSymbol::CharGap, config)
            + count_of(symbols, MorseSymbol::WordGap) * symbol_len(MorseSymbol::WordGap, config)
            + pad_len(config),
    decreases symbols.len(),
{
    if symbols.len() > 0 {
        let head = symbols.drop_last();
        lemma_rendered_len_by_counts(head, config);
        let sym = symbols.last();
        let x = symbol_len(sym, config);
        let c = count_of(head, sym);
        assert((c + 1) * x == c * x + x) by (nonlinear_arith);
    }
}

/// After its tone a symbol is silent: every sample there is zero. A space and
/// a `/` have no tone and are silent throughout.
pub proof fn lemma_symbol_rest_is_silent(
    sym: MorseSymbol,
    config: TimingConfig,
    tone: Seq<i16>,
    i: int,
)
    requires
        tone.len() >= tone_len(sym, config),
        tone_len(sym, config) <= i < tone_len(sym, config) + quiet_len(sym, config),
    ensures
        symbol_samples(sym, config, tone)[i] == 0,
        sym == MorseSymbol::CharGap || sym == MorseSymbol::WordGap ==> tone_len(sym, config) == 0,
{
    lemma_counts(sym, config);
}

/// A rendering ends in one unit of silence: each of its last samples is zero.
pub proof fn lemma_pad_is_silent(
    symbols: Seq<MorseSymbol>,
    config: TimingConfig,
    tone: Seq<i16>,
    i: int,
)
    requires
        tone.len() >= tone_len(MorseSymbol::Dash, config),
        rendered_len(symbols, config) - pad_len(config) <= i < rendered_len(symbols, config),
    ensures
        rendered(symbols, config, tone)[i] == 0,
{
    lemma_rendered_len(symbols, config, tone);
    lemma_counts(MorseSymbol::Dot, config);
}

/// The symbols of a Morse text, or the first character that is none.
pub fn parse(morse: &str) -> (r: Result<Vec<MorseSymbol>, RenderError>)
    ensures
        match r {
            Ok(symbols) => is_morse(morse@) && symbols@ == symbols_of(morse@),
            Err(e) => !is_morse(morse@) && is_parse_error(morse@, e),
        },
{
    let chars = chars_of(morse);
    let n: usize = chars.len();
    let mut symbols: Vec<MorseSymbol> = Vec::new();
    let mut i: usize = 0;
    while i < n
        invariant
            chars@ == morse@,
            n == chars@.len(),
            i <= n,
            symbols@.len() == i,
            forall|j: int| 0 <= j < i ==> symbol_of(#[trigger] chars@[j]) == Some(symbols@[j]),
        decreases n - i,
    {
        let c = chars[i];
        let sym = if c == '.' {
            MorseSymbol::Dot
        } else if c == '-' {
            MorseSymbol::Dash
        } else if c == ' ' {
            MorseSymbol::CharGap
        } else if c == '/' {
            MorseSymbol::WordGap
        } else {
            assert(symbol_of(morse@[i as int]) is None);
            return Err(RenderError::InvalidMorseSymbol { index: i, found: c });
        };
        symbols.push(sym);
        i += 1;
    }
    assert(symbols@ =~= symbols_of(morse@));
    Ok(symbols)
}

/// Appends the first `n` samples of `tone` to `out`.
pub fn push_tone(out: &mut Vec<i16>, tone: &Vec<i16>, n: usize)
    requires
        n <= tone@.len(),
    ensures
        final(out)@ == old(out)@ + tone@.take(n as int),
{
    let mut i: usize = 0;
    while i < n
        invariant
            i <= n <= tone@.len(),
            out@ == old(out)@ + tone@.take(i as int),
        decreases n - i,
    {
        out.push(tone[i]);
        i += 1;
        assert(out@ =~= old(out)@ + tone@.take(i as int));
    }
}

/// Appends `n` samples of silence to `out`: `n` times the sample zero.
pub fn push_silence(out: &mut Vec<i16>, n: usize)
    ensures
        final(out)@ == old(out)@ + silence(n as int),
{
    let mut i: usize = 0;
    assert(out@ =~= old(out)@ + silence(0));
    while i < n
        invariant
            i <= n,
            out@ == old(out)@ + silence(i as int),
        decreases n - i,
    {
        out.push(0);
        i += 1;
        assert(out@ =~= old(out)@ + silence(i as int));
    }
}

/// Renders a run of symbols: for each symbol its tone, taken from the start of
/// `tone`, and its silence; then one unit of silence.
pub fn render_symbols(symbols: &Vec<MorseSymbol>, config: &TimingConfig, tone: &Vec<i16>) -> (r:
    Result<Vec<i16>, RenderError>)
    ensures
        match r {
            Ok(samples) => fits(symbols@, *config, tone@.len() as int) && samples@ == rendered(
                symbols@,
                *config,
                tone@,
            ) && samples@.len() == rendered_len(symbols@, *config),
            Err(e) => is_fit_error(symbols@, *config, tone@.len() as int, e),
        },
{
    let dash: u64 = config.tone_samples(MorseSymbol::Dash);
    if (tone.len() as u64) < dash {
        return Err(RenderError::ToneTooShort);
    }
    let pad: u64 = config.pad_samples();
    proof {
        lemma_body_len_grows(symbols@, *config, 0);
        lemma_rendered_len(symbols@, *config, tone@);
    }
    if pad > MAX_SAMPLES {
        return Err(RenderError::TooLong);
    }
    let mut out: Vec<i16> = Vec::new();
    let n: usize = symbols.len();
    let mut i: usize = 0;
    assert(symbols@.take(0) =~= Seq::<MorseSymbol>::empty());
    while i < n
        invariant
            n == symbols@.len(),
            i <= n,
            pad == pad_len(*config),
            pad <= MAX_SAMPLES,
            tone@.len() >= tone_len(MorseSymbol::Dash, *config),
            out@ == body_samples(symbols@.take(i as int), *config, tone@),
            out@.len() + pad <= MAX_SAMPLES,
        decreases n - i,
    {
        let sym = symbols[i];
        let loud: u64 = config.tone_samples(sym);
        let quiet: u64 = config.quiet_samples(sym);
        let room: u64 = MAX_SAMPLES - pad - (out.len() as u64);
        proof {
            lemma_counts(sym, *config);
            lemma_rendered_len(symbols@.take(i as int), *config, tone@);
            lemma_body_len_grows(symbols@, *config, i + 1);
            assert(symbols@.take(i + 1).drop_last() =~= symbols@.take(i as int));
        }
        if loud > room || quiet > room - loud {
            return Err(RenderError::TooLong);
        }
        push_tone(&mut out, tone, loud as usize);
        push_silence(&mut out, quiet as usize);
        i += 1;
        proof {
            assert(out@ =~= body_samples(symbols@.take(i as int), *config, tone@));
            lemma_rendered_len(symbols@.take(i as int), *config, tone@);
        }
    }
    assert(symbols@.take(n as int) =~= symbols@);
    push_silence(&mut out, pad as usize);
    Ok(out)
}

/// Renders a Morse text. The whole text is read before any sample is made: a
/// character that is no Morse symbol fails the rendering with no sample.
pub fn render(morse: &str, config: &TimingConfig, tone: &Vec<i16>) -> (r: Result<
    Vec<i16>,
    RenderError,
>)
    ensures
        match r {
            Ok(samples) => is_morse(morse@) && fits(
                symbols_of(morse@),
                *config,
                tone@.len() as int,
            ) && samples@ == rendered(symbols_of(morse@), *config, tone@) && samples@.len()
                == rendered_len(symbols_of(morse@), *config),
            Err(e) => is_render_error(morse@, *config, tone@.len() as int, e),
        },
{
    match parse(morse) {
        Ok(symbols) => render_symbols(&symbols, config, tone),
        Err(e) => Err(e),
    }
}

/// Renders a Morse text and appends its samples to `sink`, in order. A text
/// that cannot be rendered leaves the sink as it was.
pub fn write_morse(sink: &mut Vec<i16>, morse: &str, config: &TimingConfig, tone: &Vec<i16>) -> (r:
    Result<(), RenderError>)
    ensures
        match r {
            Ok(_) => is_morse(morse@) && fits(symbols_of(morse@), *config, tone@.len() as int)
                && final(sink)@ == old(sink)@ + rendered(symbols_of(morse@), *config, tone@),
            Err(e) => is_render_error(morse@, *config, tone@.len() as int, e) && final(sink)@
                == old(sink)@,
        },
{
    match render(morse, config, tone) {
        Ok(samples) => {
            push_tone(sink, &samples, samples.len());
            assert(samples@.take(samples@.len() as int) =~= samples@);
            Ok(())
        },
        Err(e) => Err(e),
    }
}

} // verus!
