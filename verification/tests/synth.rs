use morse_audio::synth::{parse, push_silence, push_tone, render_symbols, MAX_SAMPLES};
use morse_audio::timing::sample_count;
use morse_audio::wav::{can_write, samples_to_wav};
use morse_audio::{render, write_morse, write_morse_in_memory};
use morse_audio::{MorseSymbol, RenderError, TimingConfig};

fn sine_wave(frequency_hz: u32, sample_rate: u32, n: usize) -> Vec<i16> {
    let mut wave = Vec::new();
    for i in 0..n {
        let angle =
            2.0 * std::f64::consts::PI * (frequency_hz as f64) * (i as f64) / (sample_rate as f64);
        wave.push((angle.sin() * (i16::MAX as f64)).round() as i16);
    }
    wave
}

fn ramp(n: usize) -> Vec<i16> {
    let mut wave = Vec::new();
    for i in 0..n {
        wave.push((i % 1000) as i16 + 1);
    }
    wave
}

fn small_config() -> TimingConfig {
    TimingConfig {
        unit_ms: 2,
        frequency_hz: 600,
        sample_rate: 1000,
        bits_per_sample: 16,
        char_gap_ms: 3,
        word_gap_ms: 4,
    }
}

#[test]
fn the_usual_config() {
    let config = TimingConfig::new(150, 175);
    assert_eq!(config.unit_ms, 100);
    assert_eq!(config.frequency_hz, 600);
    assert_eq!(config.sample_rate, 44100);
    assert_eq!(config.bits_per_sample, 16);
    assert_eq!(config.char_gap_ms, 150);
    assert_eq!(config.word_gap_ms, 175);
}

#[test]
fn counts_round_up() {
    assert_eq!(sample_count(200, 44100), 4410);
    assert_eq!(sample_count(100, 44100), 2205);
    assert_eq!(sample_count(2, 44100), 45);
    assert_eq!(sample_count(1, 44100), 23);
    assert_eq!(sample_count(0, 44100), 0);
    assert_eq!(sample_count(200, 0), 0);
    assert_eq!(sample_count(1, 1), 1);
    assert_eq!(sample_count(6 * 0xffff_ffff, 0xffff_ffff), 55340232195358852);
}

#[test]
fn counts_of_each_symbol() {
    let config = TimingConfig::new(150, 175);
    assert_eq!(config.tone_samples(MorseSymbol::Dot), 4410);
    assert_eq!(config.tone_samples(MorseSymbol::Dash), 13230);
    assert_eq!(config.tone_samples(MorseSymbol::CharGap), 0);
    assert_eq!(config.tone_samples(MorseSymbol::WordGap), 0);
    assert_eq!(config.quiet_samples(MorseSymbol::Dot), 2205);
    assert_eq!(config.quiet_samples(MorseSymbol::Dash), 2205);
    assert_eq!(config.quiet_samples(MorseSymbol::CharGap), 6615);
    assert_eq!(config.quiet_samples(MorseSymbol::WordGap), 15435);
    assert_eq!(config.pad_samples(), 4410);
}

#[test]
fn parses_each_symbol() {
    assert_eq!(
        parse(".- /"),
        Ok(vec![MorseSymbol::Dot, MorseSymbol::Dash, MorseSymbol::CharGap, MorseSymbol::WordGap])
    );
    assert_eq!(parse(""), Ok(vec![]));
    assert_eq!(parse(".-x-y"), Err(RenderError::InvalidMorseSymbol { index: 2, found: 'x' }));
}

#[test]
fn sample_count_is_the_sum_over_the_symbols() {
    let config = TimingConfig::new(150, 175);
    let tone = sine_wave(600, 44100, 13230);
    let samples = render(".- /", &config, &tone).unwrap();
    assert_eq!(samples.len(), 4410 + 2205 + 13230 + 2205 + 6615 + 15435 + 4410);
    let only_pad = render("", &config, &tone).unwrap();
    assert_eq!(only_pad.len(), 4410);
}

#[test]
fn each_segment_is_rounded_up_by_itself() {
    let config = TimingConfig {
        unit_ms: 1,
        frequency_hz: 600,
        sample_rate: 44100,
        bits_per_sample: 16,
        char_gap_ms: 1,
        word_gap_ms: 1,
    };
    let tone = ramp(133);
    assert_eq!(render(".", &config, &tone).unwrap().len(), 45 + 23 + 45);
    assert_eq!(render("-", &config, &tone).unwrap().len(), 133 + 23 + 45);
    assert_eq!(render(" ", &config, &tone).unwrap().len(), 45 + 45);
    assert_eq!(render("/", &config, &tone).unwrap().len(), 89 + 45);
}

#[test]
fn samples_are_tone_then_silence() {
    let config = small_config();
    let tone = ramp(6);
    assert_eq!(render(".", &config, &tone).unwrap(), vec![1, 2, 0, 0, 0]);
    assert_eq!(render("-", &config, &tone).unwrap(), vec![1, 2, 3, 4, 5, 6, 0, 0, 0]);
    assert_eq!(render(" ", &config, &tone).unwrap(), vec![0, 0, 0, 0, 0]);
    assert_eq!(render("/", &config, &tone).unwrap(), vec![0, 0, 0, 0, 0, 0, 0, 0, 0, 0]);
    assert_eq!(
        render(".- .", &config, &tone).unwrap(),
        vec![1, 2, 0, 1, 2, 3, 4, 5, 6, 0, 0, 0, 0, 1, 2, 0, 0, 0]
    );
}

#[test]
fn rendering_symbols_is_rendering_the_text() {
    let config = small_config();
    let tone = ramp(10);
    let symbols = parse("-. / .").unwrap();
    assert_eq!(render_symbols(&symbols, &config, &tone), render("-. / .", &config, &tone));
}

#[test]
fn rendering_twice_gives_the_same() {
    let config = TimingConfig::new(150, 175);
    let tone = sine_wave(600, 44100, 13230);
    assert_eq!(render("... --- ...", &config, &tone), render("... --- ...", &config, &tone));
}

#[test]
fn invalid_text_is_refused_with_no_sample() {
    let config = TimingConfig::new(150, 175);
    let tone = sine_wave(600, 44100, 13230);
    assert_eq!(
        render("xyz", &config, &tone),
        Err(RenderError::InvalidMorseSymbol { index: 0, found: 'x' })
    );
    assert_eq!(
        render("... x", &config, &tone),
        Err(RenderError::InvalidMorseSymbol { index: 4, found: 'x' })
    );
    assert_eq!(
        write_morse_in_memory("xyz", &config, &tone),
        Err(RenderError::InvalidMorseSymbol { index: 0, found: 'x' })
    );
    assert_eq!(
        render("x", &config, &vec![]),
        Err(RenderError::InvalidMorseSymbol { index: 0, found: 'x' })
    );
}

#[test]
fn a_wave_shorter_than_a_dash_is_refused() {
    let config = small_config();
    assert_eq!(render(".", &config, &ramp(5)), Err(RenderError::ToneTooShort));
    assert_eq!(render("", &config, &ramp(5)), Err(RenderError::ToneTooShort));
    assert!(render(".", &config, &ramp(6)).is_ok());
}

#[test]
fn a_rendering_that_is_too_long_is_refused() {
    let config = TimingConfig {
        unit_ms: 1,
        frequency_hz: 600,
        sample_rate: 1000,
        bits_per_sample: 16,
        char_gap_ms: 4_000_000_000,
        word_gap_ms: 0,
    };
    let tone = ramp(3);
    assert_eq!(render(" ", &config, &tone), Err(RenderError::TooLong));
    assert_eq!(render(". ", &config, &tone), Err(RenderError::TooLong));
    assert!(render(".", &config, &tone).is_ok());
    assert_eq!(MAX_SAMPLES, 1073741808);
}

#[test]
fn silence_is_zero() {
    let config = TimingConfig::new(150, 175);
    let tone = sine_wave(600, 44100, 13230);
    let gaps = render(" / ", &config, &tone).unwrap();
    assert_eq!(gaps.len(), 6615 + 15435 + 6615 + 4410);
    assert!(gaps.iter().all(|s| *s == 0));
    let dot = render(".", &config, &tone).unwrap();
    assert_eq!(&dot[..4410], &tone[..4410]);
    assert!(dot[4410..].iter().all(|s| *s == 0));
    let silent = render(".-", &config, &sine_wave(0, 44100, 13230)).unwrap();
    assert!(silent.iter().all(|s| *s == 0));
}

#[test]
fn tone_peaks_at_the_full_amplitude() {
    let config = TimingConfig {
        unit_ms: 100,
        frequency_hz: 11025,
        sample_rate: 44100,
        bits_per_sample: 16,
        char_gap_ms: 150,
        word_gap_ms: 175,
    };
    let tone = sine_wave(11025, 44100, 13230);
    let dot = render(".", &config, &tone).unwrap();
    let peak = dot[..4410].iter().map(|s| (*s as i32).abs()).max().unwrap();
    assert!((peak - 32767).abs() <= 1);
    let usual = sine_wave(600, 44100, 13230);
    let peak = usual.iter().map(|s| (*s as i32).abs()).max().unwrap();
    assert!(peak <= 32767 && peak >= 32760);
}

#[test]
fn the_stream_holds_the_samples() {
    let config = small_config();
    let tone = ramp(6);
    let bytes = write_morse_in_memory(".", &config, &tone).unwrap();
    assert_eq!(bytes.len(), 44 + 2 * 5);
    assert_eq!(&bytes[0..4], b"RIFF");
    assert_eq!(&bytes[8..12], b"WAVE");
    assert_eq!(&bytes[44..], &[1, 0, 2, 0, 0, 0, 0, 0, 0, 0]);
    let mut reader = hound::WavReader::new(std::io::Cursor::new(bytes)).unwrap();
    assert_eq!(reader.spec().channels, 1);
    assert_eq!(reader.spec().sample_rate, 1000);
    assert_eq!(reader.spec().bits_per_sample, 16);
    let read: Vec<i16> = reader.samples::<i16>().map(|s| s.unwrap()).collect();
    assert_eq!(read, vec![1, 2, 0, 0, 0]);
}

#[test]
fn samples_written_as_they_are() {
    let config = TimingConfig::new(150, 175);
    let samples: Vec<i16> = vec![0, 1, -1, 32767, -32768, 258];
    let bytes = samples_to_wav(&samples, &config).unwrap();
    assert_eq!(bytes.len(), 44 + 12);
    assert_eq!(&bytes[44..], &[0, 0, 1, 0, 255, 255, 255, 127, 0, 128, 2, 1]);
    assert_eq!(&bytes[24..28], &[0x44, 0xac, 0, 0]);
}

#[test]
fn a_format_that_cannot_be_written_is_refused() {
    let tone = ramp(6);
    let mut config = small_config();
    config.bits_per_sample = 33;
    assert_eq!(write_morse_in_memory(".", &config, &tone), Err(RenderError::UnsupportedFormat));
    let mut config = small_config();
    config.sample_rate = 0;
    assert_eq!(render(".", &config, &tone), Ok(vec![]));
    assert_eq!(write_morse_in_memory(".", &config, &tone), Err(RenderError::UnsupportedFormat));
    let mut config = small_config();
    config.sample_rate = 0x4000_0000;
    assert_eq!(samples_to_wav(&vec![], &config), Err(RenderError::UnsupportedFormat));
}

#[test]
fn a_failure_of_the_writer_is_a_sink_error() {
    let mut config = small_config();
    config.bits_per_sample = 8;
    assert_eq!(samples_to_wav(&vec![1000], &config), Err(RenderError::SinkIOError));
    assert_eq!(samples_to_wav(&vec![0, 128], &config), Err(RenderError::SinkIOError));
    assert_eq!(samples_to_wav(&vec![0, -129], &config), Err(RenderError::SinkIOError));
    assert_eq!(
        write_morse_in_memory(".", &config, &vec![1, 2, 3, 4, 5, 300]),
        Ok(samples_to_wav(&vec![1, 2, 0, 0, 0], &config).unwrap())
    );
    assert_eq!(
        write_morse_in_memory("-", &config, &vec![1, 2, 3, 4, 5, 300]),
        Err(RenderError::SinkIOError)
    );
}

#[test]
fn each_depth_the_writer_knows_is_written() {
    let mut config = small_config();
    let samples: Vec<i16> = vec![-128, 127, 0];
    for (bits, bytes_each, header) in [(8u16, 1usize, 44usize), (16, 2, 44), (24, 3, 68), (32, 4, 68)] {
        config.bits_per_sample = bits;
        assert!(can_write(&config));
        let bytes = samples_to_wav(&samples, &config).unwrap();
        assert_eq!(bytes.len(), header + bytes_each * 3);
    }
    for bits in [0u16, 1, 7, 9, 12, 15, 17, 31, 33, 64] {
        config.bits_per_sample = bits;
        assert!(!can_write(&config));
        assert_eq!(samples_to_wav(&samples, &config), Err(RenderError::UnsupportedFormat));
    }
    config.bits_per_sample = 16;
    config.sample_rate = 0;
    assert!(!can_write(&config));
    config.sample_rate = 0x3fff_ffff;
    assert!(can_write(&config));
    config.sample_rate = 0x4000_0000;
    assert!(!can_write(&config));
}

#[test]
fn the_empty_text_is_one_unit_of_silence_in_a_stream() {
    let config = TimingConfig::new(0, 0);
    let tone = sine_wave(600, 44100, 13230);
    let bytes = write_morse_in_memory("", &config, &tone).unwrap();
    assert_eq!(bytes.len(), 44 + 8820);
    assert!(bytes[44..].iter().all(|b| *b == 0));
    let reader = hound::WavReader::new(std::io::Cursor::new(bytes)).unwrap();
    assert_eq!(reader.spec().channels, 1);
    assert_eq!(reader.spec().sample_rate, 44100);
    assert_eq!(reader.spec().bits_per_sample, 16);
    assert_eq!(reader.len(), 4410);
}

#[test]
fn samples_are_appended_to_the_sink() {
    let config = small_config();
    let tone = ramp(6);
    let mut sink: Vec<i16> = vec![7, 8];
    assert_eq!(write_morse(&mut sink, ".", &config, &tone), Ok(()));
    assert_eq!(sink, vec![7, 8, 1, 2, 0, 0, 0]);
    assert_eq!(write_morse(&mut sink, " ", &config, &tone), Ok(()));
    assert_eq!(sink, vec![7, 8, 1, 2, 0, 0, 0, 0, 0, 0, 0, 0]);
}

#[test]
fn a_refused_text_leaves_the_sink_as_it_was() {
    let config = small_config();
    let tone = ramp(6);
    let mut sink: Vec<i16> = Vec::new();
    assert_eq!(
        write_morse(&mut sink, "xyz", &config, &tone),
        Err(RenderError::InvalidMorseSymbol { index: 0, found: 'x' })
    );
    assert!(sink.is_empty());
    let mut sink: Vec<i16> = vec![5];
    assert_eq!(
        write_morse(&mut sink, "..-?", &config, &tone),
        Err(RenderError::InvalidMorseSymbol { index: 3, found: '?' })
    );
    assert_eq!(sink, vec![5]);
    assert_eq!(write_morse(&mut sink, ".", &config, &ramp(2)), Err(RenderError::ToneTooShort));
    assert_eq!(sink, vec![5]);
}

#[test]
fn silence_of_any_length_is_zero() {
    let mut sink: Vec<i16> = vec![3];
    push_silence(&mut sink, 0);
    assert_eq!(sink, vec![3]);
    push_silence(&mut sink, 4);
    assert_eq!(sink, vec![3, 0, 0, 0, 0]);
    push_tone(&mut sink, &vec![9, 8, 7], 2);
    assert_eq!(sink, vec![3, 0, 0, 0, 0, 9, 8]);
    push_tone(&mut sink, &vec![9, 8, 7], 0);
    assert_eq!(sink.len(), 7);
}

#[test]
fn sample_count_goes_by_the_count_of_each_symbol() {
    let config = TimingConfig::new(120, 300);
    let tone = sine_wave(600, 44100, 13230);
    let morse = "... --- ... / .- -...";
    let dots = morse.matches('.').count();
    let dashes = morse.matches('-').count();
    let spaces = morse.matches(' ').count();
    let slashes = morse.matches('/').count();
    let expected = dots * (4410 + 2205)
        + dashes * (13230 + 2205)
        + spaces * 5292
        + slashes * 26460
        + 4410;
    assert_eq!(render(morse, &config, &tone).unwrap().len(), expected);
    assert_eq!((dots, dashes, spaces, slashes), (10, 5, 5, 1));
    let sorted = "/".repeat(slashes) + &" ".repeat(spaces) + &"-".repeat(dashes) + &".".repeat(dots);
    assert_eq!(render(&sorted, &config, &tone).unwrap().len(), expected);
}
