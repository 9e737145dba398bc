//! Morse code: text to Morse and back, and Morse rendered as 16-bit PCM audio.

pub mod codec;
pub mod synth;
pub mod table;
pub mod text;
pub mod timing;
pub mod wav;

pub use codec::{from_morse, to_morse};
pub use synth::{render, write_morse, RenderError};
pub use timing::{MorseSymbol, TimingConfig};
pub use wav::write_morse_in_memory;
