//! A rotor cipher machine: a plugboard, a stack of stepping rotors and a
//! reflector, wired so that enciphering and deciphering are the same operation.
//!
//! Every component works on symbols, the numbers 0 to 25 that stand for the
//! letters `A` to `Z`. The machine turns one character at a time into another,
//! advancing its rotors before each letter.
//!
//! - [`alphabet`]: letters, symbols and wiring tables.
//! - [`reflector`], [`rotor`], [`plugboard`]: the parts.
//! - [`machine`]: the machine, its builder, and what keying in a character does.
//! - [`reciprocity`]: the proof that deciphering is enciphering.
//! - [`config`]: the configuration string.

pub mod alphabet;
pub mod config;
pub mod machine;
pub mod plugboard;
pub mod reciprocity;
pub mod reflector;
pub mod rotor;
