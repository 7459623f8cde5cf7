//! Decoders for two rhythm-game file formats: the binary replay format and
//! the text beatmap format.
//!
//! - [`replay`] decodes a replay from bytes: a header, a stream of input
//!   frames compressed with LZMA, and a trailer. [`bytes`] holds its
//!   primitive readers, [`lzma`] the decompressor, and [`truncation`] what
//!   it does with a buffer that was cut short.
//! - [`map`] decodes a beatmap from text, section by section.
//! - [`matching`] finds the beatmap that a replay was played on.
//! - [`text`] and [`number`] hold what the text decoders share, [`osu_data`]
//!   the enumerations of both formats, and [`error`] their one error type.
//!
//! Real numbers are kept as the literals that were read: see
//! [`number::RealLiteral`].

pub mod bytes;
pub mod error;
pub mod lzma;
pub mod map;
pub mod matching;
pub mod number;
pub mod osu_data;
pub mod replay;
pub mod text;
pub mod truncation;
