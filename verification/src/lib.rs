//! A byte-count value type with human-readable formatting and parsing.
//!
//! The crate revolves around [`ByteScale`], a thin wrapper around a `u64`
//! count of bytes.  It offers unit constructors (`kb`, `kib`, ...),
//! saturating arithmetic, rendering as a unit-scaled decimal string in
//! either the IEC (base 1024) or SI (base 1000) convention, and parsing of
//! such strings back into counts.
#![allow(unused_imports)]

pub mod decimal;
pub mod laws;
pub mod parse;
pub mod range;
pub mod render;
pub mod scale;
pub mod scan;
pub mod text;
pub mod units;

pub use parse::ParseError;
pub use range::HumanByteRange;
pub use scale::ByteScale;
pub use render::pad_str;
pub use scan::skip_while;
pub use scan::take_while;
pub use render::Alignment;
pub use render::to_string;
pub use units::Format;
pub use units::Unit;
pub use units::B;
pub use units::GB;
pub use units::GIB;
pub use units::KB;
pub use units::KIB;
pub use units::MB;
pub use units::MIB;
pub use units::PB;
pub use units::PIB;
pub use units::TB;
pub use units::TIB;
