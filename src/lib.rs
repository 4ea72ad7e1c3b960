//! Decoding of an untyped TOML value tree into typed values, with the dotted
//! field path of each failure kept for error messages.
//!
//! Text is not parsed here: decoding starts from a `Value` tree that a TOML
//! parser has built.

pub mod decoder;
pub mod error;
pub mod value;

pub use decoder::{decode, Decodable, Decoder};
pub use error::{DecodeError, DecodeErrorKind};
pub use value::{Table, Value};
