//! Conversion of numeric values between newline-delimited decimal text and a
//! fixed-width binary representation written as hexadecimal digit pairs.
//!
//! The crate is organised around three descriptors and an engine:
//! [`datatype::DataType`] names the binary encoding of one value,
//! [`format::Format`] names the stream encoding, [`decimal::Decimal`] holds a
//! parsed decimal string losslessly, and [`engine::convert_string`] drives the
//! unit-by-unit conversion loop between the two stream encodings.

pub mod codec;
pub mod datatype;
pub mod decimal;
pub mod engine;
pub mod format;
pub mod hexcode;
pub mod strings;

pub use engine::convert_string;
pub use engine::ConvertError;
