//! The stream-level encodings a conversion can read or write.

use vstd::prelude::*;

use crate::strings::str_eq;

verus! {

/// A stream encoding: newline-delimited decimal text, or back-to-back
/// lowercase hexadecimal digit pairs with no delimiter.
#[derive(Debug, Clone, Copy, PartialEq, Eq, Structural)]
pub enum Format {
    Text,
    Hex,
}

/// The error for a format name that is neither `"txt"` nor `"hex"`.
#[derive(Debug, Clone, Copy, PartialEq, Eq, Structural)]
pub struct ParseFormatError;

/// What parsing a format name returns: only the exact spellings `"txt"` and
/// `"hex"` are accepted.
pub open spec fn spec_parse_format(s: Seq<char>) -> Result<Format, ParseFormatError> {
    if s == "txt"@ {
        Ok(Format::Text)
    } else if s == "hex"@ {
        Ok(Format::Hex)
    } else {
        Err(ParseFormatError)
    }
}

impl Format {
    /// Parses a format name.
    pub fn parse(s: &str) -> (r: Result<Format, ParseFormatError>)
        ensures
            r == spec_parse_format(s@),
    {
        if str_eq(s, "txt") {
            Ok(Format::Text)
        } else if str_eq(s, "hex") {
            Ok(Format::Hex)
        } else {
            Err(ParseFormatError)
        }
    }
}

impl core::str::FromStr for Format {
    type Err = ParseFormatError;

    fn from_str(s: &str) -> Result<Format, ParseFormatError> {
        Format::parse(s)
    }
}

} // verus!
