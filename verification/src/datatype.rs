//! The descriptor of a numeric binary encoding and its textual grammar.

use vstd::prelude::*;

use crate::strings::all_digits;
use crate::strings::dec_str;
use crate::strings::digits_val;
use crate::strings::find_char;
use crate::strings::is_digit;
use crate::strings::lemma_digits_val_take_le;
use crate::strings::lemma_find_char_at;
use crate::strings::push_char;
use crate::strings::push_dec;
use crate::strings::str_eq;

verus! {

/// A numeric binary encoding: IEEE-754 binary floating point of 4 or 8
/// bytes, or a fixed-point layout with a sign flag, integer bits and
/// fractional bits. The fixed-point codec is an extension point and is not
/// implemented; the conversion engine rejects it wherever bytes are needed.
#[derive(Debug, Clone, Copy, PartialEq, Eq, Structural)]
pub enum DataType {
    Float32,
    Float64,
    Fixed(bool, usize, usize),
}

/// The error for a data-type name outside the grammar, including malformed
/// or oversized precision fields.
#[derive(Debug, Clone, Copy, PartialEq, Eq, Structural)]
pub struct ParseTypeError;

/// A digit string that denotes a value representable as `usize`.
pub open spec fn valid_usize_str(s: Seq<char>) -> bool {
    s.len() > 0 && all_digits(s) && digits_val(s) <= usize::MAX
}

/// What parsing a precision specification returns: `"I.F"` gives the pair
/// `(I, F)`, and plain `"I"` is shorthand for `(I, 0)`; `I` and `F` must be
/// non-empty digit strings whose values fit in `usize`.
pub open spec fn spec_parse_precision(s: Seq<char>) -> Result<(usize, usize), ParseTypeError> {
    let k = find_char(s, '.');
    if k == s.len() {
        if valid_usize_str(s) {
            Ok((digits_val(s) as usize, 0))
        } else {
            Err(ParseTypeError)
        }
    } else {
        let ip = s.take(k);
        let fp = s.skip(k + 1);
        if valid_usize_str(ip) && valid_usize_str(fp) {
            Ok((digits_val(ip) as usize, digits_val(fp) as usize))
        } else {
            Err(ParseTypeError)
        }
    }
}

/// What parsing a data-type name returns: `"f32"` and `"f64"` name the two
/// floating-point encodings; `"s"` or `"u"` followed by a precision
/// specification names a signed or unsigned fixed-point encoding; anything
/// else is rejected.
pub open spec fn spec_parse_datatype(s: Seq<char>) -> Result<DataType, ParseTypeError> {
    if s == "f32"@ {
        Ok(DataType::Float32)
    } else if s == "f64"@ {
        Ok(DataType::Float64)
    } else if s.len() > 0 && s[0] == 's' {
        match spec_parse_precision(s.skip(1)) {
            Ok((i, f)) => Ok(DataType::Fixed(true, i, f)),
            Err(e) => Err(e),
        }
    } else if s.len() > 0 && s[0] == 'u' {
        match spec_parse_precision(s.skip(1)) {
            Ok((i, f)) => Ok(DataType::Fixed(false, i, f)),
            Err(e) => Err(e),
        }
    } else {
        Err(ParseTypeError)
    }
}

/// The canonical rendering of a data type. A fixed-point type always
/// carries its `.F` suffix, even when `F` is zero.
pub open spec fn spec_datatype_str(t: DataType) -> Seq<char> {
    match t {
        DataType::Float32 => "f32"@,
        DataType::Float64 => "f64"@,
        DataType::Fixed(sg, i, f) => seq![if sg { 's' } else { 'u' }] + dec_str(i as nat) + seq!['.']
            + dec_str(f as nat),
    }
}

/// Parses a non-empty string of decimal digits into a `usize`, rejecting
/// any other character and any value above `usize::MAX`.
fn parse_usize(s: &str) -> (r: Result<usize, ParseTypeError>)
    ensures
        r is Ok <==> valid_usize_str(s@),
        r matches Ok(v) ==> v == digits_val(s@),
{
    let n = s.unicode_len();
    if n == 0 {
        return Err(ParseTypeError);
    }
    let mut v: usize = 0;
    let mut i: usize = 0;
    while i < n
        invariant
            i <= n,
            n == s@.len(),
            all_digits(s@.take(i as int)),
            v == digits_val(s@.take(i as int)),
        decreases n - i,
    {
        let c = s.get_char(i);
        let u = c as u32;
        if u < 48 || u > 57 {
            proof {
                assert(!is_digit(s@[i as int]));
            }
            return Err(ParseTypeError);
        }
        let d: usize = (u - 48) as usize;
        let next = match v.checked_mul(10) {
            Some(m) => m.checked_add(d),
            None => None,
        };
        match next {
            Some(m) => {
                v = m;
            },
            None => {
                proof {
                    crate::strings::lemma_digits_val_step(s@, i as int);
                    if all_digits(s@) {
                        lemma_digits_val_take_le(s@, i as int + 1, s@.len() as int);
                        assert(s@.take(s@.len() as int) =~= s@);
                        assert(digits_val(s@) > usize::MAX);
                    }
                }
                return Err(ParseTypeError);
            },
        }
        proof {
            crate::strings::lemma_digits_val_step(s@, i as int);
        }
        i = i + 1;
    }
    proof {
        assert(s@.take(n as int) =~= s@);
    }
    Ok(v)
}

/// Parses precision specifications that look like `"I.F"`, where `I` and
/// `F` are the integer and fractional bit counts, or just `"I"`, which is
/// shorthand for `"I.0"`.
pub fn parse_precision(s: &str) -> (r: Result<(usize, usize), ParseTypeError>)
    ensures
        r == spec_parse_precision(s@),
{
    let n = s.unicode_len();
    let mut k: usize = 0;
    while k < n && s.get_char(k) != '.'
        invariant
            k <= n,
            n == s@.len(),
            forall|j: int| 0 <= j < k ==> s@[j] != '.',
        decreases n - k,
    {
        k = k + 1;
    }
    proof {
        lemma_find_char_at(s@, '.', k as int);
    }
    let left = s.substring_char(0, k);
    proof {
        assert(left@ =~= s@.take(k as int));
    }
    if k == n {
        proof {
            assert(left@ =~= s@);
        }
        match parse_usize(left) {
            Ok(i) => Ok((i, 0)),
            Err(e) => Err(e),
        }
    } else {
        let right = s.substring_char(k + 1, n);
        proof {
            assert(right@ =~= s@.skip(k as int + 1));
        }
        match parse_usize(left) {
            Ok(i) => match parse_usize(right) {
                Ok(f) => Ok((i, f)),
                Err(e) => Err(e),
            },
            Err(e) => Err(e),
        }
    }
}

impl DataType {
    /// Parses a data-type name.
    pub fn parse(s: &str) -> (r: Result<DataType, ParseTypeError>)
        ensures
            r == spec_parse_datatype(s@),
    {
        if str_eq(s, "f32") {
            Ok(DataType::Float32)
        } else if str_eq(s, "f64") {
            Ok(DataType::Float64)
        } else {
            let n = s.unicode_len();
            if n == 0 {
                return Err(ParseTypeError);
            }
            let c0 = s.get_char(0);
            if c0 == 's' || c0 == 'u' {
                let rest = s.substring_char(1, n);
                proof {
                    assert(rest@ =~= s@.skip(1));
                }
                match parse_precision(rest) {
                    Ok((i, f)) => Ok(DataType::Fixed(c0 == 's', i, f)),
                    Err(e) => Err(e),
                }
            } else {
                Err(ParseTypeError)
            }
        }
    }

    /// Renders the canonical name of the data type.
    pub fn to_string(&self) -> (r: String)
        ensures
            r@ == spec_datatype_str(*self),
    {
        match self {
            DataType::Float32 => String::from_str("f32"),
            DataType::Float64 => String::from_str("f64"),
            DataType::Fixed(sg, i, f) => {
                let mut out = String::new();
                push_char(&mut out, if *sg { 's' } else { 'u' });
                push_dec(&mut out, *i);
                push_char(&mut out, '.');
                push_dec(&mut out, *f);
                out
            },
        }
    }
}

impl core::str::FromStr for DataType {
    type Err = ParseTypeError;

    fn from_str(s: &str) -> Result<DataType, ParseTypeError> {
        DataType::parse(s)
    }
}

} // verus!
