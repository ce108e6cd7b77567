//! The conversion engine: a single-pass loop that reads one unit per
//! iteration from the input according to the source format, converts it
//! through the codec, and appends one unit to the output according to the
//! target format, until the input is exhausted.

use vstd::prelude::*;

use vstd::pervasive::unreached;

use crate::codec::f32_le_bytes;
use crate::codec::f32_le_of;
use crate::codec::f32_recode;
use crate::codec::f32_recode_of;
use crate::codec::f32_text;
use crate::codec::f32_text_of;
use crate::codec::f64_le_bytes;
use crate::codec::f64_le_of;
use crate::codec::f64_recode;
use crate::codec::f64_recode_of;
use crate::codec::f64_text;
use crate::codec::f64_text_of;
use crate::codec::fmt_decimal;
use crate::codec::rat_text;
use crate::datatype::DataType;
use crate::decimal::parse_decimal;
use crate::decimal::spec_dec_den;
use crate::decimal::spec_dec_num;
use crate::decimal::spec_parse_decimal;
use crate::decimal::trim;
use crate::format::Format;
use crate::hexcode::all_hex;
use crate::hexcode::bytes_of_hex;
use crate::hexcode::decode_hex_unit;
use crate::hexcode::hex_of_bytes;
use crate::hexcode::push_hex;
use crate::strings::find_char;
use crate::strings::lemma_find_char_at;
use crate::strings::push_char;

verus! {

/// Why a conversion failed.
///
/// `MalformedNumber` and `MalformedHex` are input-validation errors: a text
/// unit outside the decimal grammar, or a non-hexadecimal character inside
/// a hex unit. `PartialUnit` reports a hex stream that ends in the middle
/// of a unit, which is never a clean end of stream. `Unsupported` reports a
/// fixed-point data type wherever bytes would be needed: that codec is an
/// extension point, and the configuration is rejected before any input is
/// consumed.
#[derive(Debug, Clone, Copy, PartialEq, Eq, Structural)]
pub enum ConvertError {
    MalformedNumber,
    MalformedHex,
    PartialUnit,
    Unsupported,
}

/// The width in bytes of one encoded value of the data type; fixed-point
/// types have no implemented byte encoding.
pub open spec fn unit_width(t: DataType) -> nat {
    match t {
        DataType::Float32 => 4,
        DataType::Float64 => 8,
        DataType::Fixed(_, _, _) => 0,
    }
}

/// The number of characters before the first newline of `s`, or all of
/// `s` when it has none.
pub open spec fn line_len(s: Seq<char>) -> int {
    let k = find_char(s, '\n');
    if 0 <= k <= s.len() {
        k
    } else {
        s.len() as int
    }
}

/// The output unit for a decimal value read from text: its decimal
/// rendering and a newline, or the hexadecimal rendering of its encoded
/// bytes.
pub open spec fn spec_value_out(num: int, den: int, t: DataType, to: Format) -> Seq<char> {
    match to {
        Format::Text => rat_text(num, den) + seq!['\n'],
        Format::Hex => match t {
            DataType::Float32 => hex_of_bytes(f32_le_of(num, den)),
            DataType::Float64 => hex_of_bytes(f64_le_of(num, den)),
            DataType::Fixed(_, _, _) => Seq::empty(),
        },
    }
}

/// The output unit for the bytes of one hex unit, or `None` when the bytes
/// hold a value the codec cannot read back (a NaN or an infinity), which
/// ends the stream.
pub open spec fn spec_bytes_out(b: Seq<u8>, t: DataType, to: Format) -> Option<Seq<char>> {
    match to {
        Format::Text => match (match t {
            DataType::Float32 => f32_text_of(b),
            DataType::Float64 => f64_text_of(b),
            DataType::Fixed(_, _, _) => None,
        }) {
            Some(s) => Some(s + seq!['\n']),
            None => None,
        },
        Format::Hex => match (match t {
            DataType::Float32 => f32_recode_of(b),
            DataType::Float64 => f64_recode_of(b),
            DataType::Fixed(_, _, _) => None,
        }) {
            Some(v) => Some(hex_of_bytes(v)),
            None => None,
        },
    }
}

/// The unit-by-unit conversion of a stream: each step reads one unit
/// according to `from` (one newline-terminated line for text, exactly
/// `2 * unit_width(t)` hexadecimal characters for hex), writes one unit
/// according to `to`, and recurses on the rest; an empty stream is done.
pub open spec fn spec_convert_units(s: Seq<char>, t: DataType, from: Format, to: Format) -> Result<
    Seq<char>,
    ConvertError,
>
    decreases s.len(),
{
    if s.len() == 0 {
        Ok(Seq::empty())
    } else {
        match from {
            Format::Text => {
                let k = line_len(s);
                let consumed = if k < s.len() {
                    k + 1
                } else {
                    k
                };
                match spec_parse_decimal(trim(s.take(k))) {
                    None => Err(ConvertError::MalformedNumber),
                    Some((neg, ip, fp)) => {
                        let out = spec_value_out(spec_dec_num(neg, ip, fp), spec_dec_den(fp), t, to);
                        match spec_convert_units(s.skip(consumed), t, from, to) {
                            Ok(rest) => Ok(out + rest),
                            Err(e) => Err(e),
                        }
                    },
                }
            },
            Format::Hex => {
                let w2 = 2 * unit_width(t) as int;
                if s.len() < w2 {
                    Err(ConvertError::PartialUnit)
                } else if !all_hex(s.take(w2)) {
                    Err(ConvertError::MalformedHex)
                } else {
                    match spec_bytes_out(bytes_of_hex(s.take(w2)), t, to) {
                        None => Ok(Seq::empty()),
                        Some(out) => match spec_convert_units(s.skip(w2), t, from, to) {
                            Ok(rest) => Ok(out + rest),
                            Err(e) => Err(e),
                        },
                    }
                }
            },
        }
    }
}

/// What converting a whole input stream returns: an empty input yields an
/// empty output and success whatever the configuration; a fixed-point data
/// type is rejected before any unit is consumed whenever bytes would be
/// needed (either format is hex); otherwise the units are converted one by
/// one.
pub open spec fn spec_convert(s: Seq<char>, t: DataType, from: Format, to: Format) -> Result<
    Seq<char>,
    ConvertError,
> {
    if s.len() == 0 {
        Ok(Seq::empty())
    } else if t is Fixed && (from is Hex || to is Hex) {
        Err(ConvertError::Unsupported)
    } else {
        spec_convert_units(s, t, from, to)
    }
}

/// An empty input stream yields zero output units and success, for every
/// data type and every pair of formats.
pub proof fn lemma_empty_input(t: DataType, from: Format, to: Format)
    ensures
        spec_convert(Seq::empty(), t, from, to) == Ok::<Seq<char>, ConvertError>(
            Seq::<char>::empty(),
        ),
{
}

/// A hex input stream for `Float32` that holds a fraction of one unit --
/// more than zero but fewer than eight hexadecimal characters -- fails as a
/// partial unit, for every target format; it is never treated as a clean
/// end of stream.
pub proof fn lemma_partial_hex_unit(s: Seq<char>, to: Format)
    requires
        0 < s.len() < 8,
    ensures
        spec_convert(s, DataType::Float32, Format::Hex, to) == Err::<Seq<char>, ConvertError>(
            ConvertError::PartialUnit,
        ),
{
}

/// Converts a whole input stream held in memory from one format to the
/// other, unit by unit.
#[verifier::rlimit(100)]
pub fn convert_string(input: &str, datatype: DataType, from_format: Format, to_format: Format) -> (r:
    Result<String, ConvertError>)
    ensures
        r matches Ok(out) ==> spec_convert(input@, datatype, from_format, to_format) == Ok::<
            Seq<char>,
            ConvertError,
        >(out@),
        r matches Err(e) ==> spec_convert(input@, datatype, from_format, to_format) == Err::<
            Seq<char>,
            ConvertError,
        >(e),
{
    let n = input.unicode_len();
    if n == 0 {
        let out = String::new();
        proof {
            assert(spec_convert(input@, datatype, from_format, to_format) == Ok::<
                Seq<char>,
                ConvertError,
            >(out@));
        }
        return Ok(out);
    }
    let fixed = match datatype {
        DataType::Fixed(_, _, _) => true,
        _ => false,
    };
    if fixed && (from_format == Format::Hex || to_format == Format::Hex) {
        return Err(ConvertError::Unsupported);
    }
    let mut out = String::new();
    let mut pos: usize = 0;
    proof {
        assert(input@.skip(0) =~= input@);
        match spec_convert_units(input@, datatype, from_format, to_format) {
            Ok(rest) => {
                assert(out@ + rest =~= rest);
            },
            Err(_) => {},
        }
    }
    while pos < n
        invariant
            n == input@.len(),
            pos <= n,
            n > 0,
            datatype is Float32 || datatype is Float64 || (from_format is Text
                && to_format is Text),
            spec_convert(input@, datatype, from_format, to_format) == spec_convert_units(
                input@,
                datatype,
                from_format,
                to_format,
            ),
            (match spec_convert_units(input@.skip(pos as int), datatype, from_format, to_format) {
                Ok(rest) => spec_convert_units(input@, datatype, from_format, to_format) == Ok::<
                    Seq<char>,
                    ConvertError,
                >(out@ + rest),
                Err(e) => spec_convert_units(input@, datatype, from_format, to_format) == Err::<
                    Seq<char>,
                    ConvertError,
                >(e),
            }),
        decreases n - pos,
    {
        let ghost s: Seq<char> = input@.skip(pos as int);
        match from_format {
            Format::Text => {
                let mut i: usize = pos;
                while i < n && input.get_char(i) != '\n'
                    invariant
                        pos <= i <= n,
                        n == input@.len(),
                        forall|j: int| pos <= j < i ==> input@[j] != '\n',
                    decreases n - i,
                {
                    i = i + 1;
                }
                proof {
                    assert(forall|j: int| 0 <= j < i - pos ==> s[j] == input@[j + pos]);
                    lemma_find_char_at(s, '\n', i - pos);
                    assert(line_len(s) == i - pos);
                }
                let line = input.substring_char(pos, i);
                proof {
                    assert(line@ =~= s.take(i - pos));
                }
                let d = match parse_decimal(line) {
                    Some(d) => d,
                    None => {
                        return Err(ConvertError::MalformedNumber);
                    },
                };
                let ghost unit: Seq<char> = spec_value_out(d.num(), d.den(), datatype, to_format);
                let ghost out0: Seq<char> = out@;
                match to_format {
                    Format::Text => {
                        let txt = fmt_decimal(d.neg, d.int_part.as_str(), d.frac_part.as_str());
                        out.append(txt.as_str());
                        push_char(&mut out, '\n');
                        proof {
                            assert(out@ =~= out0 + unit);
                        }
                    },
                    Format::Hex => {
                        let bytes = match datatype {
                            DataType::Float32 => f32_le_bytes(
                                d.neg,
                                d.int_part.as_str(),
                                d.frac_part.as_str(),
                            ),
                            DataType::Float64 => f64_le_bytes(
                                d.neg,
                                d.int_part.as_str(),
                                d.frac_part.as_str(),
                            ),
                            DataType::Fixed(_, _, _) => unreached(),
                        };
                        push_hex(&mut out, &bytes);
                        proof {
                            assert(out@ =~= out0 + unit);
                        }
                    },
                }
                let newpos = if i < n {
                    i + 1
                } else {
                    i
                };
                proof {
                    assert(input@.skip(newpos as int) =~= s.skip(newpos - pos));
                    assert(newpos - pos == if line_len(s) < s.len() {
                        line_len(s) + 1
                    } else {
                        line_len(s)
                    });
                    let rest_r = spec_convert_units(
                        input@.skip(newpos as int),
                        datatype,
                        from_format,
                        to_format,
                    );
                    match rest_r {
                        Ok(rest) => {
                            assert(out0 + (unit + rest) =~= (out0 + unit) + rest);
                        },
                        Err(_) => {},
                    }
                }
                pos = newpos;
            },
            Format::Hex => {
                let w: usize = match datatype {
                    DataType::Float32 => 4,
                    DataType::Float64 => 8,
                    DataType::Fixed(_, _, _) => unreached(),
                };
                if n - pos < 2 * w {
                    return Err(ConvertError::PartialUnit);
                }
                let ghost u: Seq<char> = input@.subrange(pos as int, pos + 2 * w);
                proof {
                    assert(u =~= s.take(2 * unit_width(datatype) as int));
                }
                let bytes = match decode_hex_unit(input, pos, w) {
                    Some(v) => v,
                    None => {
                        return Err(ConvertError::MalformedHex);
                    },
                };
                let ghost out0: Seq<char> = out@;
                let mut stop = false;
                match to_format {
                    Format::Text => {
                        let txt = match datatype {
                            DataType::Float32 => f32_text(&bytes),
                            DataType::Float64 => f64_text(&bytes),
                            DataType::Fixed(_, _, _) => unreached(),
                        };
                        match txt {
                            Some(t) => {
                                out.append(t.as_str());
                                push_char(&mut out, '\n');
                            },
                            None => {
                                stop = true;
                            },
                        }
                    },
                    Format::Hex => {
                        let rec = match datatype {
                            DataType::Float32 => f32_recode(&bytes),
                            DataType::Float64 => f64_recode(&bytes),
                            DataType::Fixed(_, _, _) => unreached(),
                        };
                        match rec {
                            Some(v) => {
                                push_hex(&mut out, &v);
                            },
                            None => {
                                stop = true;
                            },
                        }
                    },
                }
                if stop {
                    proof {
                        assert(spec_bytes_out(bytes_of_hex(u), datatype, to_format) is None);
                        assert(spec_convert_units(s, datatype, from_format, to_format) == Ok::<
                            Seq<char>,
                            ConvertError,
                        >(Seq::<char>::empty()));
                        assert(out0 + Seq::<char>::empty() =~= out0);
                    }
                    return Ok(out);
                }
                proof {
                    let unit = spec_bytes_out(bytes_of_hex(u), datatype, to_format)->0;
                    assert(out@ =~= out0 + unit);
                    assert(input@.skip(pos + 2 * w) =~= s.skip(2 * unit_width(datatype) as int));
                    let rest_r = spec_convert_units(
                        input@.skip(pos + 2 * w),
                        datatype,
                        from_format,
                        to_format,
                    );
                    match rest_r {
                        Ok(rest) => {
                            assert(out0 + (unit + rest) =~= (out0 + unit) + rest);
                        },
                        Err(_) => {},
                    }
                }
                pos = pos + 2 * w;
            },
        }
    }
    proof {
        assert(input@.skip(n as int) =~= Seq::<char>::empty());
        assert(spec_convert_units(input@.skip(n as int), datatype, from_format, to_format) == Ok::<
            Seq<char>,
            ConvertError,
        >(Seq::<char>::empty()));
        assert(out@ + Seq::<char>::empty() =~= out@);
    }
    Ok(out)
}

} // verus!
