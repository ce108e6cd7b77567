//! The codec boundary: the only place where the crate leans on the `num`
//! crate to round an exact decimal value to an IEEE-754 float and back.
//!
//! What a float rounding returns takes pages to state, so each outside call
//! gets a name (an uninterpreted specification function of the call's
//! arguments alone); the engine's contracts are exact over those names.
//! Every function here rebuilds the same rational `(-)I + F / 10^len(F)`
//! from the digit strings of a [`crate::decimal::Decimal`] the way the
//! parser defined it, so each name is a function of the numerator and
//! denominator it is applied to.

use vstd::prelude::*;

use core::str::FromStr;
use num::bigint::BigInt;
use num::rational::BigRational;
use num::traits::FromBytes;
use num::traits::FromPrimitive;
use num::traits::ToPrimitive;

use crate::decimal::dec_parts_wf;
use crate::decimal::spec_dec_den;
use crate::decimal::spec_dec_num;

verus! {

/// The decimal text `Display` gives for the double-precision rounding of
/// the rational `num / den` (`den > 0`), as rendered by `Ratio::to_f64`.
pub uninterp spec fn rat_text(num: int, den: int) -> Seq<char>;

/// The four little-endian bytes of the rational `num / den` (`den > 0`)
/// rounded to single precision by `Ratio::to_f64` and a float-to-float cast.
pub uninterp spec fn f32_le_of(num: int, den: int) -> Seq<u8>;

/// The eight little-endian bytes of the rational `num / den` (`den > 0`)
/// rounded to double precision by `Ratio::to_f64`.
pub uninterp spec fn f64_le_of(num: int, den: int) -> Seq<u8>;

/// The decimal text for the single-precision float read from four
/// little-endian bytes, or `None` when those bytes hold a NaN or an
/// infinity.
pub uninterp spec fn f32_text_of(b: Seq<u8>) -> Option<Seq<char>>;

/// The decimal text for the double-precision float read from eight
/// little-endian bytes, or `None` when those bytes hold a NaN or an
/// infinity.
pub uninterp spec fn f64_text_of(b: Seq<u8>) -> Option<Seq<char>>;

/// The four little-endian bytes that re-encoding the single-precision float
/// read from four little-endian bytes gives, or `None` when those bytes
/// hold a NaN or an infinity.
pub uninterp spec fn f32_recode_of(b: Seq<u8>) -> Option<Seq<u8>>;

/// The eight little-endian bytes that re-encoding the double-precision
/// float read from eight little-endian bytes gives, or `None` when those
/// bytes hold a NaN or an infinity.
pub uninterp spec fn f64_recode_of(b: Seq<u8>) -> Option<Seq<u8>>;

/// Relies on `num`: `BigInt::from_str`, `BigRational::from_integer`,
/// `BigRational::new` and rational addition rebuild the exact value
/// `(-)I + F / 10^len(F)`, and `Ratio::to_f64` (never `None` for a
/// denominator above zero) rounds it for `Display` rendering.
#[verifier::external_body]
pub(crate) fn fmt_decimal(neg: bool, int_part: &str, frac_part: &str) -> (r: String)
    requires
        dec_parts_wf(int_part@, frac_part@),
    ensures
        r@ == rat_text(spec_dec_num(neg, int_part@, frac_part@), spec_dec_den(frac_part@)),
{
    let mut t = String::new();
    if neg {
        t.push('-');
    }
    t.push_str(int_part);
    let mut q = BigRational::from_integer(BigInt::from_str(&t).unwrap());
    if !frac_part.is_empty() {
        let den = format!("1{}", "0".repeat(frac_part.len()));
        q = q + BigRational::new(
            BigInt::from_str(frac_part).unwrap(),
            BigInt::from_str(&den).unwrap(),
        );
    }
    format!("{}", q.to_f64().unwrap())
}

/// Relies on `num`: the exact value `(-)I + F / 10^len(F)` is rebuilt as in
/// [`fmt_decimal`], rounded by `ToPrimitive::to_f32` (never `None` for a
/// denominator above zero), and serialised with `f32::to_le_bytes`.
#[verifier::external_body]
pub(crate) fn f32_le_bytes(neg: bool, int_part: &str, frac_part: &str) -> (r: Vec<u8>)
    requires
        dec_parts_wf(int_part@, frac_part@),
    ensures
        r@ == f32_le_of(spec_dec_num(neg, int_part@, frac_part@), spec_dec_den(frac_part@)),
        r@.len() == 4,
{
    let mut t = String::new();
    if neg {
        t.push('-');
    }
    t.push_str(int_part);
    let mut q = BigRational::from_integer(BigInt::from_str(&t).unwrap());
    if !frac_part.is_empty() {
        let den = format!("1{}", "0".repeat(frac_part.len()));
        q = q + BigRational::new(
            BigInt::from_str(frac_part).unwrap(),
            BigInt::from_str(&den).unwrap(),
        );
    }
    q.to_f32().unwrap().to_le_bytes().to_vec()
}

/// Relies on `num`: the exact value `(-)I + F / 10^len(F)` is rebuilt as in
/// [`fmt_decimal`], rounded by `Ratio::to_f64` (never `None` for a
/// denominator above zero), and serialised with `f64::to_le_bytes`.
#[verifier::external_body]
pub(crate) fn f64_le_bytes(neg: bool, int_part: &str, frac_part: &str) -> (r: Vec<u8>)
    requires
        dec_parts_wf(int_part@, frac_part@),
    ensures
        r@ == f64_le_of(spec_dec_num(neg, int_part@, frac_part@), spec_dec_den(frac_part@)),
        r@.len() == 8,
{
    let mut t = String::new();
    if neg {
        t.push('-');
    }
    t.push_str(int_part);
    let mut q = BigRational::from_integer(BigInt::from_str(&t).unwrap());
    if !frac_part.is_empty() {
        let den = format!("1{}", "0".repeat(frac_part.len()));
        q = q + BigRational::new(
            BigInt::from_str(frac_part).unwrap(),
            BigInt::from_str(&den).unwrap(),
        );
    }
    q.to_f64().unwrap().to_le_bytes().to_vec()
}

/// Relies on `num`: `BigRational::from_f32` gives the exact rational of the
/// float read by `f32::from_le_bytes` (through `FromBytes`), or `None` for
/// a NaN or an infinity; the text comes from `Ratio::to_f64` and `Display`
/// as in [`fmt_decimal`].
#[verifier::external_body]
pub(crate) fn f32_text(b: &Vec<u8>) -> (r: Option<String>)
    requires
        b@.len() == 4,
    ensures
        (r is Some) == (f32_text_of(b@) is Some),
        r matches Some(s) ==> f32_text_of(b@) == Some(s@),
{
    let arr: [u8; 4] = [b[0], b[1], b[2], b[3]];
    let q = BigRational::from_f32(FromBytes::from_le_bytes(&arr))?;
    Some(format!("{}", q.to_f64().unwrap()))
}

/// Relies on `num`: as [`f32_text`], with `BigRational::from_f64` on the
/// float read by `f64::from_le_bytes`.
#[verifier::external_body]
pub(crate) fn f64_text(b: &Vec<u8>) -> (r: Option<String>)
    requires
        b@.len() == 8,
    ensures
        (r is Some) == (f64_text_of(b@) is Some),
        r matches Some(s) ==> f64_text_of(b@) == Some(s@),
{
    let mut arr = [0u8; 8];
    arr.copy_from_slice(b);
    let q = BigRational::from_f64(FromBytes::from_le_bytes(&arr))?;
    Some(format!("{}", q.to_f64().unwrap()))
}

/// Relies on `num`: `BigRational::from_f32` (exact, or `None` for a NaN or
/// an infinity) followed by `ToPrimitive::to_f32` and `f32::to_le_bytes`,
/// as in [`f32_le_bytes`].
#[verifier::external_body]
pub(crate) fn f32_recode(b: &Vec<u8>) -> (r: Option<Vec<u8>>)
    requires
        b@.len() == 4,
    ensures
        (r is Some) == (f32_recode_of(b@) is Some),
        r matches Some(v) ==> f32_recode_of(b@) == Some(v@) && v@.len() == 4,
{
    let arr: [u8; 4] = [b[0], b[1], b[2], b[3]];
    let q = BigRational::from_f32(FromBytes::from_le_bytes(&arr))?;
    Some(q.to_f32().unwrap().to_le_bytes().to_vec())
}

/// Relies on `num`: as [`f32_recode`], with `BigRational::from_f64`,
/// `Ratio::to_f64` and `f64::to_le_bytes`.
#[verifier::external_body]
pub(crate) fn f64_recode(b: &Vec<u8>) -> (r: Option<Vec<u8>>)
    requires
        b@.len() == 8,
    ensures
        (r is Some) == (f64_recode_of(b@) is Some),
        r matches Some(v) ==> f64_recode_of(b@) == Some(v@) && v@.len() == 8,
{
    let mut arr = [0u8; 8];
    arr.copy_from_slice(b);
    let q = BigRational::from_f64(FromBytes::from_le_bytes(&arr))?;
    Some(q.to_f64().unwrap().to_le_bytes().to_vec())
}

} // verus!
