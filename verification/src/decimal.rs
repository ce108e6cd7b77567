//! The arbitrary-precision decimal value and its parser.
//!
//! A parsed decimal string is kept losslessly as its sign and its two digit
//! strings; the exact rational value it denotes is a specification-level
//! function of those parts, so no precision is lost before the codec
//! boundary.

use vstd::prelude::*;

use crate::strings::all_digits;
use crate::strings::digits_val;
use crate::strings::find_char;
use crate::strings::is_digit;
use crate::strings::lemma_find_char_at;

verus! {

/// Whether `c` is one of the ASCII whitespace characters stripped from a
/// line before parsing.
pub open spec fn is_space(c: char) -> bool {
    c == ' ' || c == '\t' || c == '\n' || c == '\r' || c == '\u{b}' || c == '\u{c}'
}

/// `s` without its leading whitespace.
pub open spec fn trim_front(s: Seq<char>) -> Seq<char>
    decreases s.len(),
{
    if s.len() > 0 && is_space(s[0]) {
        trim_front(s.skip(1))
    } else {
        s
    }
}

/// `s` without its trailing whitespace.
pub open spec fn trim_back(s: Seq<char>) -> Seq<char>
    decreases s.len(),
{
    if s.len() > 0 && is_space(s.last()) {
        trim_back(s.take(s.len() - 1))
    } else {
        s
    }
}

/// `s` without leading and trailing whitespace.
pub open spec fn trim(s: Seq<char>) -> Seq<char> {
    trim_back(trim_front(s))
}

/// If everything before `lo` is whitespace and `lo` is not (or is the end),
/// dropping leading whitespace is dropping `lo` characters.
pub proof fn lemma_trim_front_at(s: Seq<char>, lo: int)
    requires
        0 <= lo <= s.len(),
        forall|j: int| 0 <= j < lo ==> is_space(s[j]),
        lo < s.len() ==> !is_space(s[lo]),
    ensures
        trim_front(s) == s.skip(lo),
    decreases lo,
{
    if lo == 0 {
        assert(s.skip(0) =~= s);
    } else {
        assert(forall|j: int| 0 <= j < lo - 1 ==> s.skip(1)[j] == s[j + 1]);
        lemma_trim_front_at(s.skip(1), lo - 1);
        assert(s.skip(1).skip(lo - 1) =~= s.skip(lo));
    }
}

/// If everything from `hi` on is whitespace and `hi - 1` is not (or `hi` is
/// zero), dropping trailing whitespace is keeping `hi` characters.
pub proof fn lemma_trim_back_at(s: Seq<char>, hi: int)
    requires
        0 <= hi <= s.len(),
        forall|j: int| hi <= j < s.len() ==> is_space(s[j]),
        hi > 0 ==> !is_space(s[hi - 1]),
    ensures
        trim_back(s) == s.take(hi),
    decreases s.len() - hi,
{
    if hi == s.len() {
        assert(s.take(hi) =~= s);
    } else {
        assert(is_space(s.last()));
        lemma_trim_back_at(s.take(s.len() - 1), hi);
        assert(s.take(s.len() - 1).take(hi) =~= s.take(hi));
    }
}

/// Ten to the power `n`.
pub open spec fn pow10(n: nat) -> int
    decreases n,
{
    if n == 0 {
        1
    } else {
        10 * pow10((n - 1) as nat)
    }
}

/// Whether the sign and the two digit strings form a well-formed decimal
/// value: the integer part is a non-empty digit string and the fractional
/// part (possibly empty) is a digit string.
pub open spec fn dec_parts_wf(ip: Seq<char>, fp: Seq<char>) -> bool {
    ip.len() > 0 && all_digits(ip) && all_digits(fp)
}

/// The numerator of the rational value `(-)I + F / 10^len(F)`: the signed
/// integer part scaled by the fractional denominator, plus the fractional
/// digits. The fractional contribution is always added, never subtracted.
pub open spec fn spec_dec_num(neg: bool, ip: Seq<char>, fp: Seq<char>) -> int {
    (if neg {
        -digits_val(ip)
    } else {
        digits_val(ip)
    }) * pow10(fp.len()) + digits_val(fp)
}

/// The denominator of the rational value: ten to the number of fractional
/// digits.
pub open spec fn spec_dec_den(fp: Seq<char>) -> int {
    pow10(fp.len())
}

/// How a trimmed line is split into sign, integer digits and fractional
/// digits. Exactly the strings matching `-?[0-9]+(\.[0-9]+)?` are accepted.
pub open spec fn spec_parse_decimal(u: Seq<char>) -> Option<(bool, Seq<char>, Seq<char>)> {
    let neg = u.len() > 0 && u[0] == '-';
    let body = if neg {
        u.skip(1)
    } else {
        u
    };
    let k = find_char(body, '.');
    let ip = body.take(k);
    if !(ip.len() > 0 && all_digits(ip)) {
        None
    } else if k == body.len() {
        Some((neg, ip, Seq::empty()))
    } else {
        let fp = body.skip(k + 1);
        if fp.len() > 0 && all_digits(fp) {
            Some((neg, ip, fp))
        } else {
            None
        }
    }
}

/// An arbitrary-precision decimal value: a sign, the digits of the integer
/// part, and the digits of the fractional part. The parts are kept exactly
/// as parsed, so the rational value `num() / den()` is exact.
pub struct Decimal {
    /// Whether the value was written with a leading minus sign.
    pub neg: bool,
    /// The digits of the integer part, non-empty.
    pub int_part: String,
    /// The digits of the fractional part; empty when none was written.
    pub frac_part: String,
}

impl Decimal {
    /// The structural invariant of a parsed decimal value.
    pub open spec fn wf(&self) -> bool {
        dec_parts_wf(self.int_part@, self.frac_part@)
    }

    /// The numerator of the exact rational value.
    pub open spec fn num(&self) -> int {
        spec_dec_num(self.neg, self.int_part@, self.frac_part@)
    }

    /// The denominator of the exact rational value.
    pub open spec fn den(&self) -> int {
        spec_dec_den(self.frac_part@)
    }
}

/// Checks whether the character of `s` at `i` is whitespace.
fn space_at(s: &str, i: usize) -> (r: bool)
    requires
        i < s@.len(),
    ensures
        r == is_space(s@[i as int]),
{
    let u = s.get_char(i) as u32;
    u == 32 || u == 9 || u == 10 || u == 13 || u == 11 || u == 12
}

/// Checks that the characters of `s` between `from` and `to` are all
/// decimal digits.
fn check_digits(s: &str, from: usize, to: usize) -> (r: bool)
    requires
        from <= to <= s@.len(),
    ensures
        r == all_digits(s@.subrange(from as int, to as int)),
{
    let mut i: usize = from;
    while i < to
        invariant
            from <= i <= to <= s@.len(),
            forall|j: int| from <= j < i ==> is_digit(s@[j]),
        decreases to - i,
    {
        let u = s.get_char(i) as u32;
        if u < 48 || u > 57 {
            proof {
                assert(!is_digit(s@.subrange(from as int, to as int)[i - from]));
            }
            return false;
        }
        i = i + 1;
    }
    proof {
        assert(forall|j: int| 0 <= j < to - from ==> is_digit(
            #[trigger] s@.subrange(from as int, to as int)[j],
        ));
    }
    true
}

/// Parses one line of decimal text into a [`Decimal`], after stripping
/// leading and trailing whitespace. Exactly the trimmed strings matching
/// `-?[0-9]+(\.[0-9]+)?` are accepted; anything else yields `None`.
pub fn parse_decimal(s: &str) -> (r: Option<Decimal>)
    ensures
        r is Some <==> spec_parse_decimal(trim(s@)) is Some,
        r matches Some(d) ==> {
            &&& d.wf()
            &&& spec_parse_decimal(trim(s@)) == Some((d.neg, d.int_part@, d.frac_part@))
        },
{
    let n = s.unicode_len();
    let mut lo: usize = 0;
    while lo < n && space_at(s, lo)
        invariant
            lo <= n,
            n == s@.len(),
            forall|j: int| 0 <= j < lo ==> is_space(s@[j]),
        decreases n - lo,
    {
        lo = lo + 1;
    }
    let mut hi: usize = n;
    while hi > lo && space_at(s, hi - 1)
        invariant
            lo <= hi <= n,
            n == s@.len(),
            forall|j: int| 0 <= j < lo ==> is_space(s@[j]),
            forall|j: int| hi <= j < n ==> is_space(s@[j]),
        decreases hi,
    {
        hi = hi - 1;
    }
    let ghost u: Seq<char> = s@.subrange(lo as int, hi as int);
    proof {
        lemma_trim_front_at(s@, lo as int);
        assert(forall|j: int| hi - lo <= j < s@.skip(lo as int).len() ==> is_space(
            #[trigger] s@.skip(lo as int)[j],
        ));
        lemma_trim_back_at(s@.skip(lo as int), hi - lo);
        assert(s@.skip(lo as int).take(hi - lo) =~= u);
    }
    // From here on, work on the trimmed range `lo..hi`, whose view is `u`.
    let mut p: usize = lo;
    let neg = p < hi && s.get_char(p) == '-';
    if neg {
        p = p + 1;
    }
    let ghost body: Seq<char> = if neg {
        u.skip(1)
    } else {
        u
    };
    proof {
        assert(body =~= s@.subrange(p as int, hi as int));
    }
    // Find the dot inside the body.
    let mut k: usize = p;
    while k < hi && s.get_char(k) != '.'
        invariant
            p <= k <= hi <= n,
            n == s@.len(),
            forall|j: int| p <= j < k ==> s@[j] != '.',
        decreases hi - k,
    {
        k = k + 1;
    }
    proof {
        assert(forall|j: int| 0 <= j < k - p ==> body[j] == s@[j + p]);
        lemma_find_char_at(body, '.', k - p);
    }
    let ghost ip: Seq<char> = body.take(k - p);
    if !(p < k && check_digits(s, p, k)) {
        proof {
            assert(ip =~= s@.subrange(p as int, k as int));
        }
        return None;
    }
    proof {
        assert(ip =~= s@.subrange(p as int, k as int));
    }
    let int_part = String::from_str(s.substring_char(p, k));
    if k == hi {
        proof {
            assert(spec_parse_decimal(trim(s@)) == Some((neg, ip, Seq::<char>::empty())));
        }
        Some(Decimal { neg, int_part, frac_part: String::new() })
    } else {
        let ghost fp: Seq<char> = body.skip(k - p + 1);
        proof {
            assert(fp =~= s@.subrange(k as int + 1, hi as int));
        }
        if !(k + 1 < hi && check_digits(s, k + 1, hi)) {
            return None;
        }
        let frac_part = String::from_str(s.substring_char(k + 1, hi));
        proof {
            assert(spec_parse_decimal(trim(s@)) == Some((neg, ip, fp)));
        }
        Some(Decimal { neg, int_part, frac_part })
    }
}

} // verus!
