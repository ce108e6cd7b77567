//! The hexadecimal stream encoding: lowercase digit pairs, two characters
//! per byte, no delimiter.

use vstd::prelude::*;

use crate::strings::push_char;

verus! {

/// The lowercase hexadecimal digit character for a value below sixteen.
pub open spec fn hex_char(d: int) -> char {
    if d < 10 {
        ((d + 48) as u8) as char
    } else {
        ((d + 87) as u8) as char
    }
}

/// Whether `c` is a hexadecimal digit, in either case.
pub open spec fn is_hex_digit(c: char) -> bool {
    48 <= c as u32 <= 57 || 97 <= c as u32 <= 102 || 65 <= c as u32 <= 70
}

/// The value of a hexadecimal digit character of either case.
pub open spec fn hex_digit_val(c: char) -> int {
    if 48 <= c as u32 <= 57 {
        c as u32 - 48
    } else if 97 <= c as u32 <= 102 {
        c as u32 - 87
    } else {
        c as u32 - 55
    }
}

/// Whether every character of `s` is a hexadecimal digit.
pub open spec fn all_hex(s: Seq<char>) -> bool {
    forall|i: int| 0 <= i < s.len() ==> is_hex_digit(s[i])
}

/// The lowercase hexadecimal rendering of a byte string: two digits per
/// byte, high digit first.
pub open spec fn hex_of_bytes(b: Seq<u8>) -> Seq<char>
    decreases b.len(),
{
    if b.len() == 0 {
        Seq::empty()
    } else {
        hex_of_bytes(b.take(b.len() - 1)) + seq![
            hex_char(b.last() as int / 16),
            hex_char(b.last() as int % 16),
        ]
    }
}

/// The byte string a sequence of hexadecimal digit pairs denotes.
pub open spec fn bytes_of_hex(s: Seq<char>) -> Seq<u8>
    decreases s.len(),
{
    if s.len() < 2 {
        Seq::empty()
    } else {
        bytes_of_hex(s.take(s.len() - 2)) + seq![
            (16 * hex_digit_val(s[s.len() - 2]) + hex_digit_val(s.last())) as u8,
        ]
    }
}

/// Encoding a byte string as hexadecimal and decoding it again is the
/// identity, and the encoding is made of hexadecimal digits, two per byte.
pub proof fn lemma_hex_roundtrip(b: Seq<u8>)
    ensures
        hex_of_bytes(b).len() == 2 * b.len(),
        all_hex(hex_of_bytes(b)),
        bytes_of_hex(hex_of_bytes(b)) == b,
    decreases b.len(),
{
    if b.len() == 0 {
        assert(bytes_of_hex(hex_of_bytes(b)) =~= b);
    } else {
        let pre = b.take(b.len() - 1);
        lemma_hex_roundtrip(pre);
        let h = hex_of_bytes(b);
        assert(h.take(h.len() - 2) =~= hex_of_bytes(pre));
        assert(16 * (b.last() / 16) + b.last() % 16 == b.last());
        assert(bytes_of_hex(h) =~= b);
    }
}

/// The lowercase hexadecimal digit character for a value below sixteen.
fn hex_digit_char(d: u8) -> (c: char)
    requires
        d < 16,
    ensures
        c == hex_char(d as int),
{
    if d < 10 {
        (d + 48) as char
    } else {
        (d + 87) as char
    }
}

/// Appends the lowercase hexadecimal rendering of `b` to `out`.
pub fn push_hex(out: &mut String, b: &Vec<u8>)
    ensures
        final(out)@ == old(out)@ + hex_of_bytes(b@),
{
    let mut i: usize = 0;
    while i < b.len()
        invariant
            i <= b@.len(),
            out@ == old(out)@ + hex_of_bytes(b@.take(i as int)),
        decreases b@.len() - i,
    {
        let x = b[i];
        push_char(out, hex_digit_char(x / 16));
        push_char(out, hex_digit_char(x % 16));
        proof {
            assert(b@.take(i + 1).take(i as int) =~= b@.take(i as int));
            assert(b@.take(i + 1).last() == b@[i as int]);
        }
        i = i + 1;
    }
    proof {
        assert(b@.take(b@.len() as int) =~= b@);
    }
}

/// The value of a hexadecimal digit character, or `None` for any other
/// character.
fn hex_val(c: char) -> (r: Option<u8>)
    ensures
        r is Some <==> is_hex_digit(c),
        r matches Some(v) ==> v == hex_digit_val(c) && v < 16,
{
    let u = c as u32;
    if 48 <= u && u <= 57 {
        Some((u - 48) as u8)
    } else if 97 <= u && u <= 102 {
        Some((u - 87) as u8)
    } else if 65 <= u && u <= 70 {
        Some((u - 55) as u8)
    } else {
        None
    }
}

/// Decodes the `2 * w` hexadecimal characters of `s` starting at `pos`
/// into `w` bytes, or reports the presence of a non-hexadecimal character.
pub fn decode_hex_unit(s: &str, pos: usize, w: usize) -> (r: Option<Vec<u8>>)
    requires
        pos + 2 * w <= s@.len(),
        pos + 2 * w <= usize::MAX,
    ensures
        r is Some <==> all_hex(s@.subrange(pos as int, pos + 2 * w)),
        r matches Some(v) ==> v@ == bytes_of_hex(s@.subrange(pos as int, pos + 2 * w))
            && v@.len() == w,
{
    let ghost u: Seq<char> = s@.subrange(pos as int, pos + 2 * w);
    let mut v: Vec<u8> = Vec::new();
    let mut j: usize = 0;
    while j < w
        invariant
            j <= w,
            pos + 2 * w <= s@.len(),
            pos + 2 * w <= usize::MAX,
            u == s@.subrange(pos as int, pos + 2 * w),
            all_hex(u.take(2 * j)),
            v@ == bytes_of_hex(u.take(2 * j)),
            v@.len() == j,
        decreases w - j,
    {
        let c1 = s.get_char(pos + 2 * j);
        let c2 = s.get_char(pos + 2 * j + 1);
        proof {
            assert(u[2 * j] == c1);
            assert(u[2 * j + 1] == c2);
        }
        let v1 = match hex_val(c1) {
            Some(x) => x,
            None => {
                return None;
            },
        };
        let v2 = match hex_val(c2) {
            Some(x) => x,
            None => {
                return None;
            },
        };
        let byte: u8 = 16 * v1 + v2;
        v.push(byte);
        proof {
            let t = u.take(2 * j + 2);
            assert(t.take(t.len() - 2) =~= u.take(2 * j));
            assert(t[t.len() - 2] == c1 && t.last() == c2);
            assert(byte == (16 * hex_digit_val(c1) + hex_digit_val(c2)) as u8);
            assert(forall|q: int| 0 <= q < 2 * j + 2 ==> is_hex_digit(#[trigger] t[q]));
        }
        j = j + 1;
    }
    proof {
        assert(u.take(2 * w as int) =~= u);
    }
    Some(v)
}

} // verus!
