//! Hexadecimal decoding, upper or lower case, two digits per byte.

use vstd::prelude::*;

verus! {

/// The value of a hexadecimal digit, or -1 for any other character.
pub open spec fn hex_value(c: char) -> int {
    let n = c as u32;
    if 0x30 <= n && n <= 0x39 {
        n - 0x30
    } else if 0x61 <= n && n <= 0x66 {
        n - 0x61 + 10
    } else if 0x41 <= n && n <= 0x46 {
        n - 0x41 + 10
    } else {
        -1
    }
}

/// The bytes that a text of hexadecimal digit pairs spells; `None` for a
/// text of odd length or with a character that is not a hexadecimal digit.
pub open spec fn hex_decoded(s: Seq<char>) -> Option<Seq<u8>> {
    if s.len() % 2 == 0 && forall|i: int| 0 <= i < s.len() ==> hex_value(#[trigger] s[i]) >= 0 {
        Some(Seq::new((s.len() / 2) as nat, |i: int| (hex_value(s[2 * i]) * 16 + hex_value(s[2 * i + 1])) as u8))
    } else {
        None
    }
}

fn hex_digit_value(c: char) -> (r: Option<u8>)
    ensures
        r matches Some(v) ==> v == hex_value(c) && 0 <= hex_value(c) < 16,
        r is None <==> hex_value(c) < 0,
{
    let n: u32 = c as u32;
    if 0x30 <= n && n <= 0x39 {
        Some((n - 0x30) as u8)
    } else if 0x61 <= n && n <= 0x66 {
        Some((n - 0x61 + 10) as u8)
    } else if 0x41 <= n && n <= 0x46 {
        Some((n - 0x41 + 10) as u8)
    } else {
        None
    }
}

pub fn decode_hex(s: &str) -> (r: Option<Vec<u8>>)
    ensures
        (match r {
            Some(v) => Some(v@),
            None => None,
        }) == hex_decoded(s@),
{
    let n: usize = s.unicode_len();
    if n % 2 != 0 {
        return None;
    }
    let half: usize = n / 2;
    let mut out: Vec<u8> = Vec::new();
    let mut k: usize = 0;
    while k < half
        invariant
            n == s@.len(),
            n % 2 == 0,
            half == n / 2,
            k <= half,
            out@.len() == k,
            forall|i: int| 0 <= i < 2 * k ==> hex_value(#[trigger] s@[i]) >= 0,
            forall|j: int| 0 <= j < k ==> out@[j] == (hex_value(s@[2 * j]) * 16 + hex_value(s@[2 * j + 1])) as u8,
        decreases half - k,
    {
        let hi = hex_digit_value(s.get_char(2 * k));
        let lo = hex_digit_value(s.get_char(2 * k + 1));
        match (hi, lo) {
            (Some(h), Some(l)) => {
                out.push(h * 16 + l);
            },
            _ => {
                proof {
                    if hi is None {
                        assert(hex_value(s@[2 * k as int]) < 0);
                    } else {
                        assert(hex_value(s@[2 * k + 1]) < 0);
                    }
                }
                return None;
            },
        }
        k += 1;
    }
    assert(hex_decoded(s@) matches Some(b) && b =~= out@);
    Some(out)
}

} // verus!
