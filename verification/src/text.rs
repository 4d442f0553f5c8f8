//! Numbers in ASCII text.
use vstd::prelude::*;

verus! {

/// The bytes of a text whose characters are all ASCII.
pub open spec fn bytes_of(text: Seq<char>) -> Seq<u8> {
    Seq::new(text.len(), |i: int| text[i] as u8)
}

/// The bytes of a text, if its characters are all ASCII.
pub fn ascii_bytes(text: &str) -> (bytes: Option<Vec<u8>>)
    ensures
        bytes is Some <==> text.is_ascii(),
        bytes matches Some(b) ==> b@ == bytes_of(text@),
{
    if text.is_ascii() {
        proof {
            vstd::string::is_ascii_spec_bytes(text);
        }
        Some(text.as_bytes_vec())
    } else {
        None
    }
}

/// The value of a digit in the given base, 10 or 16; a byte that is no
/// digit has none.
pub open spec fn spec_digit(b: u8, base: u64) -> Option<u64> {
    if 48 <= b <= 57 {
        Some((b - 48) as u64)
    } else if base == 16 && 97 <= b <= 102 {
        Some((b - 87) as u64)
    } else if base == 16 && 65 <= b <= 70 {
        Some((b - 55) as u64)
    } else {
        None
    }
}

/// The value of a digit.
pub fn digit(b: u8, base: u64) -> (d: Option<u64>)
    ensures
        d == spec_digit(b, base),
        d matches Some(v) ==> v < 16 && (base == 10 ==> v < 10),
{
    if 48 <= b && b <= 57 {
        Some((b - 48) as u64)
    } else if base == 16 && 97 <= b && b <= 102 {
        Some((b - 87) as u64)
    } else if base == 16 && 65 <= b && b <= 70 {
        Some((b - 55) as u64)
    } else {
        None
    }
}

/// The number that the first `k` bytes spell in the given base, if they are
/// all digits.
pub open spec fn number_upto(s: Seq<u8>, base: u64, k: int) -> Option<nat>
    decreases k,
{
    if k <= 0 {
        Some(0)
    } else {
        match (number_upto(s, base, k - 1), spec_digit(s[k - 1], base)) {
            (Some(v), Some(d)) => Some(v * (base as nat) + (d as nat)),
            _ => None,
        }
    }
}

/// The number that the bytes spell in the given base: they must be digits,
/// and at least one.
pub open spec fn spec_number(s: Seq<u8>, base: u64) -> Option<nat> {
    if s.len() == 0 {
        None
    } else {
        number_upto(s, base, s.len() as int)
    }
}

/// A byte that is no digit spoils the number.
proof fn lemma_number_spoiled(s: Seq<u8>, base: u64, k: int, m: int)
    requires
        0 <= k <= m <= s.len(),
        number_upto(s, base, k) is None,
    ensures
        number_upto(s, base, m) is None,
    decreases m - k,
{
    if k < m {
        lemma_number_spoiled(s, base, k, m - 1);
    }
}

/// More digits do not make a number smaller.
proof fn lemma_number_grows(s: Seq<u8>, base: u64, k: int, m: int)
    requires
        0 <= k <= m <= s.len(),
        base >= 1,
        number_upto(s, base, m) is Some,
    ensures
        number_upto(s, base, k) is Some,
        number_upto(s, base, k)->0 <= number_upto(s, base, m)->0,
    decreases m - k,
{
    if k < m {
        lemma_number_grows(s, base, k, m - 1);
        let v = number_upto(s, base, m - 1)->0;
        assert(v * (base as nat) >= v) by (nonlinear_arith)
            requires
                base >= 1,
        ;
    }
}

/// Reads the number that `s` spells in base 10 or 16, if it spells one and
/// the number is at most `limit`.
pub fn parse_number(s: &[u8], base: u64, limit: u64) -> (res: Option<u64>)
    requires
        base == 10 || base == 16,
    ensures
        res is Some <==> spec_number(s@, base) is Some && spec_number(s@, base)->0 <= limit,
        res matches Some(v) ==> v == spec_number(s@, base)->0,
{
    if s.len() == 0 {
        return None;
    }
    let mut v: u64 = 0;
    let mut k: usize = 0;
    while k < s.len()
        invariant
            k <= s@.len(),
            base == 10 || base == 16,
            number_upto(s@, base, k as int) == Some(v as nat),
            v <= limit,
        decreases s@.len() - k,
    {
        match digit(s[k], base) {
            None => {
                proof {
                    lemma_number_spoiled(s@, base, k as int + 1, s@.len() as int);
                }
                return None;
            },
            Some(d) => {
                if d > limit || v > (limit - d) / base {
                    proof {
                        let next = number_upto(s@, base, k as int + 1)->0;
                        assert(next == v * base + d);
                        assert(v * base + d > limit) by (nonlinear_arith)
                            requires
                                d > limit || v > (limit - d) / (base as int),
                                base >= 1,
                                d >= 0,
                                v >= 0,
                        ;
                        if number_upto(s@, base, s@.len() as int) is Some {
                            lemma_number_grows(s@, base, k as int + 1, s@.len() as int);
                        }
                    }
                    return None;
                }
                assert(v * base + d <= limit) by (nonlinear_arith)
                    requires
                        v <= (limit - d) / (base as int),
                        d <= limit,
                        base >= 1,
                ;
                v = v * base + d;
            },
        }
        k = k + 1;
    }
    Some(v)
}

/// The number that the text spells as a signed decimal: an optional sign
/// and digits, with a value that a signed 64-bit word holds.
pub open spec fn spec_signed(s: Seq<u8>) -> Option<i64> {
    if s.len() > 0 && s[0] == 45 {
        match spec_number(s.subrange(1, s.len() as int), 10) {
            Some(v) => if v <= 0x8000_0000_0000_0000 {
                Some((-(v as int)) as i64)
            } else {
                None
            },
            None => None,
        }
    } else if s.len() > 0 && s[0] == 43 {
        match spec_number(s.subrange(1, s.len() as int), 10) {
            Some(v) => if v <= 0x7fff_ffff_ffff_ffff {
                Some(v as i64)
            } else {
                None
            },
            None => None,
        }
    } else {
        match spec_number(s, 10) {
            Some(v) => if v <= 0x7fff_ffff_ffff_ffff {
                Some(v as i64)
            } else {
                None
            },
            None => None,
        }
    }
}

/// Reads a signed decimal number.
pub fn parse_signed(s: &[u8]) -> (res: Option<i64>)
    ensures
        res == spec_signed(s@),
{
    if s.len() > 0 && s[0] == 45 {
        let rest = vstd::slice::slice_subrange(s, 1, s.len());
        match parse_number(rest, 10, 0x8000_0000_0000_0000) {
            Some(v) => {
                if v == 0x8000_0000_0000_0000 {
                    Some(i64::MIN)
                } else {
                    Some(-(v as i64))
                }
            },
            None => None,
        }
    } else if s.len() > 0 && s[0] == 43 {
        let rest = vstd::slice::slice_subrange(s, 1, s.len());
        match parse_number(rest, 10, 0x7fff_ffff_ffff_ffff) {
            Some(v) => Some(v as i64),
            None => None,
        }
    } else {
        match parse_number(s, 10, 0x7fff_ffff_ffff_ffff) {
            Some(v) => Some(v as i64),
            None => None,
        }
    }
}

/// The number that the text spells in hexadecimal after the prefix `0x`,
/// if it is at most `limit`.
pub open spec fn spec_hex(s: Seq<u8>, limit: u64) -> Option<u64> {
    if s.len() >= 2 && s[0] == 48 && s[1] == 120 {
        match spec_number(s.subrange(2, s.len() as int), 16) {
            Some(v) => if v <= limit {
                Some(v as u64)
            } else {
                None
            },
            None => None,
        }
    } else {
        None
    }
}

/// Reads a hexadecimal number with the prefix `0x`.
pub fn parse_hex(s: &[u8], limit: u64) -> (res: Option<u64>)
    ensures
        res == spec_hex(s@, limit),
{
    if s.len() >= 2 && s[0] == 48 && s[1] == 120 {
        let rest = vstd::slice::slice_subrange(s, 2, s.len());
        parse_number(rest, 16, limit)
    } else {
        None
    }
}

/// Bytes that spell a decimal number do not spell a hexadecimal number
/// with prefix: their second byte would have to be an `x`.
pub proof fn lemma_decimal_is_no_hex(s: Seq<u8>)
    requires
        spec_number(s, 10) is Some,
    ensures
        forall|limit: u64| spec_hex(s, limit) is None,
{
    if s.len() >= 2 && s[1] == 120 {
        assert(number_upto(s, 10, 2) is None) by {
            reveal_with_fuel(number_upto, 3);
        }
        lemma_number_spoiled(s, 10, 2, s.len() as int);
    }
}

} // verus!
