//! Little-endian words in byte slices, numeric literals, and the texts in
//! which the state of a processor is shown.
use vstd::prelude::*;
use crate::isa::{wrapping_difference, ConditionCode, Stat};
use crate::text::{ascii_bytes, parse_hex, parse_signed, spec_hex, spec_signed};

verus! {

/// The byte at position `i` of `bytes`, or 0 where the sequence is shorter.
pub open spec fn byte_or_zero(bytes: Seq<u8>, i: int) -> nat {
    if 0 <= i < bytes.len() {
        bytes[i] as nat
    } else {
        0
    }
}

/// The number that the first eight bytes of `bytes` spell in little-endian
/// order. Bytes that a shorter sequence lacks count as 0.
pub open spec fn le_u64(bytes: Seq<u8>) -> nat {
    byte_or_zero(bytes, 0) + byte_or_zero(bytes, 1) * 0x100 + byte_or_zero(bytes, 2) * 0x1_0000
        + byte_or_zero(bytes, 3) * 0x100_0000 + byte_or_zero(bytes, 4) * 0x1_0000_0000
        + byte_or_zero(bytes, 5) * 0x100_0000_0000 + byte_or_zero(bytes, 6) * 0x1_0000_0000_0000
        + byte_or_zero(bytes, 7) * 0x100_0000_0000_0000
}

/// Byte `i` of the little-endian spelling of `val`.
pub open spec fn le_byte(val: u64, i: int) -> u8 {
    if i == 0 {
        (val % 0x100) as u8
    } else if i == 1 {
        (val / 0x100 % 0x100) as u8
    } else if i == 2 {
        (val / 0x1_0000 % 0x100) as u8
    } else if i == 3 {
        (val / 0x100_0000 % 0x100) as u8
    } else if i == 4 {
        (val / 0x1_0000_0000 % 0x100) as u8
    } else if i == 5 {
        (val / 0x100_0000_0000 % 0x100) as u8
    } else if i == 6 {
        (val / 0x1_0000_0000_0000 % 0x100) as u8
    } else if i == 7 {
        (val / 0x100_0000_0000_0000 % 0x100) as u8
    } else {
        0
    }
}

/// The eight bytes that spell `val` in little-endian order.
pub open spec fn le_bytes(val: u64) -> Seq<u8> {
    Seq::new(8, |i: int| le_byte(val, i))
}

/// The eight bytes of a word spell that word.
pub proof fn lemma_le_round_trip(val: u64)
    ensures
        le_u64(le_bytes(val)) == val,
{
    let s = le_bytes(val);
    assert(s.len() == 8);
    assert(s[0] == le_byte(val, 0));
    assert(s[1] == le_byte(val, 1));
    assert(s[2] == le_byte(val, 2));
    assert(s[3] == le_byte(val, 3));
    assert(s[4] == le_byte(val, 4));
    assert(s[5] == le_byte(val, 5));
    assert(s[6] == le_byte(val, 6));
    assert(s[7] == le_byte(val, 7));
    assert(val % 0x100 + (val / 0x100 % 0x100) * 0x100 + (val / 0x1_0000 % 0x100) * 0x1_0000 + (val
        / 0x100_0000 % 0x100) * 0x100_0000 + (val / 0x1_0000_0000 % 0x100) * 0x1_0000_0000 + (val
        / 0x100_0000_0000 % 0x100) * 0x100_0000_0000 + (val / 0x1_0000_0000_0000 % 0x100)
        * 0x1_0000_0000_0000 + (val / 0x100_0000_0000_0000 % 0x100) * 0x100_0000_0000_0000
        == val) by (bit_vector);
}

/// A sequence of eight bytes is the spelling of the word that it spells.
pub proof fn lemma_le_bytes_of_value(bytes: Seq<u8>)
    requires
        bytes.len() == 8,
    ensures
        le_u64(bytes) <= u64::MAX,
        le_bytes(le_u64(bytes) as u64) == bytes,
{
    let b0 = bytes[0];
    let b1 = bytes[1];
    let b2 = bytes[2];
    let b3 = bytes[3];
    let b4 = bytes[4];
    let b5 = bytes[5];
    let b6 = bytes[6];
    let b7 = bytes[7];
    let v = le_u64(bytes);
    assert(v <= u64::MAX);
    let w = v as u64;
    assert(w == b0 + b1 * 0x100 + b2 * 0x1_0000 + b3 * 0x100_0000 + b4 * 0x1_0000_0000 + b5
        * 0x100_0000_0000 + b6 * 0x1_0000_0000_0000 + b7 * 0x100_0000_0000_0000);
    assert(w % 0x100 == b0 && w / 0x100 % 0x100 == b1 && w / 0x1_0000 % 0x100 == b2 && w
        / 0x100_0000 % 0x100 == b3 && w / 0x1_0000_0000 % 0x100 == b4 && w / 0x100_0000_0000
        % 0x100 == b5 && w / 0x1_0000_0000_0000 % 0x100 == b6 && w / 0x100_0000_0000_0000 % 0x100
        == b7) by (bit_vector)
        requires
            w == b0 + b1 * 0x100 + b2 * 0x1_0000 + b3 * 0x100_0000 + b4 * 0x1_0000_0000 + b5
                * 0x100_0000_0000 + b6 * 0x1_0000_0000_0000 + b7 * 0x100_0000_0000_0000,
    ;
    assert(le_bytes(w) =~= bytes);
}

/// Reads a 64-bit word in little-endian order from the first eight bytes of
/// `binary`; bytes that a shorter slice lacks count as 0.
pub fn get_u64(binary: &[u8]) -> (res: u64)
    ensures
        res == le_u64(binary@),
{
    let n: usize = binary.len();
    let b0: u64 = if n > 0 { binary[0] as u64 } else { 0 };
    let b1: u64 = if n > 1 { binary[1] as u64 } else { 0 };
    let b2: u64 = if n > 2 { binary[2] as u64 } else { 0 };
    let b3: u64 = if n > 3 { binary[3] as u64 } else { 0 };
    let b4: u64 = if n > 4 { binary[4] as u64 } else { 0 };
    let b5: u64 = if n > 5 { binary[5] as u64 } else { 0 };
    let b6: u64 = if n > 6 { binary[6] as u64 } else { 0 };
    let b7: u64 = if n > 7 { binary[7] as u64 } else { 0 };
    assert((b0 | b1 << 8 | b2 << 16 | b3 << 24 | b4 << 32 | b5 << 40 | b6 << 48 | b7 << 56) == b0
        + b1 * 0x100 + b2 * 0x1_0000 + b3 * 0x100_0000 + b4 * 0x1_0000_0000 + b5 * 0x100_0000_0000
        + b6 * 0x1_0000_0000_0000 + b7 * 0x100_0000_0000_0000) by (bit_vector)
        requires
            b0 < 0x100,
            b1 < 0x100,
            b2 < 0x100,
            b3 < 0x100,
            b4 < 0x100,
            b5 < 0x100,
            b6 < 0x100,
            b7 < 0x100,
    ;
    b0 | b1 << 8 | b2 << 16 | b3 << 24 | b4 << 32 | b5 << 40 | b6 << 48 | b7 << 56
}

/// Byte `i` of the little-endian spelling of `val`.
pub fn byte_of(val: u64, i: usize) -> (b: u8)
    requires
        i < 8,
    ensures
        b == le_byte(val, i as int),
{
    let shift: u64 = (i as u64) * 8;
    let b: u64 = (val >> shift) & 0xff;
    assert(((val >> shift) & 0xff) == (if shift == 0 {
        val % 0x100
    } else if shift == 8 {
        val / 0x100 % 0x100
    } else if shift == 16 {
        val / 0x1_0000 % 0x100
    } else if shift == 24 {
        val / 0x100_0000 % 0x100
    } else if shift == 32 {
        val / 0x1_0000_0000 % 0x100
    } else if shift == 40 {
        val / 0x100_0000_0000 % 0x100
    } else if shift == 48 {
        val / 0x1_0000_0000_0000 % 0x100
    } else {
        val / 0x100_0000_0000_0000 % 0x100
    })) by (bit_vector)
        requires
            shift == 0 || shift == 8 || shift == 16 || shift == 24 || shift == 32 || shift == 40
                || shift == 48 || shift == 56,
    ;
    b as u8
}

/// Writes `val` in little-endian order into the first eight bytes of
/// `binary`, as far as the slice reaches; the rest is left as it was.
pub fn put_u64(binary: &mut [u8], val: u64)
    ensures
        final(binary)@.len() == old(binary)@.len(),
        forall|i: int|
            0 <= i < old(binary)@.len() ==> #[trigger] final(binary)@[i] == (if i < 8 {
                le_byte(val, i)
            } else {
                old(binary)@[i]
            }),
{
    let n: usize = binary.len();
    let mut i: usize = 0;
    while i < 8 && i < n
        invariant
            i <= 8,
            n == binary@.len(),
            binary@.len() == old(binary)@.len(),
            forall|j: int|
                0 <= j < n ==> #[trigger] binary@[j] == (if j < i {
                    le_byte(val, j)
                } else {
                    old(binary)@[j]
                }),
        decreases 8 - i,
    {
        binary[i] = byte_of(val, i);
        i = i + 1;
    }
}

/// Whether `sig` is one of the codes in `choice`.
pub fn mtc(sig: u8, choice: &[u8]) -> (found: bool)
    ensures
        found == choice@.contains(sig),
{
    let mut i: usize = 0;
    while i < choice.len()
        invariant
            i <= choice.len(),
            forall|j: int| 0 <= j < i ==> choice@[j] != sig,
        decreases choice.len() - i,
    {
        if choice[i] == sig {
            return true;
        }
        i = i + 1;
    }
    false
}

/// The word that a numeric literal of an assembly source stands for. A
/// decimal number is a signed 64-bit number, and stands for its two's
/// complement; a hexadecimal number has the prefix `0x` and is an unsigned
/// 64-bit number. A minus sign behind the number negates it.
pub open spec fn spec_parse_literal(s: Seq<u8>) -> Option<u64> {
    let negated = s.len() > 0 && s[s.len() - 1] == 45;
    let body = if negated {
        s.subrange(0, s.len() - 1)
    } else {
        s
    };
    let value = match spec_signed(body) {
        Some(r) => Some(r as u64),
        None => spec_hex(body, u64::MAX),
    };
    match value {
        Some(v) => Some(
            if negated {
                wrapping_difference(v, 0)
            } else {
                v
            },
        ),
        None => None,
    }
}

/// Reads a numeric literal of an assembly source.
pub fn parse_literal(s: &str) -> (res: Option<u64>)
    ensures
        !s.is_ascii() ==> res is None,
        s.is_ascii() ==> res == spec_parse_literal(crate::text::bytes_of(s@)),
{
    let bytes: Vec<u8> = match ascii_bytes(s) {
        Some(bytes) => bytes,
        None => {
            return None;
        },
    };
    let n: usize = bytes.len();
    let negated: bool = n > 0 && bytes[n - 1] == 45;
    let body = if negated {
        vstd::slice::slice_subrange(bytes.as_slice(), 0, n - 1)
    } else {
        bytes.as_slice()
    };
    let value: Option<u64> = match parse_signed(body) {
        Some(r) => Some(r as u64),
        None => parse_hex(body, u64::MAX),
    };
    match value {
        Some(v) => Some(
            if negated {
                0u64.wrapping_sub(v)
            } else {
                v
            },
        ),
        None => None,
    }
}

/// How a text is meant to be shown.
#[derive(Debug, Clone, Copy, PartialEq, Eq, Structural)]
pub enum Tone {
    Plain,
    Gray,
    Bold,
    Green,
    GreenBold,
    RedBold,
}

/// A text with its tone.
#[derive(Debug, Clone, PartialEq, Eq)]
pub struct Toned {
    pub tone: Tone,
    pub text: String,
}

/// The tone of a status: green for `aok`, gray for a bubble, bold green for
/// `hlt`, bold red for an exception.
pub open spec fn spec_stat_tone(stat: Stat) -> Tone {
    match stat {
        Stat::Aok => Tone::Green,
        Stat::Bub => Tone::Gray,
        Stat::Hlt => Tone::GreenBold,
        Stat::Adr => Tone::RedBold,
        Stat::Ins => Tone::RedBold,
    }
}

/// How a status is shown: its name in its tone.
pub fn format_stat(stat: Stat) -> (shown: Toned)
    ensures
        shown.tone == spec_stat_tone(stat),
        shown.text@ == match stat {
            Stat::Aok => "aok"@,
            Stat::Bub => "bub"@,
            Stat::Hlt => "hlt"@,
            Stat::Adr => "adr"@,
            Stat::Ins => "ins"@,
        },
{
    let tone = match stat {
        Stat::Aok => Tone::Green,
        Stat::Bub => Tone::Gray,
        Stat::Hlt => Tone::GreenBold,
        Stat::Adr => Tone::RedBold,
        Stat::Ins => Tone::RedBold,
    };
    Toned { tone, text: stat.name().to_owned() }
}

/// Whether a flag is shown as it is meant to be: `true` in bold green,
/// `false` in gray.
pub open spec fn shows_flag(flag: bool, shown: Toned) -> bool {
    if flag {
        shown.tone == Tone::GreenBold && shown.text@ == "true"@
    } else {
        shown.tone == Tone::Gray && shown.text@ == "false"@
    }
}

/// How a flag is shown.
pub fn format_flag(flag: bool) -> (shown: Toned)
    ensures
        shows_flag(flag, shown),
{
    if flag {
        Toned { tone: Tone::GreenBold, text: "true".to_owned() }
    } else {
        Toned { tone: Tone::Gray, text: "false".to_owned() }
    }
}

/// How the condition codes are shown: the three flags, each behind its
/// name.
pub fn format_cc(cc: ConditionCode) -> (shown: Vec<Toned>)
    ensures
        shown@.len() == 6,
        shown@[0].tone == Tone::Plain && shown@[0].text@ == "sf "@,
        shows_flag(cc.sf, shown@[1]),
        shown@[2].tone == Tone::Plain && shown@[2].text@ == "  of "@,
        shows_flag(cc.of, shown@[3]),
        shown@[4].tone == Tone::Plain && shown@[4].text@ == "  zf "@,
        shows_flag(cc.zf, shown@[5]),
{
    let mut shown: Vec<Toned> = Vec::new();
    shown.push(Toned { tone: Tone::Plain, text: "sf ".to_owned() });
    shown.push(format_flag(cc.sf));
    shown.push(Toned { tone: Tone::Plain, text: "  of ".to_owned() });
    shown.push(format_flag(cc.of));
    shown.push(Toned { tone: Tone::Plain, text: "  zf ".to_owned() });
    shown.push(format_flag(cc.zf));
    shown
}

/// How the controls of a stage are shown: a bubble comes before a stall.
pub fn format_ctrl(bubble: bool, stall: bool) -> (shown: Toned)
    ensures
        bubble ==> shown.tone == Tone::RedBold && shown.text@ == "Bubble"@,
        !bubble && stall ==> shown.tone == Tone::RedBold && shown.text@ == "Stall "@,
        !bubble && !stall ==> shown.tone == Tone::Green && shown.text@ == "Normal"@,
{
    if bubble {
        Toned { tone: Tone::RedBold, text: "Bubble".to_owned() }
    } else if stall {
        Toned { tone: Tone::RedBold, text: "Stall ".to_owned() }
    } else {
        Toned { tone: Tone::Green, text: "Normal".to_owned() }
    }
}

/// The text with blanks behind it up to a width of six characters.
pub open spec fn padded(name: Seq<char>) -> Seq<char> {
    if name.len() >= 6 {
        name
    } else {
        name + Seq::new((6 - name.len()) as nat, |i: int| ' ')
    }
}

/// How an instruction code is shown: by its name, at least six characters
/// wide; a `nop` is gray.
pub fn format_icode(icode: u8) -> (shown: Toned)
    ensures
        shown.tone == (if icode == crate::isa::inst_code::NOP {
            Tone::Gray
        } else {
            Tone::Plain
        }),
        shown.text@ == padded(crate::isa::inst_code::spec_name_of(icode)),
{
    let name: &'static str = crate::isa::inst_code::name_of(icode);
    let mut text: String = name.to_owned();
    let mut n: usize = name.unicode_len();
    while n < 6
        invariant
            n <= 6 || n == name@.len(),
            n >= name@.len(),
            text@.len() == n,
            text@ == name@ + Seq::new((n - name@.len()) as nat, |i: int| ' '),
        decreases 6 - n,
    {
        proof {
            reveal_strlit(" ");
        }
        text.append(" ");
        n = n + 1;
        assert(text@ =~= name@ + Seq::new((n - name@.len()) as nat, |i: int| ' '));
    }
    assert(text@ =~= padded(name@));
    let tone = if icode == crate::isa::inst_code::NOP { Tone::Gray } else { Tone::Plain };
    Toned { tone, text }
}

/// The hexadecimal digit of a number below 16.
pub open spec fn hex_char(d: int) -> char {
    if d == 0 {
        '0'
    } else if d == 1 {
        '1'
    } else if d == 2 {
        '2'
    } else if d == 3 {
        '3'
    } else if d == 4 {
        '4'
    } else if d == 5 {
        '5'
    } else if d == 6 {
        '6'
    } else if d == 7 {
        '7'
    } else if d == 8 {
        '8'
    } else if d == 9 {
        '9'
    } else if d == 10 {
        'a'
    } else if d == 11 {
        'b'
    } else if d == 12 {
        'c'
    } else if d == 13 {
        'd'
    } else if d == 14 {
        'e'
    } else {
        'f'
    }
}

/// The `n` lowest hexadecimal digits of `val`, the highest first.
pub open spec fn hex_text(val: u64, n: nat) -> Seq<char>
    decreases n,
{
    if n == 0 {
        Seq::empty()
    } else {
        hex_text(val / 16, (n - 1) as nat).push(hex_char((val % 16) as int))
    }
}

/// The number of hexadecimal digits of `val` without leading zeros.
pub open spec fn hex_width(val: u64) -> nat
    decreases val,
{
    if val == 0 {
        0
    } else {
        1 + hex_width(val / 16)
    }
}

/// The hexadecimal digit of a number below 16, as a text.
fn hex_digit(d: u64) -> (text: &'static str)
    requires
        d < 16,
    ensures
        text@ == seq![hex_char(d as int)],
{
    proof {
        reveal_strlit("0");
        reveal_strlit("1");
        reveal_strlit("2");
        reveal_strlit("3");
        reveal_strlit("4");
        reveal_strlit("5");
        reveal_strlit("6");
        reveal_strlit("7");
        reveal_strlit("8");
        reveal_strlit("9");
        reveal_strlit("a");
        reveal_strlit("b");
        reveal_strlit("c");
        reveal_strlit("d");
        reveal_strlit("e");
        reveal_strlit("f");
    }
    let text: &'static str = if d == 0 {
        "0"
    } else if d == 1 {
        "1"
    } else if d == 2 {
        "2"
    } else if d == 3 {
        "3"
    } else if d == 4 {
        "4"
    } else if d == 5 {
        "5"
    } else if d == 6 {
        "6"
    } else if d == 7 {
        "7"
    } else if d == 8 {
        "8"
    } else if d == 9 {
        "9"
    } else if d == 10 {
        "a"
    } else if d == 11 {
        "b"
    } else if d == 12 {
        "c"
    } else if d == 13 {
        "d"
    } else if d == 14 {
        "e"
    } else {
        "f"
    };
    assert(text@ =~= seq![hex_char(d as int)]);
    text
}

/// The digits of `val` from digit `from` down to digit `to`, counted from
/// the lowest, which is digit 0: `hex_text(val >> 4 * to, from - to)`.
pub fn hex_digits(val: u64, from: usize, to: usize) -> (text: String)
    requires
        to <= from <= 16,
    ensures
        text@ == hex_text(shifted(val, to as nat), (from - to) as nat),
{
    let mut text: String = String::new();
    let mut k: usize = from;
    let ghost base = shifted(val, to as nat);
    assert(text@ =~= hex_text(shifted(val, from as nat), 0));
    while k > to
        invariant
            to <= k <= from,
            from <= 16,
            base == shifted(val, to as nat),
            text@ + hex_text(shifted(val, to as nat), (k - to) as nat) == hex_text(
                base,
                (from - to) as nat,
            ),
        decreases k - to,
    {
        k = k - 1;
        let d: u64 = digit_at(val, k);
        proof {
            lemma_hex_front(shifted(val, to as nat), (k + 1 - to) as nat);
            lemma_shift_shift(val, to as nat, (k - to) as nat);
        }
        let ghost before = text@;
        text.append(hex_digit(d));
        assert(text@ + hex_text(shifted(val, to as nat), (k - to) as nat) =~= before + hex_text(
            shifted(val, to as nat),
            (k + 1 - to) as nat,
        ));
    }
    assert(text@ + Seq::<char>::empty() =~= text@);
    text
}

/// `val` without its `n` lowest hexadecimal digits.
pub open spec fn shifted(val: u64, n: nat) -> u64
    decreases n,
{
    if n == 0 {
        val
    } else {
        shifted(val, (n - 1) as nat) / 16
    }
}

/// Dropping digits one after the other is dropping them at once.
proof fn lemma_shift_shift(val: u64, a: nat, b: nat)
    ensures
        shifted(shifted(val, a), b) == shifted(val, a + b),
    decreases b,
{
    if b > 0 {
        lemma_shift_shift(val, a, (b - 1) as nat);
    }
}

/// The highest of `n` digits stands in front of the others.
proof fn lemma_hex_front(val: u64, n: nat)
    requires
        n >= 1,
    ensures
        hex_text(val, n) == seq![hex_char((shifted(val, (n - 1) as nat) % 16) as int)] + hex_text(
            val,
            (n - 1) as nat,
        ),
    decreases n,
{
    if n == 1 {
        reveal_with_fuel(hex_text, 2);
        assert(hex_text(val, 1) =~= seq![hex_char((val % 16) as int)]);
        assert(hex_text(val, 0) =~= Seq::<char>::empty());
    } else {
        lemma_hex_front(val / 16, (n - 1) as nat);
        lemma_shift_div(val, (n - 2) as nat);
        assert(hex_text(val, n) =~= seq![hex_char((shifted(val, (n - 1) as nat) % 16) as int)]
            + hex_text(val, (n - 1) as nat));
    }
}

/// Dropping a digit first or last is the same.
proof fn lemma_shift_div(val: u64, n: nat)
    ensures
        shifted(val / 16, n) == shifted(val, n + 1),
    decreases n,
{
    reveal_with_fuel(shifted, 2);
    if n > 0 {
        lemma_shift_div(val, (n - 1) as nat);
    }
}

/// Digit `k` of `val`, counted from the lowest.
fn digit_at(val: u64, k: usize) -> (d: u64)
    requires
        k < 16,
    ensures
        d == shifted(val, k as nat) % 16,
        d < 16,
{
    let mut v: u64 = val;
    let mut i: usize = 0;
    while i < k
        invariant
            i <= k,
            v == shifted(val, i as nat),
        decreases k - i,
    {
        v = v / 16;
        i = i + 1;
    }
    v % 16
}

/// How the value of a register is shown: in sixteen hexadecimal digits, of
/// which the leading zeros are gray and the others bold. Zero is sixteen
/// gray zeros.
pub fn format_reg_val(val: u64) -> (shown: Vec<Toned>)
    ensures
        shown@.len() == 2,
        shown@[0].tone == Tone::Gray,
        shown@[1].tone == Tone::Bold,
        shown@[0].text@ + shown@[1].text@ == hex_text(val, 16),
        shown@[1].text@.len() == hex_width(val),
{
    let mut width: usize = 0;
    let mut v: u64 = val;
    while v != 0 && width < 16
        invariant
            width <= 16,
            v == shifted(val, width as nat),
            hex_width(val) == width + hex_width(v),
        decreases 16 - width,
    {
        v = v / 16;
        width = width + 1;
    }
    proof {
        if v != 0 {
            lemma_sixteen_digits(val);
        }
        lemma_text_splits(val, 16, width as nat);
        lemma_zero_text(shifted(val, width as nat), (16 - width) as nat);
        lemma_text_len(val, width as nat);
    }
    let zeros: String = hex_digits(val, 16, width);
    let digits: String = hex_digits(val, width, 0);
    let mut shown: Vec<Toned> = Vec::new();
    shown.push(Toned { tone: Tone::Gray, text: zeros });
    shown.push(Toned { tone: Tone::Bold, text: digits });
    shown
}

/// A 64-bit word has no more than sixteen hexadecimal digits.
proof fn lemma_sixteen_digits(val: u64)
    ensures
        shifted(val, 16) == 0,
{
    reveal_with_fuel(shifted, 17);
    assert(val / 16 / 16 / 16 / 16 / 16 / 16 / 16 / 16 / 16 / 16 / 16 / 16 / 16 / 16 / 16 / 16
        == 0) by (bit_vector);
}

/// The text of `n` digits is the text of the higher ones followed by the
/// text of the `k` lowest.
proof fn lemma_text_splits(val: u64, n: nat, k: nat)
    requires
        k <= n,
    ensures
        hex_text(val, n) == hex_text(shifted(val, k), (n - k) as nat) + hex_text(val, k),
    decreases k,
{
    if k == 0 {
        assert(hex_text(val, 0) =~= Seq::<char>::empty());
        assert(hex_text(val, n) + Seq::<char>::empty() =~= hex_text(val, n));
    } else {
        lemma_text_splits(val / 16, (n - 1) as nat, (k - 1) as nat);
        lemma_shift_div(val, (k - 1) as nat);
        assert(hex_text(val, n) =~= hex_text(shifted(val, k), (n - k) as nat) + hex_text(val, k));
    }
}

/// The text of zero is zeros.
proof fn lemma_zero_text(val: u64, n: nat)
    requires
        val == 0,
    ensures
        hex_text(val, n) == Seq::new(n, |i: int| '0'),
    decreases n,
{
    if n > 0 {
        lemma_zero_text(val / 16, (n - 1) as nat);
    }
    assert(hex_text(val, n) =~= Seq::new(n, |i: int| '0'));
}

/// The text of `n` digits is `n` characters long.
proof fn lemma_text_len(val: u64, n: nat)
    ensures
        hex_text(val, n).len() == n,
    decreases n,
{
    if n > 0 {
        lemma_text_len(val / 16, (n - 1) as nat);
    }
}

/// `n` blanks.
pub open spec fn blanks(n: nat) -> Seq<char> {
    Seq::new(n, |i: int| ' ')
}

/// Appends `n` blanks to a text.
pub fn pad(text: &mut String, n: usize)
    ensures
        final(text)@ == old(text)@ + blanks(n as nat),
{
    let mut i: usize = 0;
    assert(text@ =~= old(text)@ + blanks(0));
    while i < n
        invariant
            i <= n,
            text@ == old(text)@ + blanks(i as nat),
        decreases n - i,
    {
        proof {
            reveal_strlit(" ");
        }
        text.append(" ");
        i = i + 1;
        assert(text@ =~= old(text)@ + blanks(i as nat));
    }
}

/// The number of hexadecimal digits of `val`, and `val` without them.
pub fn count_hex_digits(val: u64) -> (width: usize)
    ensures
        width == hex_width(val),
        width <= 16,
{
    let mut width: usize = 0;
    let mut v: u64 = val;
    while v != 0 && width < 16
        invariant
            width <= 16,
            v == shifted(val, width as nat),
            hex_width(val) == width + hex_width(v),
        decreases 16 - width,
    {
        v = v / 16;
        width = width + 1;
    }
    proof {
        if v != 0 {
            lemma_sixteen_digits(val);
        }
    }
    width
}

/// A number as it is shown: `0x` and the hexadecimal digits of the number,
/// at least one.
pub open spec fn shown_value(val: u64) -> Seq<char> {
    "0x"@ + hex_text(
        val,
        if hex_width(val) == 0 {
            1
        } else {
            hex_width(val)
        },
    )
}

/// Shows a number.
pub fn show_value(val: u64) -> (text: String)
    ensures
        text@ == shown_value(val),
{
    let width: usize = count_hex_digits(val);
    let digits: usize = if width == 0 { 1 } else { width };
    let text: String = "0x".to_owned();
    text.concat(hex_digits(val, digits, 0).as_str())
}

/// The first `k` bytes of a list as they are shown: two hexadecimal digits
/// each.
pub open spec fn shown_bytes_upto(bytes: Seq<u8>, k: int) -> Seq<char>
    decreases k,
{
    if k <= 0 || k > bytes.len() {
        Seq::empty()
    } else {
        shown_bytes_upto(bytes, k - 1) + hex_text(bytes[k - 1] as u64, 2)
    }
}

/// Shows bytes, two hexadecimal digits each.
pub fn show_bytes(bytes: &[u8]) -> (text: String)
    ensures
        text@ == shown_bytes_upto(bytes@, bytes@.len() as int),
{
    let mut text: String = String::new();
    let mut k: usize = 0;
    assert(text@ =~= shown_bytes_upto(bytes@, 0));
    while k < bytes.len()
        invariant
            k <= bytes@.len(),
            text@ == shown_bytes_upto(bytes@, k as int),
        decreases bytes@.len() - k,
    {
        let b: u64 = bytes[k] as u64;
        proof {
            assert(shifted(b, 0) == b) by {
                reveal_with_fuel(shifted, 1);
            }
        }
        text = text.concat(hex_digits(b, 2, 0).as_str());
        k = k + 1;
    }
    text
}

/// The decimal digits of a number, without leading zeros; `0` for zero.
pub open spec fn decimal(n: u64) -> Seq<char>
    decreases n,
{
    if n < 10 {
        seq![hex_char(n as int)]
    } else {
        decimal(n / 10).push(hex_char((n % 10) as int))
    }
}

/// The decimal digits of a number.
pub fn decimal_text(n: u64) -> (text: String)
    ensures
        text@ == decimal(n),
    decreases n,
{
    if n < 10 {
        let text: String = hex_digit(n).to_owned();
        assert(text@ =~= seq![hex_char(n as int)]);
        text
    } else {
        let text: String = decimal_text(n / 10).concat(hex_digit(n % 10));
        assert(text@ =~= decimal(n / 10).push(hex_char((n % 10) as int)));
        text
    }
}

} // verus!
