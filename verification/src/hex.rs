//! Hexadecimal text: parsing the address fields of the mapping table and
//! rendering addresses back for display.

use vstd::prelude::*;
use vstd::string::*;

verus! {

/// Whether the character is a hexadecimal digit, in either case.
pub open spec fn is_hex_digit(c: char) -> bool {
    ('0' <= c && c <= '9') || ('a' <= c && c <= 'f') || ('A' <= c && c <= 'F')
}

/// The numeric value of a hexadecimal digit character (0 elsewhere).
pub open spec fn hex_digit_value(c: char) -> nat {
    if '0' <= c && c <= '9' {
        (c as int - '0' as int) as nat
    } else if 'a' <= c && c <= 'f' {
        (c as int - 'a' as int + 10) as nat
    } else if 'A' <= c && c <= 'F' {
        (c as int - 'A' as int + 10) as nat
    } else {
        0
    }
}

/// Whether the text is a well-formed hexadecimal numeral: nonempty, every
/// character a hexadecimal digit.
pub open spec fn is_hex_string(s: Seq<char>) -> bool {
    s.len() > 0 && (forall|i: int| 0 <= i < s.len() ==> is_hex_digit(s[i]))
}

/// The numeric value of a hexadecimal numeral, most significant digit
/// first.
pub open spec fn hex_value(s: Seq<char>) -> nat
    decreases s.len(),
{
    if s.len() == 0 {
        0
    } else {
        hex_value(s.drop_last()) * 16 + hex_digit_value(s.last())
    }
}

/// The digit character of a value below 16, lowercase.
pub open spec fn hex_digit_char(d: nat) -> char {
    if d == 0 { '0' } else if d == 1 { '1' } else if d == 2 { '2' } else if d == 3 { '3' }
    else if d == 4 { '4' } else if d == 5 { '5' } else if d == 6 { '6' } else if d == 7 { '7' }
    else if d == 8 { '8' } else if d == 9 { '9' } else if d == 10 { 'a' } else if d == 11 { 'b' }
    else if d == 12 { 'c' } else if d == 13 { 'd' } else if d == 14 { 'e' } else { 'f' }
}

/// The digits of a value in base 16, most significant first; empty for 0.
pub open spec fn hex_digits_rec(n: nat) -> Seq<char>
    decreases n,
{
    if n == 0 {
        Seq::empty()
    } else {
        hex_digits_rec(n / 16).push(hex_digit_char(n % 16))
    }
}

/// The lowercase hexadecimal rendering of a value, without a `0x` prefix
/// and without leading zeros; `0` renders as the single digit `0`.
pub open spec fn hex_render(n: nat) -> Seq<char> {
    if n == 0 {
        seq!['0']
    } else {
        hex_digits_rec(n)
    }
}

/// The value of a numeral is at least the value of any of its prefixes.
proof fn lemma_hex_value_prefix(s: Seq<char>, k: int)
    requires
        0 <= k <= s.len(),
    ensures
        hex_value(s) >= hex_value(s.take(k)),
    decreases s.len() - k,
{
    if k < s.len() {
        assert(s.take(k + 1).drop_last() =~= s.take(k));
        assert(s.take(k + 1).last() == s[k]);
        assert(hex_value(s.take(k + 1)) >= hex_value(s.take(k)));
        lemma_hex_value_prefix(s, k + 1);
    } else {
        assert(s.take(k) =~= s);
    }
}

/// The numeric value of a hexadecimal digit character, or nothing for any
/// other character.
fn hex_digit(c: char) -> (r: Option<u64>)
    ensures
        r is Some <==> is_hex_digit(c),
        r matches Some(v) ==> v == hex_digit_value(c) && v < 16,
{
    if '0' <= c && c <= '9' {
        Some(c as u64 - '0' as u64)
    } else if 'a' <= c && c <= 'f' {
        Some(c as u64 - 'a' as u64 + 10)
    } else if 'A' <= c && c <= 'F' {
        Some(c as u64 - 'A' as u64 + 10)
    } else {
        None
    }
}

/// Parses a hexadecimal numeral into a 64-bit value.  Succeeds exactly on
/// nonempty all-hex-digit text whose value fits in 64 bits; no sign, `0x`
/// prefix or other decoration is accepted.
pub fn parse_hex_u64(s: &str) -> (r: Option<u64>)
    ensures
        r is Some <==> is_hex_string(s@) && hex_value(s@) <= u64::MAX,
        r matches Some(v) ==> v == hex_value(s@),
{
    let n: usize = s.unicode_len();
    if n == 0 {
        return None;
    }
    let mut acc: u64 = 0;
    let mut i: usize = 0;
    while i < n
        invariant
            s@.len() == n as nat,
            0 < n,
            i <= n,
            forall|j: int| 0 <= j < i ==> is_hex_digit(s@[j]),
            acc == hex_value(s@.take(i as int)),
        decreases n - i,
    {
        let c = s.get_char(i);
        proof {
            assert(s@.take(i as int + 1).drop_last() =~= s@.take(i as int));
            assert(s@.take(i as int + 1).last() == s@[i as int]);
        }
        match hex_digit(c) {
            None => {
                return None;
            },
            Some(d) => {
                if acc > 0x0fff_ffff_ffff_ffff {
                    proof {
                        lemma_hex_value_prefix(s@, i as int + 1);
                    }
                    return None;
                }
                acc = acc * 16 + d;
            },
        }
        i = i + 1;
    }
    proof {
        assert(s@.take(n as int) =~= s@);
    }
    Some(acc)
}

/// The one-character text of a digit value below 16.
fn hex_digit_str(d: u64) -> (r: &'static str)
    requires
        d < 16,
    ensures
        r@ =~= seq![hex_digit_char(d as nat)],
{
    proof {
        reveal_strlit("0");
        reveal_strlit("1");
        reveal_strlit("2");
        reveal_strlit("3");
        reveal_strlit("4");
        reveal_strlit("5");
        reveal_strlit("6");
        reveal_strlit("7");
        reveal_strlit("8");
        reveal_strlit("9");
        reveal_strlit("a");
        reveal_strlit("b");
        reveal_strlit("c");
        reveal_strlit("d");
        reveal_strlit("e");
        reveal_strlit("f");
    }
    if d == 0 { "0" } else if d == 1 { "1" } else if d == 2 { "2" } else if d == 3 { "3" }
    else if d == 4 { "4" } else if d == 5 { "5" } else if d == 6 { "6" } else if d == 7 { "7" }
    else if d == 8 { "8" } else if d == 9 { "9" } else if d == 10 { "a" } else if d == 11 { "b" }
    else if d == 12 { "c" } else if d == 13 { "d" } else if d == 14 { "e" } else { "f" }
}

/// Renders a value as lowercase hexadecimal text, without a `0x` prefix
/// and without leading zeros.
pub fn to_hex_string(n: u64) -> (r: String)
    ensures
        r@ == hex_render(n as nat),
{
    if n == 0 {
        let out = String::from_str("0");
        proof {
            reveal_strlit("0");
            assert(out@ =~= hex_render(0));
        }
        return out;
    }
    let mut digits: Vec<u64> = Vec::new();
    let mut v: u64 = n;
    while v > 0
        invariant
            forall|j: int| 0 <= j < digits@.len() ==> digits@[j] < 16,
            hex_digits_rec(n as nat) == hex_digits_rec(v as nat) + digits@.map_values(
                |d: u64| hex_digit_char(d as nat),
            ).reverse(),
        decreases v,
    {
        let ghost before = digits@.map_values(|d: u64| hex_digit_char(d as nat)).reverse();
        let d: u64 = v % 16;
        digits.push(d);
        proof {
            let after = digits@.map_values(|d: u64| hex_digit_char(d as nat)).reverse();
            assert(after =~= seq![hex_digit_char(d as nat)] + before);
            assert(hex_digits_rec(v as nat) + before =~= hex_digits_rec((v / 16) as nat) + after);
        }
        v = v / 16;
    }
    let ghost rendered = digits@.map_values(|d: u64| hex_digit_char(d as nat)).reverse();
    proof {
        assert(hex_digits_rec(n as nat) =~= rendered);
    }
    let mut out = String::new();
    let mut k: usize = digits.len();
    proof {
        assert(out@ =~= rendered.take(0));
    }
    while k > 0
        invariant
            k <= digits.len(),
            rendered == digits@.map_values(|d: u64| hex_digit_char(d as nat)).reverse(),
            rendered == hex_digits_rec(n as nat),
            forall|j: int| 0 <= j < digits@.len() ==> digits@[j] < 16,
            out@ == rendered.take(digits@.len() - k),
        decreases k,
    {
        k = k - 1;
        let piece = hex_digit_str(digits[k]);
        out.append(piece);
        proof {
            assert(rendered[digits@.len() - k - 1] == hex_digit_char(digits@[k as int] as nat));
            assert(out@ =~= rendered.take(digits@.len() - k));
        }
    }
    proof {
        assert(rendered.take(digits@.len() as int) =~= rendered);
        assert(hex_render(n as nat) == hex_digits_rec(n as nat));
    }
    out
}

} // verus!
