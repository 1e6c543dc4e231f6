//! Hexadecimal digits: their values, the number a run of them denotes, and
//! the two-digit rendering of an octet.

use vstd::prelude::*;
use vstd::string::*;

verus! {

/// The value of a hexadecimal digit, in either case; `None` for any other character.
pub open spec fn hex_digit_value(c: char) -> Option<nat> {
    if '0' <= c && c <= '9' {
        Some((c as nat - '0' as nat) as nat)
    } else if 'a' <= c && c <= 'f' {
        Some((c as nat - 'a' as nat + 10) as nat)
    } else if 'A' <= c && c <= 'F' {
        Some((c as nat - 'A' as nat + 10) as nat)
    } else {
        None
    }
}

/// The number that a run of hexadecimal digits denotes, most significant digit first.
/// The empty run denotes zero; a character that is no digit counts as zero.
pub open spec fn hex_value(digits: Seq<char>) -> nat
    decreases digits.len(),
{
    if digits.len() == 0 {
        0
    } else {
        16 * hex_value(digits.drop_last()) + match hex_digit_value(digits.last()) {
            Some(d) => d,
            None => 0,
        }
    }
}

/// The lowercase hexadecimal digit that stands for `n`, for `n` below sixteen.
pub open spec fn hex_digit_char(n: nat) -> char
    recommends
        n < 16,
{
    if n < 10 {
        ('0' as u8 + n) as u8 as char
    } else {
        ('a' as u8 + n - 10) as u8 as char
    }
}

/// An octet as exactly two lowercase hexadecimal digits, the high one first.
pub open spec fn hex_pair(octet: u8) -> Seq<char> {
    seq![hex_digit_char(octet as nat / 16), hex_digit_char(octet as nat % 16)]
}

/// Reading the two digits of an octet gives the octet back.
pub proof fn lemma_hex_pair_value(octet: u8)
    ensures
        hex_pair(octet).len() == 2,
        hex_digit_value(hex_pair(octet)[0]) == Some(octet as nat / 16),
        hex_digit_value(hex_pair(octet)[1]) == Some(octet as nat % 16),
        hex_value(hex_pair(octet)) == octet as nat,
{
    let pair = hex_pair(octet);
    let high = pair.drop_last();
    assert(high.len() == 1);
    assert(high.last() == pair[0]);
    assert(high.drop_last().len() == 0);
    assert(hex_value(high.drop_last()) == 0);
    assert(hex_value(high) == octet as nat / 16);
    assert(pair.last() == pair[1]);
}

/// Reads one hexadecimal digit, in either case.
pub fn digit_value(c: char) -> (r: Option<u32>)
    ensures
        match r {
            Some(d) => hex_digit_value(c) == Some(d as nat) && d < 16,
            None => hex_digit_value(c) is None,
        },
{
    if '0' <= c && c <= '9' {
        Some(c as u32 - '0' as u32)
    } else if 'a' <= c && c <= 'f' {
        Some(c as u32 - 'a' as u32 + 10)
    } else if 'A' <= c && c <= 'F' {
        Some(c as u32 - 'A' as u32 + 10)
    } else {
        None
    }
}

/// The text of one lowercase digit.
fn digit_text(n: u8) -> (r: &'static str)
    requires
        n < 16,
    ensures
        r@ == seq![hex_digit_char(n as nat)],
{
    let digits = "0123456789abcdef";
    proof {
        reveal_strlit("0123456789abcdef");
    }
    let r = digits.substring_ascii(n as usize, n as usize + 1);
    assert(r@ =~= seq![hex_digit_char(n as nat)]);
    r
}

/// Appends the two lowercase hexadecimal digits of `octet` to `text`.
pub fn push_hex_pair(text: &mut String, octet: u8)
    ensures
        final(text)@ == old(text)@ + hex_pair(octet),
{
    text.append(digit_text(octet / 16));
    text.append(digit_text(octet % 16));
    assert(final(text)@ =~= old(text)@ + hex_pair(octet));
}

} // verus!
