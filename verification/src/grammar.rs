//! The text form of EUI addresses, as mathematics: which texts denote which
//! octets, which fault a text is rejected with, and how octets are written.

use vstd::prelude::*;
use crate::hex::{hex_digit_value, hex_pair, hex_value, lemma_hex_pair_value};

verus! {

/// The ways in which a text can fail to be an EUI address.
#[derive(Debug, Clone, Copy, PartialEq, Eq, Structural)]
pub enum ParseFault {
    /// The number of bytes, or the number of octets, is not that of an address.
    InvalidLength,
    /// A character is neither a hexadecimal digit nor a separator.
    InvalidChar,
    /// A separator stands where none belongs.
    InvalidFormat,
    /// The digits of one octet denote more than 255.
    Overflow,
}

/// The two characters that may stand between octets.
pub open spec fn is_separator(c: char) -> bool {
    c == ':' || c == '-'
}

/// Length of a text in bytes, as UTF-8.
pub open spec fn byte_length(s: Seq<char>) -> nat {
    vstd::utf8::encode_utf8(s).len()
}

/// Where the field that reaches up to position `i` begins: right after the
/// last separator before `i`, or at the start of the text.
pub open spec fn field_start(s: Seq<char>, i: int) -> int
    decreases i,
{
    if i <= 0 {
        0
    } else if is_separator(s[i - 1]) {
        i
    } else {
        field_start(s, i - 1)
    }
}

/// The number denoted by the digits that stand between the last separator
/// before position `i` and position `i` itself.
pub open spec fn field_value(s: Seq<char>, i: int) -> nat {
    hex_value(s.subrange(field_start(s, i), i))
}

/// The fault that the character at position `i` raises, if any, once
/// everything before it has been accepted.
pub open spec fn fault_at(s: Seq<char>, i: int) -> Option<ParseFault> {
    if hex_digit_value(s[i]) is Some {
        None
    } else if is_separator(s[i]) {
        if (i + 1) % 3 != 0 {
            Some(ParseFault::InvalidFormat)
        } else if field_value(s, i) > 255 {
            Some(ParseFault::Overflow)
        } else {
            None
        }
    } else {
        Some(ParseFault::InvalidChar)
    }
}

/// No character before position `n` raises a fault.
pub open spec fn clean_before(s: Seq<char>, n: int) -> bool {
    forall|i: int| 0 <= i < n ==> (#[trigger] fault_at(s, i)) is None
}

/// Position `i` holds the first character that raises a fault.
pub open spec fn first_fault(s: Seq<char>, i: int) -> bool {
    0 <= i < s.len() && clean_before(s, i) && fault_at(s, i) is Some
}

/// The values of the fields that a separator before position `n` closes, in order.
pub open spec fn closed_fields(s: Seq<char>, n: int) -> Seq<u8>
    decreases n,
{
    if n <= 0 {
        Seq::empty()
    } else if is_separator(s[n - 1]) {
        closed_fields(s, n - 1).push(field_value(s, n - 1) as u8)
    } else {
        closed_fields(s, n - 1)
    }
}

/// What an EUI text denotes: the octets of its fields, or the first fault.
///
/// The byte length must leave remainder 2 modulo 3. Each character is a
/// hexadecimal digit or a separator; a separator stands only at a position
/// `i` with `(i + 1) % 3 == 0`; the digits of each field denote at most 255.
/// The faults are reported in text order, the last field's overflow last.
pub open spec fn eui_octets(s: Seq<char>) -> Result<Seq<u8>, ParseFault> {
    if byte_length(s) % 3 != 2 {
        Err(ParseFault::InvalidLength)
    } else if exists|i: int| first_fault(s, i) {
        Err(fault_at(s, choose|i: int| first_fault(s, i))->0)
    } else if field_value(s, s.len() as int) > 255 {
        Err(ParseFault::Overflow)
    } else {
        Ok(closed_fields(s, s.len() as int).push(field_value(s, s.len() as int) as u8))
    }
}

/// At most one position holds the first fault.
pub proof fn lemma_first_fault_unique(s: Seq<char>, i: int, j: int)
    requires
        first_fault(s, i),
        first_fault(s, j),
    ensures
        i == j,
{
    if i < j {
        assert(fault_at(s, i) is None);
    } else if j < i {
        assert(fault_at(s, j) is None);
    }
}

/// A text that is clean throughout has no first fault.
pub proof fn lemma_clean_has_no_fault(s: Seq<char>)
    requires
        clean_before(s, s.len() as int),
    ensures
        !exists|i: int| first_fault(s, i),
{
    assert forall|i: int| !first_fault(s, i) by {
        if 0 <= i < s.len() {
            assert(fault_at(s, i) is None);
        }
    }
}

/// The outcome of a text whose first fault stands at position `i`.
pub proof fn lemma_outcome_at_fault(s: Seq<char>, i: int)
    requires
        byte_length(s) % 3 == 2,
        first_fault(s, i),
    ensures
        eui_octets(s) == Err::<Seq<u8>, ParseFault>(fault_at(s, i)->0),
{
    let j = choose|j: int| first_fault(s, j);
    lemma_first_fault_unique(s, i, j);
}

/// How the running field value moves when the scan steps over position `i`.
pub proof fn lemma_field_step(s: Seq<char>, i: int)
    requires
        0 <= i < s.len(),
    ensures
        is_separator(s[i]) ==> field_value(s, i + 1) == 0,
        !is_separator(s[i]) ==> field_value(s, i + 1) == 16 * field_value(s, i) + match hex_digit_value(s[i]) {
            Some(d) => d,
            None => 0,
        },
{
    if is_separator(s[i]) {
        assert(field_start(s, i + 1) == i + 1);
        assert(s.subrange(i + 1, i + 1).len() == 0);
    } else {
        assert(field_start(s, i + 1) == field_start(s, i));
        lemma_field_start_bounds(s, i);
        let start = field_start(s, i);
        let run = s.subrange(start, i + 1);
        assert(run.drop_last() =~= s.subrange(start, i));
        assert(run.last() == s[i]);
    }
}

/// A field begins inside the text, at or before the position it reaches up to.
pub proof fn lemma_field_start_bounds(s: Seq<char>, i: int)
    requires
        0 <= i,
    ensures
        0 <= field_start(s, i) <= i,
    decreases i,
{
    if i > 0 && !is_separator(s[i - 1]) {
        lemma_field_start_bounds(s, i - 1);
    }
}

/// The text of a run of octets: two lowercase hexadecimal digits for each,
/// with `separator` between neighbours.
pub open spec fn eui_text(octets: Seq<u8>, separator: char) -> Seq<char>
    decreases octets.len(),
{
    if octets.len() == 0 {
        Seq::empty()
    } else if octets.len() == 1 {
        hex_pair(octets[0])
    } else {
        eui_text(octets.drop_last(), separator).push(separator) + hex_pair(octets.last())
    }
}

/// Two characters that a reader of EUI text does not tell apart: equal
/// ones, two separators, or two digits of one value.
pub open spec fn alike(c: char, d: char) -> bool {
    ||| c == d
    ||| is_separator(c) && is_separator(d)
    ||| hex_digit_value(c) is Some && hex_digit_value(c) == hex_digit_value(d)
}

/// Two texts that are alike character by character up to position `n`.
pub open spec fn alike_before(s: Seq<char>, t: Seq<char>, n: int) -> bool {
    &&& n <= s.len()
    &&& n <= t.len()
    &&& forall|i: int| 0 <= i < n ==> alike(#[trigger] s[i], t[i])
}

/// Runs of the same length whose digits agree in value denote the same number.
pub proof fn lemma_hex_value_alike(u: Seq<char>, v: Seq<char>)
    requires
        u.len() == v.len(),
        forall|i: int| 0 <= i < u.len() ==> hex_digit_value(#[trigger] u[i]) == hex_digit_value(v[i]),
    ensures
        hex_value(u) == hex_value(v),
    decreases u.len(),
{
    if u.len() > 0 {
        assert(hex_digit_value(u[u.len() - 1]) == hex_digit_value(v[u.len() - 1]));
        assert forall|i: int| 0 <= i < u.drop_last().len() implies hex_digit_value(
            #[trigger] u.drop_last()[i],
        ) == hex_digit_value(v.drop_last()[i]) by {
            assert(hex_digit_value(u[i]) == hex_digit_value(v[i]));
        }
        lemma_hex_value_alike(u.drop_last(), v.drop_last());
    }
}

/// Alike characters are separators together and digits of one value together.
pub proof fn lemma_alike_classes(c: char, d: char)
    requires
        alike(c, d),
    ensures
        is_separator(c) == is_separator(d),
        hex_digit_value(c) == hex_digit_value(d),
        vstd::utf8::encode_scalar(c as u32).len() == vstd::utf8::encode_scalar(d as u32).len(),
{
}

/// Up to where two texts are alike, their fields begin at the same places,
/// denote the same numbers and close with the same octets.
pub proof fn lemma_alike_fields(s: Seq<char>, t: Seq<char>, n: int, i: int)
    requires
        alike_before(s, t, n),
        0 <= i <= n,
    ensures
        field_start(s, i) == field_start(t, i),
        field_value(s, i) == field_value(t, i),
        closed_fields(s, i) == closed_fields(t, i),
    decreases i,
{
    lemma_field_start_bounds(s, i);
    let start = field_start(s, i);
    if i > 0 {
        assert(alike(s[i - 1], t[i - 1]));
        lemma_alike_classes(s[i - 1], t[i - 1]);
        lemma_alike_fields(s, t, n, i - 1);
    }
    let u = s.subrange(start, i);
    let v = t.subrange(start, i);
    assert forall|k: int| 0 <= k < u.len() implies hex_digit_value(#[trigger] u[k])
        == hex_digit_value(v[k]) by {
        assert(alike(s[start + k], t[start + k]));
        lemma_alike_classes(s[start + k], t[start + k]);
    }
    lemma_hex_value_alike(u, v);
}

/// Up to where two texts are alike, each position raises the same fault in both.
pub proof fn lemma_alike_faults(s: Seq<char>, t: Seq<char>, n: int, i: int)
    requires
        alike_before(s, t, n),
        0 <= i < n,
    ensures
        fault_at(s, i) == fault_at(t, i),
{
    assert(alike(s[i], t[i]));
    lemma_alike_classes(s[i], t[i]);
    lemma_alike_fields(s, t, n, i);
}

/// Texts that are alike throughout take the same number of bytes.
pub proof fn lemma_alike_byte_length(s: Seq<char>, t: Seq<char>)
    requires
        s.len() == t.len(),
        alike_before(s, t, s.len() as int),
    ensures
        byte_length(s) == byte_length(t),
    decreases s.len(),
{
    if s.len() > 0 {
        assert(alike(s[0], t[0]));
        lemma_alike_classes(s[0], t[0]);
        assert forall|i: int| 0 <= i < s.drop_first().len() implies alike(
            #[trigger] s.drop_first()[i],
            t.drop_first()[i],
        ) by {
            assert(alike(s[i + 1], t[i + 1]));
        }
        lemma_alike_byte_length(s.drop_first(), t.drop_first());
    }
}

/// Reading does not depend on which separator stands between the fields, nor
/// on the case of the digits: texts that are alike character by character
/// denote the same octets, or are rejected with the same fault.
pub proof fn lemma_alike_texts(s: Seq<char>, t: Seq<char>)
    requires
        s.len() == t.len(),
        alike_before(s, t, s.len() as int),
    ensures
        eui_octets(s) == eui_octets(t),
{
    let n = s.len() as int;
    lemma_alike_byte_length(s, t);
    lemma_alike_fields(s, t, n, n);
    assert forall|i: int| 0 <= i < n implies #[trigger] fault_at(s, i) == fault_at(t, i) by {
        lemma_alike_faults(s, t, n, i);
    }
    assert forall|i: int| first_fault(s, i) == first_fault(t, i) by {
        if 0 <= i < n {
            assert(fault_at(s, i) == fault_at(t, i));
            if clean_before(s, i) {
                assert forall|k: int| 0 <= k < i implies (#[trigger] fault_at(t, k)) is None by {
                    assert(fault_at(s, k) is None);
                }
            }
            if clean_before(t, i) {
                assert forall|k: int| 0 <= k < i implies (#[trigger] fault_at(s, k)) is None by {
                    assert(fault_at(t, k) is None);
                }
            }
        }
    }
    if exists|i: int| first_fault(s, i) {
        let i = choose|i: int| first_fault(s, i);
        assert(first_fault(t, i));
        let j = choose|j: int| first_fault(t, j);
        lemma_first_fault_unique(t, i, j);
    } else {
        assert forall|j: int| !first_fault(t, j) by {
            assert(first_fault(s, j) == first_fault(t, j));
        }
    }
}

/// What makes a text the faultless writing of a run of octets: three
/// characters for each octet but the last, two for that one, all of them
/// ASCII, no fault anywhere, and the fields denoting the octets in order.
pub open spec fn writes(text: Seq<char>, octets: Seq<u8>) -> bool {
    &&& octets.len() >= 1
    &&& text.len() == 3 * octets.len() - 1
    &&& vstd::utf8::is_ascii_chars(text)
    &&& clean_before(text, text.len() as int)
    &&& closed_fields(text, text.len() as int) == octets.drop_last()
    &&& field_value(text, text.len() as int) == octets.last()
}

/// The two digits of an octet are digits, and no separators.
pub proof fn lemma_hex_pair_digits(octet: u8)
    ensures
        hex_pair(octet).len() == 2,
        hex_digit_value(hex_pair(octet)[0]) == Some(octet as nat / 16),
        hex_digit_value(hex_pair(octet)[1]) == Some(octet as nat % 16),
        !is_separator(hex_pair(octet)[0]),
        !is_separator(hex_pair(octet)[1]),
        '\0' <= hex_pair(octet)[0] <= '\u{7f}',
        '\0' <= hex_pair(octet)[1] <= '\u{7f}',
{
    lemma_hex_pair_value(octet);
}

/// The text of a run of octets writes that run.
pub proof fn lemma_text_writes_octets(octets: Seq<u8>, separator: char)
    requires
        octets.len() >= 1,
        is_separator(separator),
    ensures
        writes(eui_text(octets, separator), octets),
    decreases octets.len(),
{
    let text = eui_text(octets, separator);
    let last = octets.last();
    lemma_hex_pair_digits(last);
    let pair = hex_pair(last);
    if octets.len() == 1 {
        assert(text == pair);
        lemma_field_step(text, 0);
        lemma_field_step(text, 1);
        assert(field_start(text, 0) == 0);
        assert(text.subrange(0, 0).len() == 0);
        assert(field_value(text, 0) == 0);
        assert(closed_fields(text, 0) == Seq::<u8>::empty());
        assert(closed_fields(text, 1) == Seq::<u8>::empty());
        assert(closed_fields(text, 2) == Seq::<u8>::empty());
        assert(octets.drop_last() =~= Seq::<u8>::empty());
    } else {
        let front = octets.drop_last();
        let head = eui_text(front, separator);
        lemma_text_writes_octets(front, separator);
        let n = head.len() as int;
        assert(text == head.push(separator) + pair);
        assert(text.len() == n + 3);
        assert(text[n] == separator);
        assert(text[n + 1] == pair[0]);
        assert(text[n + 2] == pair[1]);
        assert forall|i: int| 0 <= i < n implies alike(#[trigger] head[i], text[i]) by {
            assert(text[i] == head[i]);
        }
        assert(alike_before(head, text, n));
        lemma_alike_fields(head, text, n, n);
        assert forall|i: int| 0 <= i < text.len() implies (#[trigger] fault_at(text, i)) is None by {
            if i < n {
                lemma_alike_faults(head, text, n, i);
                assert(fault_at(head, i) is None);
            }
        }
        lemma_field_step(text, n);
        lemma_field_step(text, n + 1);
        lemma_field_step(text, n + 2);
        assert(closed_fields(text, n + 1) == closed_fields(text, n).push(front.last()));
        assert(closed_fields(text, n + 2) == closed_fields(text, n + 1));
        assert(closed_fields(text, n + 3) == closed_fields(text, n + 2));
        assert(front.drop_last().push(front.last()) =~= front);
        assert forall|i: int| 0 <= i < text.len() implies '\0' <= #[trigger] text[i] <= '\u{7f}' by {
            if i < n {
                assert(text[i] == head[i]);
            }
        }
    }
}

/// Reading the text of a run of octets gives the run back, whichever
/// separator it was written with.
pub proof fn lemma_text_denotes_octets(octets: Seq<u8>, separator: char)
    requires
        octets.len() >= 1,
        is_separator(separator),
    ensures
        eui_octets(eui_text(octets, separator)) == Ok::<Seq<u8>, ParseFault>(octets),
{
    let text = eui_text(octets, separator);
    lemma_text_writes_octets(octets, separator);
    vstd::utf8::is_ascii_chars_encode_utf8(text);
    lemma_clean_has_no_fault(text);
    assert(octets.drop_last().push(octets.last()) =~= octets);
}

} // verus!
