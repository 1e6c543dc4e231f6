//! EUI-48 and EUI-64 addresses: their text form and the conversions between them.

use vstd::prelude::*;
use vstd::string::*;
use vstd::std_specs::convert::{FromSpecImpl, TryFromSpecImpl};
use crate::grammar::{
    alike_before, byte_length, clean_before, closed_fields, eui_octets, eui_text, fault_at,
    field_value, is_separator, lemma_alike_texts, lemma_clean_has_no_fault, lemma_field_step,
    lemma_outcome_at_fault, lemma_text_denotes_octets, ParseFault,
};
use crate::hex::{digit_value, push_hex_pair};
use crate::ipv6::{
    eui48_to_ipv6, ipv6_to_eui48, ipv6_to_eui64, split_group, IPv6, UNIVERSAL_LOCAL_BIT,
};

verus! {

/// A rejected EUI text, with the text as it was given.
#[derive(Debug)]
pub enum EUIParseError {
    InvalidLength(String),
    InvalidChar(String),
    InvalidFormat(String),
    Overflow(String),
}

impl EUIParseError {
    /// Which fault this error reports.
    pub open spec fn spec_kind(&self) -> ParseFault {
        match self {
            Self::InvalidLength(_) => ParseFault::InvalidLength,
            Self::InvalidChar(_) => ParseFault::InvalidChar,
            Self::InvalidFormat(_) => ParseFault::InvalidFormat,
            Self::Overflow(_) => ParseFault::Overflow,
        }
    }

    /// The text that was rejected.
    pub open spec fn text(&self) -> Seq<char> {
        match self {
            Self::InvalidLength(value) => value@,
            Self::InvalidChar(value) => value@,
            Self::InvalidFormat(value) => value@,
            Self::Overflow(value) => value@,
        }
    }

    /// Which fault this error reports.
    #[verifier::when_used_as_spec(spec_kind)]
    pub fn kind(&self) -> (r: ParseFault)
        ensures
            r == self.spec_kind(),
    {
        match self {
            Self::InvalidLength(_) => ParseFault::InvalidLength,
            Self::InvalidChar(_) => ParseFault::InvalidChar,
            Self::InvalidFormat(_) => ParseFault::InvalidFormat,
            Self::Overflow(_) => ParseFault::Overflow,
        }
    }

    /// The diagnostic: the sentence of the fault, then the rejected text.
    pub open spec fn diagnostic(&self) -> Seq<char> {
        fault_sentence(self.kind()) + self.text()
    }

    /// The diagnostic: the sentence of the fault, then the rejected text.
    pub fn message(&self) -> (r: String)
        ensures
            r@ == self.diagnostic(),
    {
        match self {
            Self::InvalidLength(value) => {
                "Invalid MAC Address length. ".to_owned().concat(value.as_str())
            },
            Self::InvalidChar(value) => {
                "MAC address contains invalid characters. ".to_owned().concat(value.as_str())
            },
            Self::InvalidFormat(value) => {
                "MAC address format is incorrect. ".to_owned().concat(value.as_str())
            },
            Self::Overflow(value) => {
                "MAC address field value is too large. ".to_owned().concat(value.as_str())
            },
        }
    }
}

/// The sentence that opens the diagnostic of each fault.
pub open spec fn fault_sentence(fault: ParseFault) -> Seq<char> {
    match fault {
        ParseFault::InvalidLength => "Invalid MAC Address length. "@,
        ParseFault::InvalidChar => "MAC address contains invalid characters. "@,
        ParseFault::InvalidFormat => "MAC address format is incorrect. "@,
        ParseFault::Overflow => "MAC address field value is too large. "@,
    }
}

/// The error that reports `fault` on `text`.
pub open spec fn parse_error_of(fault: ParseFault, text: String) -> EUIParseError {
    match fault {
        ParseFault::InvalidLength => EUIParseError::InvalidLength(text),
        ParseFault::InvalidChar => EUIParseError::InvalidChar(text),
        ParseFault::InvalidFormat => EUIParseError::InvalidFormat(text),
        ParseFault::Overflow => EUIParseError::Overflow(text),
    }
}

/// The error that reports `fault` on `text`.
fn parse_error(fault: ParseFault, text: String) -> (r: EUIParseError)
    ensures
        r == parse_error_of(fault, text),
{
    match fault {
        ParseFault::InvalidLength => EUIParseError::InvalidLength(text),
        ParseFault::InvalidChar => EUIParseError::InvalidChar(text),
        ParseFault::InvalidFormat => EUIParseError::InvalidFormat(text),
        ParseFault::Overflow => EUIParseError::Overflow(text),
    }
}

/// Splits an EUI text into the octets of its fields.
pub fn parse_eui(source: &str) -> (r: Result<Vec<u8>, EUIParseError>)
    ensures
        match r {
            Ok(octets) => eui_octets(source@) == Ok::<Seq<u8>, ParseFault>(octets@),
            Err(e) => eui_octets(source@) == Err::<Seq<u8>, ParseFault>(e.kind()) && e.text()
                == source@,
        },
{
    if source.as_bytes().len() % 3 != 2 {
        return Err(EUIParseError::InvalidLength(source.to_owned()));
    }
    let mut segments: Vec<u8> = Vec::with_capacity(8);
    let mut segment: u32 = 0;
    let mut phase: u8 = 0;
    for c in it: source.chars()
        invariant
            it.seq() == source@,
            byte_length(source@) % 3 == 2,
            clean_before(source@, it.index()),
            phase as int == it.index() % 3,
            field_value(source@, it.index()) <= 255 ==> segment == field_value(source@, it.index()),
            field_value(source@, it.index()) > 255 ==> segment > 255,
            segment <= 4095,
            segments@ == closed_fields(source@, it.index()),
    {
        let ghost i = it.index();
        proof {
            lemma_field_step(source@, i);
        }
        match digit_value(c) {
            Some(digit) => {
                if segment <= 255 {
                    segment = segment * 16 + digit;
                }
            },
            None => {
                if c == ':' || c == '-' {
                    if phase != 2 {
                        proof {
                            lemma_outcome_at_fault(source@, i);
                        }
                        return Err(EUIParseError::InvalidFormat(source.to_owned()));
                    }
                    if segment > 255 {
                        proof {
                            lemma_outcome_at_fault(source@, i);
                        }
                        return Err(EUIParseError::Overflow(source.to_owned()));
                    }
                    segments.push(segment as u8);
                    segment = 0;
                } else {
                    proof {
                        lemma_outcome_at_fault(source@, i);
                    }
                    return Err(EUIParseError::InvalidChar(source.to_owned()));
                }
            },
        }
        phase = if phase == 2 { 0 } else { phase + 1 };
        assert(clean_before(source@, i + 1)) by {
            assert forall|k: int| 0 <= k < i + 1 implies (#[trigger] fault_at(source@, k)) is None by {
                if k < i {
                    assert(fault_at(source@, k) is None);
                }
            }
        }
    }
    proof {
        lemma_clean_has_no_fault(source@);
    }
    if segment > 255 {
        return Err(EUIParseError::Overflow(source.to_owned()));
    }
    segments.push(segment as u8);
    Ok(segments)
}

/// Writes a run of octets as text.
fn format_octets(octets: &[u8], separator: &str) -> (r: String)
    requires
        separator@.len() == 1,
    ensures
        r@ == eui_text(octets@, separator@[0]),
{
    let mut text = String::new();
    let mut i: usize = 0;
    while i < octets.len()
        invariant
            i <= octets.len(),
            separator@.len() == 1,
            text@ == eui_text(octets@.take(i as int), separator@[0]),
        decreases octets.len() - i,
    {
        let ghost before = octets@.take(i as int);
        let ghost after = octets@.take(i + 1);
        assert(after.drop_last() =~= before);
        assert(after.last() == octets@[i as int]);
        if i > 0 {
            text.append(separator);
            assert(text@ =~= eui_text(before, separator@[0]).push(separator@[0]));
        }
        push_hex_pair(&mut text, octets[i]);
        i = i + 1;
    }
    assert(octets@.take(i as int) =~= octets@);
    text
}

/// A 48-bit hardware address: six octets, `a` first.
#[derive(Debug, Clone, Copy, PartialEq, Eq, Structural)]
pub struct EUI48 {
    pub a: u8,
    pub b: u8,
    pub c: u8,
    pub d: u8,
    pub e: u8,
    pub f: u8,
}

impl View for EUI48 {
    type V = Seq<u8>;

    open spec fn view(&self) -> Seq<u8> {
        seq![self.a, self.b, self.c, self.d, self.e, self.f]
    }
}

/// What a text denotes as an EUI-48: the six octets of its fields.
pub open spec fn parse_eui48(s: Seq<char>) -> Result<EUI48, ParseFault> {
    match eui_octets(s) {
        Err(fault) => Err(fault),
        Ok(o) => if o.len() != 6 {
            Err(ParseFault::InvalidLength)
        } else {
            Ok(EUI48 { a: o[0], b: o[1], c: o[2], d: o[3], e: o[4], f: o[5] })
        },
    }
}

impl EUI48 {
    /// Reads an EUI-48 from text: six fields of hexadecimal digits with `:` or `-` between them.
    pub fn parse(source: &str) -> (r: Result<Self, EUIParseError>)
        ensures
            match r {
                Ok(value) => parse_eui48(source@) == Ok::<EUI48, ParseFault>(value),
                Err(e) => parse_eui48(source@) == Err::<EUI48, ParseFault>(e.kind()) && e.text()
                    == source@,
            },
    {
        let segments = match parse_eui(source) {
            Ok(segments) => segments,
            Err(e) => {
                return Err(e);
            },
        };
        if segments.len() != 6 {
            return Err(EUIParseError::InvalidLength(source.to_owned()));
        }
        Ok(
            EUI48 {
                a: segments[0],
                b: segments[1],
                c: segments[2],
                d: segments[3],
                e: segments[4],
                f: segments[5],
            },
        )
    }

    /// The address as `xx-xx-xx-xx-xx-xx`, in lowercase.
    pub fn hyphenated(&self) -> (r: String)
        ensures
            r@ == eui_text(self@, '-'),
    {
        proof {
            reveal_strlit("-");
        }
        let octets = [self.a, self.b, self.c, self.d, self.e, self.f];
        assert(octets@ =~= self@);
        format_octets(octets.as_slice(), "-")
    }

    /// The address as `xx:xx:xx:xx:xx:xx`, in lowercase.
    pub fn colon_separated(&self) -> (r: String)
        ensures
            r@ == eui_text(self@, ':'),
    {
        proof {
            reveal_strlit(":");
        }
        let octets = [self.a, self.b, self.c, self.d, self.e, self.f];
        assert(octets@ =~= self@);
        format_octets(octets.as_slice(), ":")
    }

    /// The link-local IPv6 address made from this hardware address.
    pub fn to_ipv6(self) -> (r: IPv6)
        ensures
            r == eui48_to_ipv6(self),
    {
        IPv6::from(self)
    }
}

impl core::str::FromStr for EUI48 {
    type Err = EUIParseError;

    /// Reads an EUI-48 from text, as `parse` does.
    fn from_str(s: &str) -> (r: Result<Self, Self::Err>)
        ensures
            match r {
                Ok(value) => parse_eui48(s@) == Ok::<EUI48, ParseFault>(value),
                Err(e) => parse_eui48(s@) == Err::<EUI48, ParseFault>(e.kind()) && e.text() == s@,
            },
    {
        Self::parse(s)
    }
}

impl<'a> TryFrom<&'a str> for EUI48 {
    type Error = EUIParseError;

    /// Reads an EUI-48 from text, as `parse` does.
    fn try_from(value: &'a str) -> (r: Result<Self, Self::Error>)
        ensures
            match r {
                Ok(address) => parse_eui48(value@) == Ok::<EUI48, ParseFault>(address),
                Err(e) => parse_eui48(value@) == Err::<EUI48, ParseFault>(e.kind()) && e.text()
                    == value@,
            },
    {
        Self::parse(value)
    }
}

impl<'a> TryFromSpecImpl<&'a str> for EUI48 {
    open spec fn obeys_try_from_spec() -> bool {
        false
    }

    open spec fn try_from_spec(value: &'a str) -> Result<Self, Self::Error> {
        arbitrary()
    }
}

impl TryFrom<String> for EUI48 {
    type Error = EUIParseError;

    /// Reads an EUI-48 from text; an error holds `value` itself.
    fn try_from(value: String) -> (r: Result<Self, Self::Error>)
        ensures
            r == match parse_eui48(value@) {
                Ok(address) => Ok::<EUI48, EUIParseError>(address),
                Err(fault) => Err(parse_error_of(fault, value)),
            },
    {
        match Self::parse(value.as_str()) {
            Ok(address) => Ok(address),
            Err(e) => Err(parse_error(e.kind(), value)),
        }
    }
}

impl TryFromSpecImpl<String> for EUI48 {
    open spec fn obeys_try_from_spec() -> bool {
        true
    }

    open spec fn try_from_spec(value: String) -> Result<Self, Self::Error> {
        match parse_eui48(value@) {
            Ok(address) => Ok(address),
            Err(fault) => Err(parse_error_of(fault, value)),
        }
    }
}

/// A 64-bit identifier: eight octets, `a` first.
#[derive(Debug, Clone, Copy, PartialEq, Eq, Structural)]
pub struct EUI64 {
    pub a: u8,
    pub b: u8,
    pub c: u8,
    pub d: u8,
    pub e: u8,
    pub f: u8,
    pub g: u8,
    pub h: u8,
}

impl View for EUI64 {
    type V = Seq<u8>;

    open spec fn view(&self) -> Seq<u8> {
        seq![self.a, self.b, self.c, self.d, self.e, self.f, self.g, self.h]
    }
}

/// What a text denotes as an EUI-64: the eight octets of its fields.
pub open spec fn parse_eui64(s: Seq<char>) -> Result<EUI64, ParseFault> {
    match eui_octets(s) {
        Err(fault) => Err(fault),
        Ok(o) => if o.len() != 8 {
            Err(ParseFault::InvalidLength)
        } else {
            Ok(EUI64 { a: o[0], b: o[1], c: o[2], d: o[3], e: o[4], f: o[5], g: o[6], h: o[7] })
        },
    }
}

impl EUI64 {
    /// Reads an EUI-64 from text: eight fields of hexadecimal digits with `:` or `-` between them.
    pub fn parse(source: &str) -> (r: Result<Self, EUIParseError>)
        ensures
            match r {
                Ok(value) => parse_eui64(source@) == Ok::<EUI64, ParseFault>(value),
                Err(e) => parse_eui64(source@) == Err::<EUI64, ParseFault>(e.kind()) && e.text()
                    == source@,
            },
    {
        let segments = match parse_eui(source) {
            Ok(segments) => segments,
            Err(e) => {
                return Err(e);
            },
        };
        if segments.len() != 8 {
            return Err(EUIParseError::InvalidLength(source.to_owned()));
        }
        Ok(
            EUI64 {
                a: segments[0],
                b: segments[1],
                c: segments[2],
                d: segments[3],
                e: segments[4],
                f: segments[5],
                g: segments[6],
                h: segments[7],
            },
        )
    }

    /// The eight octets, `a` first.
    pub fn segments(&self) -> (r: [u8; 8])
        ensures
            r@ == self@,
    {
        let r = [self.a, self.b, self.c, self.d, self.e, self.f, self.g, self.h];
        assert(r@ =~= self@);
        r
    }

    /// The identifier as `xx-xx-xx-xx-xx-xx-xx-xx`, in lowercase.
    pub fn hyphenated(&self) -> (r: String)
        ensures
            r@ == eui_text(self@, '-'),
    {
        proof {
            reveal_strlit("-");
        }
        let octets = self.segments();
        format_octets(octets.as_slice(), "-")
    }
}

impl core::str::FromStr for EUI64 {
    type Err = EUIParseError;

    /// Reads an EUI-64 from text, as `parse` does.
    fn from_str(s: &str) -> (r: Result<Self, Self::Err>)
        ensures
            match r {
                Ok(value) => parse_eui64(s@) == Ok::<EUI64, ParseFault>(value),
                Err(e) => parse_eui64(s@) == Err::<EUI64, ParseFault>(e.kind()) && e.text() == s@,
            },
    {
        Self::parse(s)
    }
}

/// A conversion that the address at hand does not allow, with that address.
#[derive(Debug, Clone, Copy, PartialEq, Eq, Structural)]
pub enum EUIConvertError {
    /// The EUI-64 does not hold the extension identifier in its octets `d` and `e`.
    InvalidExtensionIdentifer(EUI64),
    /// The interface identifier of the IPv6 address does not hold the extension identifier.
    InvalidInterfaceIdentifer(IPv6),
    /// The IPv6 address is not a unicast link-local address.
    NotUnicastLinkLocal(IPv6),
}

/// First octet of the extension identifier that marks an EUI-64 made from an EUI-48.
pub const EXTENSION_IDENTIFIER_PREFIX_HIGH: u8 = 0xff;

/// Second octet of the extension identifier.
pub const EXTENSION_IDENTIFIER_PREFIX_LOW: u8 = 0xfe;

/// The EUI-64 that an EUI-48 widens to: the extension identifier goes between
/// its first three octets and its last three.
pub open spec fn eui48_to_eui64(value: EUI48) -> EUI64 {
    EUI64 {
        a: value.a,
        b: value.b,
        c: value.c,
        d: EXTENSION_IDENTIFIER_PREFIX_HIGH,
        e: EXTENSION_IDENTIFIER_PREFIX_LOW,
        f: value.d,
        g: value.e,
        h: value.f,
    }
}

/// The EUI-64 holds the extension identifier in its octets `d` and `e`.
pub open spec fn has_extension_identifier(value: EUI64) -> bool {
    value.d == EXTENSION_IDENTIFIER_PREFIX_HIGH && value.e == EXTENSION_IDENTIFIER_PREFIX_LOW
}

/// The EUI-48 that an EUI-64 narrows to: its octets without the extension
/// identifier, which must be there.
pub open spec fn eui64_to_eui48(value: EUI64) -> Result<EUI48, EUIConvertError> {
    if has_extension_identifier(value) {
        Ok(EUI48 { a: value.a, b: value.b, c: value.c, d: value.f, e: value.g, f: value.h })
    } else {
        Err(EUIConvertError::InvalidExtensionIdentifer(value))
    }
}

impl EUIConvertError {
    /// The diagnostic: the sentence of the refusal, then the address that
    /// was refused. An EUI-64 is written hyphenated; `ipv6_text` stands for
    /// the text of an IPv6 address.
    pub open spec fn diagnostic(&self, ipv6_text: Seq<char>) -> Seq<char> {
        match self {
            Self::InvalidExtensionIdentifer(eui64) => "Invalid extension identifer. "@ + eui_text(
                eui64@,
                '-',
            ),
            Self::InvalidInterfaceIdentifer(_) => "Invalid interface identifer. "@ + ipv6_text,
            Self::NotUnicastLinkLocal(_) => "Not unicast link local address. "@ + ipv6_text,
        }
    }

    /// The diagnostic: the sentence of the refusal, then the address that
    /// was refused. An EUI-64 is written hyphenated; for an IPv6 address the
    /// caller hands in its text as `ipv6_text`.
    pub fn message(&self, ipv6_text: &str) -> (r: String)
        ensures
            r@ == self.diagnostic(ipv6_text@),
    {
        match self {
            Self::InvalidExtensionIdentifer(eui64) => {
                let address = eui64.hyphenated();
                "Invalid extension identifer. ".to_owned().concat(address.as_str())
            },
            Self::InvalidInterfaceIdentifer(_) => {
                "Invalid interface identifer. ".to_owned().concat(ipv6_text)
            },
            Self::NotUnicastLinkLocal(_) => {
                "Not unicast link local address. ".to_owned().concat(ipv6_text)
            },
        }
    }
}

impl From<EUI48> for EUI64 {
    /// Widens an EUI-48 by the extension identifier.
    fn from(value: EUI48) -> (r: Self)
        ensures
            r == eui48_to_eui64(value),
    {
        EUI64 {
            a: value.a,
            b: value.b,
            c: value.c,
            d: EXTENSION_IDENTIFIER_PREFIX_HIGH,
            e: EXTENSION_IDENTIFIER_PREFIX_LOW,
            f: value.d,
            g: value.e,
            h: value.f,
        }
    }
}

impl FromSpecImpl<EUI48> for EUI64 {
    open spec fn obeys_from_spec() -> bool {
        true
    }

    open spec fn from_spec(value: EUI48) -> Self {
        eui48_to_eui64(value)
    }
}

impl TryFrom<EUI64> for EUI48 {
    type Error = EUIConvertError;

    /// Narrows an EUI-64 that holds the extension identifier.
    fn try_from(value: EUI64) -> (r: Result<Self, Self::Error>)
        ensures
            r == eui64_to_eui48(value),
    {
        if value.d != EXTENSION_IDENTIFIER_PREFIX_HIGH {
            return Err(EUIConvertError::InvalidExtensionIdentifer(value));
        }
        if value.e != EXTENSION_IDENTIFIER_PREFIX_LOW {
            return Err(EUIConvertError::InvalidExtensionIdentifer(value));
        }
        Ok(EUI48 { a: value.a, b: value.b, c: value.c, d: value.f, e: value.g, f: value.h })
    }
}

impl TryFromSpecImpl<EUI64> for EUI48 {
    open spec fn obeys_try_from_spec() -> bool {
        true
    }

    open spec fn try_from_spec(value: EUI64) -> Result<Self, Self::Error> {
        eui64_to_eui48(value)
    }
}

/// Narrowing what an EUI-48 widened to gives that EUI-48 back.
pub proof fn lemma_widen_then_narrow(value: EUI48)
    ensures
        has_extension_identifier(eui48_to_eui64(value)),
        eui64_to_eui48(eui48_to_eui64(value)) == Ok::<EUI48, EUIConvertError>(value),
{
}

/// An EUI-64 without the extension identifier does not narrow, and the
/// refusal carries it.
pub proof fn lemma_narrow_needs_extension_identifier(value: EUI64)
    requires
        value.d != EXTENSION_IDENTIFIER_PREFIX_HIGH || value.e != EXTENSION_IDENTIFIER_PREFIX_LOW,
    ensures
        eui64_to_eui48(value) == Err::<EUI48, EUIConvertError>(
            EUIConvertError::InvalidExtensionIdentifer(value),
        ),
{
}

/// Widening what an EUI-64 narrowed to gives that EUI-64 back.
pub proof fn lemma_narrow_then_widen(value: EUI64)
    requires
        eui64_to_eui48(value) is Ok,
    ensures
        eui48_to_eui64(eui64_to_eui48(value)->Ok_0) == value,
{
}

impl TryFrom<IPv6> for EUI64 {
    type Error = EUIConvertError;

    /// Reads the EUI-64 out of the interface identifier of a link-local address.
    fn try_from(value: IPv6) -> (r: Result<Self, Self::Error>)
        ensures
            r == ipv6_to_eui64(value),
    {
        if !value.is_unicast_link_local() {
            return Err(EUIConvertError::NotUnicastLinkLocal(value));
        }
        let segments = value.segments();
        let (a, b) = split_group(segments[4]);
        let (c, d) = split_group(segments[5]);
        let (e, f) = split_group(segments[6]);
        let (g, h) = split_group(segments[7]);
        let a = a ^ UNIVERSAL_LOCAL_BIT;
        if d != EXTENSION_IDENTIFIER_PREFIX_HIGH {
            return Err(EUIConvertError::InvalidInterfaceIdentifer(value));
        }
        if e != EXTENSION_IDENTIFIER_PREFIX_LOW {
            return Err(EUIConvertError::InvalidInterfaceIdentifer(value));
        }
        Ok(EUI64 { a, b, c, d, e, f, g, h })
    }
}

impl TryFromSpecImpl<IPv6> for EUI64 {
    open spec fn obeys_try_from_spec() -> bool {
        true
    }

    open spec fn try_from_spec(value: IPv6) -> Result<Self, Self::Error> {
        ipv6_to_eui64(value)
    }
}

impl TryFrom<IPv6> for EUI48 {
    type Error = EUIConvertError;

    /// Reads the EUI-64 out of a link-local address and narrows it; the
    /// first refusal on the way is the result.
    fn try_from(value: IPv6) -> (r: Result<Self, Self::Error>)
        ensures
            r == ipv6_to_eui48(value),
    {
        let eui64 = match EUI64::try_from(value) {
            Ok(eui64) => eui64,
            Err(e) => {
                return Err(e);
            },
        };
        EUI48::try_from(eui64)
    }
}

impl TryFromSpecImpl<IPv6> for EUI48 {
    open spec fn obeys_try_from_spec() -> bool {
        true
    }

    open spec fn try_from_spec(value: IPv6) -> Result<Self, Self::Error> {
        ipv6_to_eui48(value)
    }
}

/// The text of an EUI-48, hyphenated or colon-separated, reads back as that EUI-48.
pub proof fn lemma_eui48_text_round_trip(value: EUI48, separator: char)
    requires
        is_separator(separator),
    ensures
        parse_eui48(eui_text(value@, separator)) == Ok::<EUI48, ParseFault>(value),
{
    lemma_text_denotes_octets(value@, separator);
}

/// The text of an EUI-64 reads back as that EUI-64.
pub proof fn lemma_eui64_text_round_trip(value: EUI64, separator: char)
    requires
        is_separator(separator),
    ensures
        parse_eui64(eui_text(value@, separator)) == Ok::<EUI64, ParseFault>(value),
{
    lemma_text_denotes_octets(value@, separator);
}

/// Two texts that differ only in which separator stands between the fields
/// and in the case of the digits read as the same EUI-48 and as the same
/// EUI-64, or are rejected with the same fault.
pub proof fn lemma_parse_ignores_separator_and_case(s: Seq<char>, t: Seq<char>)
    requires
        s.len() == t.len(),
        alike_before(s, t, s.len() as int),
    ensures
        parse_eui48(s) == parse_eui48(t),
        parse_eui64(s) == parse_eui64(t),
{
    lemma_alike_texts(s, t);
}

} // verus!
