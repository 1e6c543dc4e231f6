//! IPv6 addresses as eight 16-bit groups, and the link-local address that a
//! Modified EUI-64 interface identifier gives.

use vstd::prelude::*;
use vstd::string::*;
use vstd::std_specs::convert::FromSpecImpl;
use crate::eui::{
    eui48_to_eui64, eui64_to_eui48, has_extension_identifier, EUIConvertError, EUI48, EUI64,
};

verus! {

/// A text that is no IPv6 address, with the reason as its reader gave it.
#[derive(Debug)]
pub enum IPv6ParseError {
    InvalidFormat(String),
}

impl IPv6ParseError {
    /// The reason that the error carries.
    pub open spec fn reason(&self) -> Seq<char> {
        match self {
            Self::InvalidFormat(value) => value@,
        }
    }

    /// The diagnostic: a fixed sentence, then the reason.
    pub open spec fn diagnostic(&self) -> Seq<char> {
        "IPv6 address format is incorrect. "@ + self.reason()
    }

    /// The diagnostic: a fixed sentence, then the reason.
    pub fn message(&self) -> (r: String)
        ensures
            r@ == self.diagnostic(),
    {
        match self {
            Self::InvalidFormat(value) => {
                "IPv6 address format is incorrect. ".to_owned().concat(value.as_str())
            },
        }
    }
}

/// An IPv6 address, held as its eight 16-bit groups in text order.
#[derive(Debug, Clone, Copy, PartialEq, Eq, Structural)]
pub struct IPv6 {
    pub g0: u16,
    pub g1: u16,
    pub g2: u16,
    pub g3: u16,
    pub g4: u16,
    pub g5: u16,
    pub g6: u16,
    pub g7: u16,
}

impl View for IPv6 {
    type V = Seq<u16>;

    open spec fn view(&self) -> Seq<u16> {
        seq![self.g0, self.g1, self.g2, self.g3, self.g4, self.g5, self.g6, self.g7]
    }
}

impl IPv6 {
    /// The address with the given groups.
    pub fn from_segments(segments: [u16; 8]) -> (r: Self)
        ensures
            r@ == segments@,
    {
        let r = IPv6 {
            g0: segments[0],
            g1: segments[1],
            g2: segments[2],
            g3: segments[3],
            g4: segments[4],
            g5: segments[5],
            g6: segments[6],
            g7: segments[7],
        };
        assert(r@ =~= segments@);
        r
    }

    /// The eight groups of the address.
    pub fn segments(&self) -> (r: [u16; 8])
        ensures
            r@ == self@,
    {
        let r = [self.g0, self.g1, self.g2, self.g3, self.g4, self.g5, self.g6, self.g7];
        assert(r@ =~= self@);
        r
    }
}

/// The 16-bit group with the given high and low octets.
pub open spec fn group_of(high: u8, low: u8) -> u16 {
    (high as u16) << 8 | (low as u16)
}

/// The high octet of a group.
pub open spec fn high_octet(group: u16) -> u8 {
    (group >> 8) as u8
}

/// The low octet of a group.
pub open spec fn low_octet(group: u16) -> u8 {
    (group & 0xff) as u8
}

/// The first group of every address that an EUI-64 gives.
pub const LINK_LOCAL_PREFIX: u16 = 0xfe80;

/// The universal/local bit of the first octet, which the interface identifier holds flipped.
pub const UNIVERSAL_LOCAL_BIT: u8 = 0x02;

/// The link-local address whose interface identifier is the Modified EUI-64
/// of `value`: prefix `fe80`, three zero groups, then the eight octets with
/// the universal/local bit of the first one flipped.
pub open spec fn eui64_to_ipv6(value: EUI64) -> IPv6 {
    IPv6 {
        g0: LINK_LOCAL_PREFIX,
        g1: 0,
        g2: 0,
        g3: 0,
        g4: group_of(value.a ^ UNIVERSAL_LOCAL_BIT, value.b),
        g5: group_of(value.c, value.d),
        g6: group_of(value.e, value.f),
        g7: group_of(value.g, value.h),
    }
}

/// The link-local address of an EUI-48: that of the EUI-64 it widens to.
pub open spec fn eui48_to_ipv6(value: EUI48) -> IPv6 {
    eui64_to_ipv6(eui48_to_eui64(value))
}

/// The address lies in `fe80::/10`: its first ten bits are `1111111010`.
/// The bits that follow, up to the interface identifier, are not looked at.
pub open spec fn unicast_link_local(address: IPv6) -> bool {
    address.g0 & 0xffc0 == 0xfe80
}

/// The eight octets of the interface identifier, the universal/local bit of
/// the first one flipped back.
pub open spec fn interface_identifier(address: IPv6) -> EUI64 {
    EUI64 {
        a: high_octet(address.g4) ^ UNIVERSAL_LOCAL_BIT,
        b: low_octet(address.g4),
        c: high_octet(address.g5),
        d: low_octet(address.g5),
        e: high_octet(address.g6),
        f: low_octet(address.g6),
        g: high_octet(address.g7),
        h: low_octet(address.g7),
    }
}

/// The EUI-64 behind a link-local address: its interface identifier, which
/// must hold the extension identifier; an address outside `fe80::/10` is
/// refused first.
pub open spec fn ipv6_to_eui64(address: IPv6) -> Result<EUI64, EUIConvertError> {
    if !unicast_link_local(address) {
        Err(EUIConvertError::NotUnicastLinkLocal(address))
    } else if !has_extension_identifier(interface_identifier(address)) {
        Err(EUIConvertError::InvalidInterfaceIdentifer(address))
    } else {
        Ok(interface_identifier(address))
    }
}

/// The EUI-48 behind a link-local address: the narrowing of its EUI-64.
pub open spec fn ipv6_to_eui48(address: IPv6) -> Result<EUI48, EUIConvertError> {
    match ipv6_to_eui64(address) {
        Err(e) => Err(e),
        Ok(eui64) => eui64_to_eui48(eui64),
    }
}

/// Joins two octets into a group.
pub fn join_octets(high: u8, low: u8) -> (r: u16)
    ensures
        r == group_of(high, low),
        high_octet(r) == high,
        low_octet(r) == low,
{
    let r = (high as u16) << 8 | (low as u16);
    assert(((((high as u16) << 8 | (low as u16)) >> 8) as u8) == high) by (bit_vector);
    assert(((((high as u16) << 8 | (low as u16)) & 0xff) as u8) == low) by (bit_vector);
    r
}

/// Splits a group into its high and its low octet.
pub fn split_group(group: u16) -> (r: (u8, u8))
    ensures
        r.0 == high_octet(group),
        r.1 == low_octet(group),
        group_of(r.0, r.1) == group,
{
    let high = group >> 8;
    let low = group & 0xff;
    assert(high < 256 && low < 256) by (bit_vector)
        requires
            high == group >> 8,
            low == group & 0xff,
    ;
    assert((((group >> 8) as u8) as u16) << 8 | (((group & 0xff) as u8) as u16) == group)
        by (bit_vector);
    (high as u8, low as u8)
}

impl IPv6 {
    /// Whether the address is a unicast address of link-local scope, that is,
    /// lies in `fe80::/10`.
    pub fn is_unicast_link_local(&self) -> (r: bool)
        ensures
            r == unicast_link_local(*self),
    {
        self.g0 & 0xffc0 == 0xfe80
    }

    /// The hardware address from which this link-local address was made.
    pub fn to_mac_address(self) -> (r: Result<EUI48, EUIConvertError>)
        ensures
            r == ipv6_to_eui48(self),
    {
        EUI48::try_from(self)
    }
}

impl From<EUI64> for IPv6 {
    /// Makes the link-local address whose interface identifier is the
    /// Modified EUI-64 of `value`.
    fn from(value: EUI64) -> (r: Self)
        ensures
            r == eui64_to_ipv6(value),
    {
        let segments = value.segments();
        IPv6 {
            g0: LINK_LOCAL_PREFIX,
            g1: 0,
            g2: 0,
            g3: 0,
            g4: join_octets(segments[0] ^ UNIVERSAL_LOCAL_BIT, segments[1]),
            g5: join_octets(segments[2], segments[3]),
            g6: join_octets(segments[4], segments[5]),
            g7: join_octets(segments[6], segments[7]),
        }
    }
}

impl FromSpecImpl<EUI64> for IPv6 {
    open spec fn obeys_from_spec() -> bool {
        true
    }

    open spec fn from_spec(value: EUI64) -> Self {
        eui64_to_ipv6(value)
    }
}

impl From<EUI48> for IPv6 {
    /// Widens an EUI-48 and makes the link-local address of the result.
    fn from(value: EUI48) -> (r: Self)
        ensures
            r == eui48_to_ipv6(value),
    {
        let eui64 = EUI64::from(value);
        IPv6::from(eui64)
    }
}

impl FromSpecImpl<EUI48> for IPv6 {
    open spec fn obeys_from_spec() -> bool {
        true
    }

    open spec fn from_spec(value: EUI48) -> Self {
        eui48_to_ipv6(value)
    }
}

/// Splitting a group that two octets were joined into gives the octets back.
pub proof fn lemma_split_joined(high: u8, low: u8)
    ensures
        high_octet(group_of(high, low)) == high,
        low_octet(group_of(high, low)) == low,
{
    assert(((((high as u16) << 8 | (low as u16)) >> 8) as u8) == high) by (bit_vector);
    assert(((((high as u16) << 8 | (low as u16)) & 0xff) as u8) == low) by (bit_vector);
}

/// Joining the two octets that a group was split into gives the group back.
pub proof fn lemma_join_split(group: u16)
    ensures
        group_of(high_octet(group), low_octet(group)) == group,
{
    assert((((group >> 8) as u8) as u16) << 8 | (((group & 0xff) as u8) as u16) == group)
        by (bit_vector);
}

/// Groups and octets as numbers: the high octet counts 256 times.
pub proof fn lemma_group_arithmetic(high: u8, low: u8, group: u16)
    ensures
        group_of(high, low) == 256 * high + low,
        high_octet(group) == group / 256,
        low_octet(group) == group % 256,
{
    assert(((high as u16) << 8 | (low as u16)) == 256 * (high as u16) + (low as u16))
        by (bit_vector);
    assert((group >> 8) == group / 256) by (bit_vector);
    assert((group & 0xff) == group % 256) by (bit_vector);
}

/// Flipping the universal/local bit adds 2 to an octet that has the bit
/// clear and takes 2 from one that has it set.
pub proof fn lemma_flip_arithmetic(octet: u8)
    ensures
        (octet / 2) % 2 == 0 ==> octet ^ UNIVERSAL_LOCAL_BIT == octet + 2,
        (octet / 2) % 2 == 1 ==> octet ^ UNIVERSAL_LOCAL_BIT == octet - 2,
{
    assert((octet / 2) % 2 == 0 ==> octet ^ 0x02u8 == octet + 2) by (bit_vector);
    assert((octet / 2) % 2 == 1 ==> octet ^ 0x02u8 == octet - 2) by (bit_vector);
}

/// Flipping the universal/local bit twice changes nothing.
pub proof fn lemma_flip_twice(octet: u8)
    ensures
        (octet ^ UNIVERSAL_LOCAL_BIT) ^ UNIVERSAL_LOCAL_BIT == octet,
{
    assert((octet ^ 0x02u8) ^ 0x02u8 == octet) by (bit_vector);
}

/// Every address made from an EUI-64 is a unicast link-local address whose
/// interface identifier is that EUI-64.
pub proof fn lemma_interface_identifier_of_eui64(value: EUI64)
    ensures
        unicast_link_local(eui64_to_ipv6(value)),
        interface_identifier(eui64_to_ipv6(value)) == value,
{
    assert(0xfe80u16 & 0xffc0u16 == 0xfe80u16) by (bit_vector);
    lemma_split_joined((value.a ^ UNIVERSAL_LOCAL_BIT) as u8, value.b);
    lemma_split_joined(value.c, value.d);
    lemma_split_joined(value.e, value.f);
    lemma_split_joined(value.g, value.h);
    lemma_flip_twice(value.a);
}

/// An address outside `fe80::/10` gives no EUI-64, and the refusal carries it.
pub proof fn lemma_needs_link_local(address: IPv6)
    requires
        address.g0 & 0xffc0 != 0xfe80,
    ensures
        ipv6_to_eui64(address) == Err::<EUI64, EUIConvertError>(
            EUIConvertError::NotUnicastLinkLocal(address),
        ),
        ipv6_to_eui48(address) == Err::<EUI48, EUIConvertError>(
            EUIConvertError::NotUnicastLinkLocal(address),
        ),
{
}

/// An EUI-64 that holds the extension identifier comes back from the
/// link-local address made from it.
pub proof fn lemma_eui64_round_trip(value: EUI64)
    requires
        has_extension_identifier(value),
    ensures
        ipv6_to_eui64(eui64_to_ipv6(value)) == Ok::<EUI64, EUIConvertError>(value),
{
    lemma_interface_identifier_of_eui64(value);
}

/// An EUI-48 comes back from the link-local address made from it.
pub proof fn lemma_eui48_round_trip(value: EUI48)
    ensures
        ipv6_to_eui48(eui48_to_ipv6(value)) == Ok::<EUI48, EUIConvertError>(value),
{
    lemma_eui64_round_trip(eui48_to_eui64(value));
}

/// An address that an EUI-64 can be read from is, if its first four groups
/// are `fe80:0:0:0`, the address made from that EUI-64.
pub proof fn lemma_ipv6_round_trip(address: IPv6)
    requires
        address.g0 == LINK_LOCAL_PREFIX,
        address.g1 == 0,
        address.g2 == 0,
        address.g3 == 0,
        ipv6_to_eui64(address) is Ok,
    ensures
        eui64_to_ipv6(ipv6_to_eui64(address)->Ok_0) == address,
{
    lemma_flip_twice(high_octet(address.g4));
    lemma_join_split(address.g4);
    lemma_join_split(address.g5);
    lemma_join_split(address.g6);
    lemma_join_split(address.g7);
}

} // verus!
