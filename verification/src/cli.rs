//! What one run of the command line is asked and what it answers: which
//! conversion the argument calls for, and how the result is shown.

use vstd::prelude::*;
use vstd::string::*;
use crate::eui::{parse_eui48, EUI48, EUIConvertError, EUIParseError};
use crate::grammar::eui_text;
use crate::ipv6::{eui48_to_ipv6, ipv6_to_eui48, IPv6, IPv6ParseError};

verus! {

/// The uppercase form of a text, as `str::to_uppercase` gives it.
pub uninterp spec fn uppercase(text: Seq<char>) -> Seq<char>;

/// Calls `str::to_uppercase`, which maps each character to its uppercase
/// equivalent by the rules of Unicode. The contract only names the result.
#[verifier::external_body]
fn to_uppercase(text: &str) -> (r: String)
    ensures
        r@ == uppercase(text@),
{
    text.to_uppercase()
}

/// The one line that a failed run prints.
#[derive(Debug)]
pub struct ExecutionError(pub String);

impl View for ExecutionError {
    type V = Seq<char>;

    open spec fn view(&self) -> Seq<char> {
        self.0@
    }
}

/// The line for an argument that is neither kind of address.
pub open spec fn not_an_address() -> Seq<char> {
    "Not IPv6 or MAC Address."@
}

impl ExecutionError {
    /// The line to print.
    pub fn message(&self) -> (r: String)
        ensures
            r@ == self@,
    {
        self.0.clone()
    }

    /// The failure that a rejected IPv6 text gives.
    pub fn from_ipv6_parse_error(value: &IPv6ParseError) -> (r: Self)
        ensures
            r@ == value.diagnostic(),
    {
        ExecutionError(value.message())
    }

    /// The failure that a rejected EUI text gives.
    pub fn from_eui_parse_error(value: &EUIParseError) -> (r: Self)
        ensures
            r@ == value.diagnostic(),
    {
        ExecutionError(value.message())
    }

    /// The failure that a refused conversion gives; `ipv6_text` is the text
    /// of the IPv6 address that was being converted.
    pub fn from_convert_error(value: &EUIConvertError, ipv6_text: &str) -> (r: Self)
        ensures
            r@ == value.diagnostic(ipv6_text@),
    {
        ExecutionError(value.message(ipv6_text))
    }
}

/// What a run answers with.
#[derive(Debug)]
pub enum Answer {
    /// A hardware address, written as the options ask: the line to print.
    MacAddress(String),
    /// An IPv6 address, still to be written as text and put in the case
    /// that the options ask for.
    Ipv6(IPv6),
}

/// The options and the argument of one run.
#[derive(Debug)]
pub struct CLI {
    /// Show a hardware address with colons, not hyphens.
    pub colon_separeted: bool,
    /// Show the result in uppercase.
    pub upcase: bool,
    /// The address to convert, of either kind.
    pub address: String,
}

impl CLI {
    /// The text of a hardware address as the options ask for it.
    pub open spec fn mac_address_text(&self, mac_address: EUI48) -> Seq<char> {
        let text = eui_text(
            mac_address@,
            if self.colon_separeted {
                ':'
            } else {
                '-'
            },
        );
        if self.upcase {
            uppercase(text)
        } else {
            text
        }
    }

    /// Whether the argument reads as a hardware address.
    pub fn is_mac_address(&self) -> (r: bool)
        ensures
            r == parse_eui48(self.address@) is Ok,
    {
        EUI48::parse(self.address.as_str()).is_ok()
    }

    /// A text in the case that the options ask for.
    pub fn cased(&self, text: String) -> (r: String)
        ensures
            r@ == if self.upcase {
                uppercase(text@)
            } else {
                text@
            },
    {
        if self.upcase {
            to_uppercase(text.as_str())
        } else {
            text
        }
    }

    /// The hardware address behind an IPv6 address, written as the options
    /// ask. `ipv6_text` is the text of `ipv6`, for the diagnostic.
    pub fn ipv6_to_mac_address(&self, ipv6: IPv6, ipv6_text: &str) -> (r: Result<
        String,
        ExecutionError,
    >)
        ensures
            match ipv6_to_eui48(ipv6) {
                Ok(mac_address) => r matches Ok(line) && line@ == self.mac_address_text(
                    mac_address,
                ),
                Err(refusal) => r matches Err(e) && e@ == refusal.diagnostic(ipv6_text@),
            },
    {
        let mac_address = match ipv6.to_mac_address() {
            Ok(mac_address) => mac_address,
            Err(e) => {
                return Err(ExecutionError::from_convert_error(&e, ipv6_text));
            },
        };
        let line = if self.colon_separeted {
            mac_address.colon_separated()
        } else {
            mac_address.hyphenated()
        };
        Ok(self.cased(line))
    }

    /// The IPv6 address that the argument, read as a hardware address, makes.
    pub fn mac_address_to_ipv6(&self) -> (r: Result<IPv6, ExecutionError>)
        ensures
            match parse_eui48(self.address@) {
                Ok(mac_address) => r == Ok::<IPv6, ExecutionError>(eui48_to_ipv6(mac_address)),
                Err(fault) => r matches Err(e) && e@ == crate::eui::fault_sentence(fault)
                    + self.address@,
            },
    {
        match EUI48::parse(self.address.as_str()) {
            Ok(mac_address) => Ok(mac_address.to_ipv6()),
            Err(e) => Err(ExecutionError::from_eui_parse_error(&e)),
        }
    }

    /// The answer of one run. `ipv6` is the argument read as an IPv6
    /// address, where it is one, and `ipv6_text` the text of that address.
    /// An IPv6 address is asked for its hardware address. Any other argument
    /// is read as a hardware address and asked for its IPv6 address; if it is
    /// none either, the run fails.
    pub fn run_inner(&self, ipv6: Option<IPv6>, ipv6_text: &str) -> (r: Result<
        Answer,
        ExecutionError,
    >)
        ensures
            match ipv6 {
                Some(address) => match ipv6_to_eui48(address) {
                    Ok(mac_address) => r matches Ok(Answer::MacAddress(line)) && line@
                        == self.mac_address_text(mac_address),
                    Err(refusal) => r matches Err(e) && e@ == refusal.diagnostic(ipv6_text@),
                },
                None => match parse_eui48(self.address@) {
                    Ok(mac_address) => r matches Ok(Answer::Ipv6(address)) && address
                        == eui48_to_ipv6(mac_address),
                    Err(_) => r matches Err(e) && e@ == not_an_address(),
                },
            },
    {
        match ipv6 {
            Some(address) => {
                match self.ipv6_to_mac_address(address, ipv6_text) {
                    Ok(line) => Ok(Answer::MacAddress(line)),
                    Err(e) => Err(e),
                }
            },
            None => {
                if self.is_mac_address() {
                    match self.mac_address_to_ipv6() {
                        Ok(address) => Ok(Answer::Ipv6(address)),
                        Err(e) => Err(e),
                    }
                } else {
                    Err(ExecutionError("Not IPv6 or MAC Address.".to_owned()))
                }
            },
        }
    }
}

} // verus!
