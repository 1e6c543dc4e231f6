use mac_ipv6::cli::{Answer, ExecutionError, CLI};
use mac_ipv6::eui::{EUIConvertError, EUI48, EUI64};
use mac_ipv6::ipv6::{IPv6, IPv6ParseError};

/// The groups of `fe80::300:5eff:fe90:10ff`.
const LINK_LOCAL: [u16; 8] = [0xfe80, 0, 0, 0, 0x0300, 0x5eff, 0xfe90, 0x10ff];

fn cli(colon_separeted: bool, upcase: bool, address: &str) -> CLI {
    CLI { colon_separeted, upcase, address: String::from(address) }
}

#[test]
fn cased_keeps_or_raises() {
    assert_eq!("fe80::300:5eff", cli(false, false, "").cased(String::from("fe80::300:5eff")));
    assert_eq!("FE80::300:5EFF", cli(false, true, "").cased(String::from("fe80::300:5eff")));
}

#[test]
fn ipv6_to_mac_address_follows_the_options() {
    let ipv6 = IPv6::from_segments(LINK_LOCAL);
    let text = "fe80::300:5eff:fe90:10ff";
    let line = cli(false, false, text).ipv6_to_mac_address(ipv6, text).unwrap();
    assert_eq!("01-00-5e-90-10-ff", line);
    let line = cli(true, false, text).ipv6_to_mac_address(ipv6, text).unwrap();
    assert_eq!("01:00:5e:90:10:ff", line);
    let line = cli(false, true, text).ipv6_to_mac_address(ipv6, text).unwrap();
    assert_eq!("01-00-5E-90-10-FF", line);
    let line = cli(true, true, text).ipv6_to_mac_address(ipv6, text).unwrap();
    assert_eq!("01:00:5E:90:10:FF", line);
}

#[test]
fn ipv6_to_mac_address_reports_the_refusal() {
    let global = IPv6::from_segments([0x2001, 0x0db8, 0, 0, 0, 0, 0, 1]);
    let e = cli(false, false, "2001:db8::1").ipv6_to_mac_address(global, "2001:db8::1").unwrap_err();
    assert_eq!("Not unicast link local address. 2001:db8::1", e.message());
    let plain = IPv6::from_segments([0xfe80, 0, 0, 0, 0, 0, 0, 1]);
    let e = cli(false, true, "fe80::1").ipv6_to_mac_address(plain, "fe80::1").unwrap_err();
    assert_eq!("Invalid interface identifer. fe80::1", e.message());
}

#[test]
fn is_mac_address_is_what_parses() {
    assert!(cli(false, false, "01-00-5E-90-10-FF").is_mac_address());
    assert!(cli(false, false, "01:00:5e:90:10:ff").is_mac_address());
    assert!(!cli(false, false, "01-00-5E-90-10-FG").is_mac_address());
    assert!(!cli(false, false, "01-00-5E-FF-FE-90-10-FF").is_mac_address());
    assert!(!cli(false, false, "fe80::1").is_mac_address());
    assert!(!cli(false, false, "").is_mac_address());
}

#[test]
fn mac_address_to_ipv6_converts_the_argument() {
    let ipv6 = cli(false, false, "01-00-5E-90-10-FF").mac_address_to_ipv6().unwrap();
    assert_eq!(LINK_LOCAL, ipv6.segments());
    let e = cli(false, false, "01-00-5E-90-10-FG").mac_address_to_ipv6().unwrap_err();
    assert_eq!("MAC address contains invalid characters. 01-00-5E-90-10-FG", e.message());
}

#[test]
fn run_inner_takes_an_ipv6_address_first() {
    let ipv6 = IPv6::from_segments(LINK_LOCAL);
    let text = "fe80::300:5eff:fe90:10ff";
    match cli(true, true, text).run_inner(Some(ipv6), text) {
        Ok(Answer::MacAddress(line)) => assert_eq!("01:00:5E:90:10:FF", line),
        other => panic!("{:?}", other),
    }
    let global = IPv6::from_segments([0x2001, 0x0db8, 0, 0, 0, 0, 0, 1]);
    match cli(false, false, "2001:db8::1").run_inner(Some(global), "2001:db8::1") {
        Err(e) => assert_eq!("Not unicast link local address. 2001:db8::1", e.message()),
        other => panic!("{:?}", other),
    }
}

#[test]
fn run_inner_takes_a_mac_address_next() {
    match cli(false, true, "01-00-5E-90-10-FF").run_inner(None, "") {
        Ok(Answer::Ipv6(address)) => assert_eq!(LINK_LOCAL, address.segments()),
        other => panic!("{:?}", other),
    }
}

#[test]
fn run_inner_refuses_anything_else() {
    match cli(false, false, "01-00-5E-90-10-FG").run_inner(None, "") {
        Err(e) => assert_eq!("Not IPv6 or MAC Address.", e.message()),
        other => panic!("{:?}", other),
    }
    match cli(false, false, "").run_inner(None, "") {
        Err(e) => assert_eq!("Not IPv6 or MAC Address.", e.message()),
        other => panic!("{:?}", other),
    }
}

#[test]
fn execution_error_holds_the_diagnostic() {
    let e = EUI48::parse("01").unwrap_err();
    assert_eq!(
        "Invalid MAC Address length. 01",
        ExecutionError::from_eui_parse_error(&e).message()
    );
    let e = IPv6ParseError::InvalidFormat(String::from("invalid IPv6 address syntax"));
    assert_eq!(
        "IPv6 address format is incorrect. invalid IPv6 address syntax",
        ExecutionError::from_ipv6_parse_error(&e).message()
    );
    let unmarked = EUI64 { a: 1, b: 2, c: 3, d: 4, e: 5, f: 6, g: 7, h: 8 };
    let e = EUIConvertError::InvalidExtensionIdentifer(unmarked);
    assert_eq!(
        "Invalid extension identifer. 01-02-03-04-05-06-07-08",
        ExecutionError::from_convert_error(&e, "").message()
    );
    assert_eq!("x", ExecutionError(String::from("x")).message());
}
