use mac_ipv6::eui::{parse_eui, EUIParseError, EUI48, EUI64};
use mac_ipv6::grammar::ParseFault;
use mac_ipv6::hex::{digit_value, push_hex_pair};

const MAC: EUI48 = EUI48 { a: 0x01, b: 0x00, c: 0x5e, d: 0x90, e: 0x10, f: 0xff };

#[test]
fn digit_values_cover_both_cases() {
    assert_eq!(Some(0), digit_value('0'));
    assert_eq!(Some(9), digit_value('9'));
    assert_eq!(Some(10), digit_value('a'));
    assert_eq!(Some(15), digit_value('f'));
    assert_eq!(Some(10), digit_value('A'));
    assert_eq!(Some(15), digit_value('F'));
    assert_eq!(None, digit_value('g'));
    assert_eq!(None, digit_value('G'));
    assert_eq!(None, digit_value(':'));
    assert_eq!(None, digit_value('/'));
    assert_eq!(None, digit_value('@'));
    assert_eq!(None, digit_value('`'));
    assert_eq!(None, digit_value('é'));
}

#[test]
fn hex_pair_is_two_lowercase_digits() {
    let mut text = String::from(">");
    push_hex_pair(&mut text, 0x00);
    push_hex_pair(&mut text, 0x0a);
    push_hex_pair(&mut text, 0x9f);
    push_hex_pair(&mut text, 0xff);
    assert_eq!(">000a9fff", text);
}

#[test]
fn parse_eui_gives_the_octets_of_the_fields() {
    assert_eq!(vec![0x01, 0x00, 0x5e], parse_eui("01:00:5e").unwrap());
    assert_eq!(vec![0xab], parse_eui("ab").unwrap());
    assert_eq!(vec![0xab], parse_eui("AB").unwrap());
    assert_eq!(
        vec![1, 2, 3, 4, 5, 6, 7, 8, 9, 10],
        parse_eui("01-02-03-04-05-06-07-08-09-0a").unwrap()
    );
}

#[test]
fn all_spellings_give_one_value() {
    assert_eq!(MAC, EUI48::parse("01:00:5e:90:10:ff").unwrap());
    assert_eq!(MAC, EUI48::parse("01-00-5e-90-10-ff").unwrap());
    assert_eq!(MAC, EUI48::parse("01:00:5E:90:10:FF").unwrap());
    assert_eq!(MAC, EUI48::parse("01-00-5E-90-10-FF").unwrap());
}

#[test]
fn mixed_separators_are_accepted() {
    assert_eq!(MAC, EUI48::parse("01:00-5e:90-10:ff").unwrap());
}

#[test]
fn canonical_text_is_lowercase() {
    assert_eq!("01-00-5e-90-10-ff", MAC.hyphenated());
    assert_eq!("01:00:5e:90:10:ff", MAC.colon_separated());
    let eui64 = EUI64 { a: 0x01, b: 0x00, c: 0x5e, d: 0xff, e: 0xfe, f: 0x90, g: 0x10, h: 0xff };
    assert_eq!("01-00-5e-ff-fe-90-10-ff", eui64.hyphenated());
}

#[test]
fn text_reads_back() {
    let all = EUI48 { a: 0xff, b: 0xfe, c: 0x0f, d: 0xf0, e: 0x00, f: 0xa9 };
    assert_eq!(all, EUI48::parse(all.hyphenated().as_str()).unwrap());
    assert_eq!(all, EUI48::parse(all.colon_separated().as_str()).unwrap());
    let eui64 = EUI64 { a: 0, b: 1, c: 2, d: 0xfd, e: 0xfe, f: 0xff, g: 0x7f, h: 0x80 };
    assert_eq!(eui64, EUI64::parse(eui64.hyphenated().as_str()).unwrap());
}

#[test]
fn empty_text_has_invalid_length() {
    assert!(matches!(EUI48::parse(""), Err(EUIParseError::InvalidLength(_))));
    assert!(matches!(parse_eui(""), Err(EUIParseError::InvalidLength(_))));
}

#[test]
fn wrong_byte_count_has_invalid_length() {
    assert!(matches!(
        EUI48::parse("01-00-5E-90-10-F"),
        Err(EUIParseError::InvalidLength(_))
    ));
    assert!(matches!(
        EUI48::parse("01-00-5E-90-10-FFF"),
        Err(EUIParseError::InvalidLength(_))
    ));
    assert!(matches!(
        EUI48::parse("01-00-5E-90-10-"),
        Err(EUIParseError::InvalidLength(_))
    ));
}

#[test]
fn wrong_octet_count_has_invalid_length() {
    let e = EUI48::parse("01-00-5E-FF-FE-90-10-FF").unwrap_err();
    assert_eq!(ParseFault::InvalidLength, e.kind());
    assert_eq!("Invalid MAC Address length. 01-00-5E-FF-FE-90-10-FF", e.message());
    let e = EUI64::parse("01-00-5E-90-10-FF").unwrap_err();
    assert_eq!(ParseFault::InvalidLength, e.kind());
    assert_eq!("Invalid MAC Address length. 01-00-5E-90-10-FF", e.message());
    assert!(matches!(EUI48::parse("01"), Err(EUIParseError::InvalidLength(_))));
}

#[test]
fn other_characters_are_invalid() {
    assert!(matches!(
        EUI48::parse("01-00-5E-90-10-FG"),
        Err(EUIParseError::InvalidChar(_))
    ));
    assert!(matches!(
        EUI48::parse("01-00-5E-90-10/FF"),
        Err(EUIParseError::InvalidChar(_))
    ));
    assert!(matches!(
        EUI48::parse("01 00 5E 90 10 FF"),
        Err(EUIParseError::InvalidChar(_))
    ));
}

#[test]
fn length_counts_bytes() {
    // fifteen bytes and a character of two bytes: the length passes, the character does not
    let e = EUI48::parse("01-00-5E-90-10-é").unwrap_err();
    assert_eq!(ParseFault::InvalidChar, e.kind());
    // seventeen characters, eighteen bytes
    let e = EUI48::parse("01-00-5E-90-10-Fé").unwrap_err();
    assert_eq!(ParseFault::InvalidLength, e.kind());
}

#[test]
fn misplaced_separator_is_invalid_format() {
    let e = EUI48::parse("-01-00-5E-90-10-F").unwrap_err();
    assert_eq!(ParseFault::InvalidFormat, e.kind());
    assert_eq!("MAC address format is incorrect. -01-00-5E-90-10-F", e.message());
    // consecutive separators
    let e = EUI48::parse("01--00-5E-90-10-F").unwrap_err();
    assert_eq!(ParseFault::InvalidFormat, e.kind());
    // trailing separator
    let e = EUI48::parse("1-00-5E-90-10-FF-").unwrap_err();
    assert_eq!(ParseFault::InvalidFormat, e.kind());
}

#[test]
fn first_fault_in_text_order_is_reported() {
    // the misplaced separator comes before the foreign character
    let e = EUI48::parse("0-100-5E-90-10-FG").unwrap_err();
    assert_eq!(ParseFault::InvalidFormat, e.kind());
    // the foreign character comes before the misplaced separator
    let e = EUI48::parse("0G-00-5E-90-1-0FF").unwrap_err();
    assert_eq!(ParseFault::InvalidChar, e.kind());
}

#[test]
fn field_above_255_overflows() {
    let e = EUI48::parse("001FF-00-5E-90-10-FF").unwrap_err();
    assert_eq!(ParseFault::Overflow, e.kind());
    assert_eq!(
        "MAC address field value is too large. 001FF-00-5E-90-10-FF",
        e.message()
    );
    // the last field
    let e = EUI48::parse("01-00-5E-90-10-00100").unwrap_err();
    assert_eq!(ParseFault::Overflow, e.kind());
    assert!(matches!(parse_eui("fffff"), Err(EUIParseError::Overflow(_))));
}

#[test]
fn long_field_of_small_value_is_read() {
    assert_eq!(MAC, EUI48::parse("01-00-5E-90-10-000FF").unwrap());
    assert_eq!(vec![0xff], parse_eui("000000ff").unwrap());
}

#[test]
fn very_long_field_overflows() {
    // sixteen to the tenth power is above 255, however many bits hold it
    let e = EUI48::parse("01-00-5E-90-10-10000000000").unwrap_err();
    assert_eq!(ParseFault::Overflow, e.kind());
    let e = parse_eui("10000000000000000000").unwrap_err();
    assert_eq!(ParseFault::Overflow, e.kind());
}

#[test]
fn error_carries_the_text() {
    match EUI48::parse("01-00-5E-90-10-FG") {
        Err(EUIParseError::InvalidChar(text)) => assert_eq!("01-00-5E-90-10-FG", text),
        other => panic!("{:?}", other),
    }
}

#[test]
fn text_conversions_agree_with_parse() {
    let from_str: EUI48 = "01-00-5e-90-10-ff".parse().unwrap();
    assert_eq!(MAC, from_str);
    assert_eq!(MAC, EUI48::try_from("01:00:5e:90:10:ff").unwrap());
    assert_eq!(MAC, EUI48::try_from(String::from("01:00:5e:90:10:ff")).unwrap());
    match EUI48::try_from(String::from("01:00:5e:90:10:fg")) {
        Err(EUIParseError::InvalidChar(text)) => assert_eq!("01:00:5e:90:10:fg", text),
        other => panic!("{:?}", other),
    }
    assert!(matches!(
        EUI48::try_from("01:00:5e:90:10"),
        Err(EUIParseError::InvalidLength(_))
    ));
    let e = "01-00-5e-90-10-ff".parse::<EUI64>().unwrap_err();
    assert_eq!(ParseFault::InvalidLength, e.kind());
}
