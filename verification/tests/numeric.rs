use sfz::parse_u16;
use sfz::parse_u32;
use sfz::ConfigError;
use sfz::IntKind;

#[test]
fn u16_plain_value() {
    assert_eq!(parse_u16("8080"), Ok(8080));
}

#[test]
fn u16_zero_and_max() {
    assert_eq!(parse_u16("0"), Ok(0));
    assert_eq!(parse_u16("65535"), Ok(65535));
}

#[test]
fn u16_just_above_max() {
    assert_eq!(
        parse_u16("65536"),
        Err(ConfigError::InvalidArgument { value: "65536".to_string(), target: IntKind::Unsigned16 })
    );
}

#[test]
fn u16_out_of_range() {
    assert_eq!(
        parse_u16("70000"),
        Err(ConfigError::InvalidArgument { value: "70000".to_string(), target: IntKind::Unsigned16 })
    );
}

#[test]
fn u16_not_numeric() {
    assert!(parse_u16("abc").is_err());
    assert!(parse_u16("80a").is_err());
    assert!(parse_u16("8 0").is_err());
    assert!(parse_u16("-1").is_err());
}

#[test]
fn u16_empty() {
    assert_eq!(
        parse_u16(""),
        Err(ConfigError::InvalidArgument { value: "".to_string(), target: IntKind::Unsigned16 })
    );
}

#[test]
fn u16_leading_plus_and_zeros() {
    assert_eq!(parse_u16("+123"), Ok(123));
    assert_eq!(parse_u16("007"), Ok(7));
    assert!(parse_u16("+").is_err());
    assert!(parse_u16("++1").is_err());
}

#[test]
fn u32_plain_value() {
    assert_eq!(parse_u32("3600"), Ok(3600));
}

#[test]
fn u32_max_and_above() {
    assert_eq!(parse_u32("4294967295"), Ok(4294967295));
    assert_eq!(
        parse_u32("4294967296"),
        Err(ConfigError::InvalidArgument {
            value: "4294967296".to_string(),
            target: IntKind::Unsigned32,
        })
    );
}

#[test]
fn u32_not_numeric() {
    assert!(parse_u32("12.5").is_err());
    assert!(parse_u32("").is_err());
}
