use sankode::numeral::{devanagari_digit_to_u32, format_i64_devanagari, is_devanagari_digit, parse_devanagari_i64, u32_to_devanagari_digit};

#[test]
fn test_digit_conversion() {
    assert_eq!(devanagari_digit_to_u32('०'), Some(0));
    assert_eq!(devanagari_digit_to_u32('५'), Some(5));
    assert_eq!(devanagari_digit_to_u32('९'), Some(9));
    assert_eq!(devanagari_digit_to_u32('a'), None);
}

#[test]
fn test_parse_devanagari_i64() {
    assert_eq!(parse_devanagari_i64("०").unwrap(), 0);
    assert_eq!(parse_devanagari_i64("१०").unwrap(), 10);
    assert_eq!(parse_devanagari_i64("१२३४५६७८९").unwrap(), 123456789);
    assert_eq!(parse_devanagari_i64("-४२").unwrap(), -42);
}

#[test]
fn test_format_devanagari() {
    assert_eq!(format_i64_devanagari(0), "०");
    assert_eq!(format_i64_devanagari(10), "१०");
    assert_eq!(format_i64_devanagari(12345), "१२३४५");
    assert_eq!(format_i64_devanagari(-42), "-४२");
}

#[test]
fn digit_round_trip_for_every_value() {
    for d in 0u32..10 {
        let c = u32_to_devanagari_digit(d).unwrap();
        assert!(is_devanagari_digit(c));
        assert_eq!(devanagari_digit_to_u32(c), Some(d));
    }
    assert_eq!(u32_to_devanagari_digit(10), None);
    assert!(!is_devanagari_digit('7'));
}

#[test]
fn parse_of_format_round_trips() {
    for n in [0i64, 7, -7, 42, -42, 1000, 987654321, i64::MAX, i64::MIN + 1] {
        assert_eq!(parse_devanagari_i64(&format_i64_devanagari(n)).unwrap(), n);
    }
}

#[test]
fn format_of_the_smallest_integer() {
    assert_eq!(format_i64_devanagari(i64::MIN), "-९२२३३७२०३६८५४७७५८०८");
}

#[test]
fn parse_rejects_bad_input() {
    assert!(parse_devanagari_i64("").is_err());
    assert!(parse_devanagari_i64("-").is_err());
    assert!(parse_devanagari_i64("१a").is_err());
    assert!(parse_devanagari_i64("९२२३३७२०३६८५४७७५८०८").is_err());
    assert!(parse_devanagari_i64("-९२२३३७२०३६८५४७७५८०८").is_err());
    assert_eq!(parse_devanagari_i64("-९२२३३७२०३६८५४७७५८०७").unwrap(), i64::MIN + 1);
}
