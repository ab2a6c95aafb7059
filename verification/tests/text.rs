use bentham::scope::Scope;
use bentham::text::{is_blank, parse_u64, starts_with, to_hex, trim, u64_to_string};

#[test]
fn trim_takes_what_std_calls_white_space() {
    for c in '\0'..=char::MAX {
        let s = format!("{c}x{c}");
        let expected = if c.is_whitespace() { "x".to_string() } else { s.clone() };
        assert_eq!(trim(&s), expected, "{:?}", c);
    }
}

#[test]
fn trim_keeps_the_inside() {
    assert_eq!(trim(" \t a b \n"), "a b");
    assert_eq!(trim(""), "");
    assert_eq!(trim(" \u{3000}\n"), "");
    assert!(is_blank(" \n\t"));
    assert!(is_blank(""));
    assert!(!is_blank(" x "));
}

#[test]
fn numbers_are_written_in_decimal() {
    for n in [0, 7, 10, 99, 100, 1436577999431405709, u64::MAX - 1, u64::MAX] {
        assert_eq!(u64_to_string(n), n.to_string());
        assert_eq!(parse_u64(&n.to_string()), Some(n));
    }
    assert_ne!(u64_to_string(12), u64_to_string(21));
}

#[test]
fn numerals_are_read_as_std_reads_them() {
    for s in [
        "",
        "+",
        "-",
        "0",
        "007",
        "+7",
        "-7",
        "++7",
        " 7",
        "7 ",
        "1e3",
        "12a",
        "a12",
        "٣",
        "18446744073709551615",
        "18446744073709551616",
        "18446744073709551610",
        "99999999999999999999",
        "00018446744073709551615",
        "184467440737095516150",
    ] {
        assert_eq!(parse_u64(s), s.parse::<u64>().ok(), "{:?}", s);
    }
}

#[test]
fn bytes_are_written_in_lower_case_hex() {
    assert_eq!(to_hex(&vec![]), "");
    assert_eq!(to_hex(&vec![0x00, 0x0f, 0xa0, 0xff]), "000fa0ff");
    let all: Vec<u8> = (0..=255).collect();
    let expected: String = all.iter().map(|x| format!("{x:02x}")).collect();
    assert_eq!(to_hex(&all), expected);
}

#[test]
fn prefixes_are_compared_whole() {
    assert!(starts_with("dm-12", "dm-"));
    assert!(starts_with("dm-", "dm-"));
    assert!(starts_with("anything", ""));
    assert!(!starts_with("dm", "dm-"));
    assert!(!starts_with("12", "dm-"));
}

#[test]
fn scopes_round_trip() {
    let guild = Scope::Guild(1436577999431405709);
    let dm = Scope::Dm(775224960289341441);
    assert_eq!(guild.to_string(), "1436577999431405709");
    assert_eq!(dm.to_string(), "dm-775224960289341441");
    assert_eq!(Scope::parse("1436577999431405709"), Some(guild));
    assert_eq!(Scope::parse("dm-775224960289341441"), Some(dm));
    assert_eq!(Scope::parse("dm-"), None);
    assert_eq!(Scope::parse("guild"), None);
    assert_eq!(Scope::parse(""), None);
    assert_ne!(Scope::Guild(5).to_string(), Scope::Dm(5).to_string());
}
