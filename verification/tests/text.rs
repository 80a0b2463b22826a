use goxlr_volume_wheel::text::{
    chars_of, parse_u32, push_decimal, push_padded, push_signed, same, string_of, strip_prefix,
    to_ascii_lowercase, trim, trim_matches,
};

#[test]
fn decimals_are_written() {
    let mut s = String::new();
    push_decimal(&mut s, 0);
    s.push(' ');
    push_decimal(&mut s, u64::MAX);
    s.push(' ');
    push_signed(&mut s, -32000);
    s.push(' ');
    push_signed(&mut s, i32::MIN);
    s.push(' ');
    push_padded(&mut s, 7, 2);
    s.push(' ');
    push_padded(&mut s, 12345, 4);
    assert_eq!(s, "0 18446744073709551615 -32000 -2147483648 07 12345");
}

#[test]
fn numbers_are_read() {
    assert_eq!(parse_u32(&chars_of("22631")), Some(22631));
    assert_eq!(parse_u32(&chars_of("+7")), Some(7));
    assert_eq!(parse_u32(&chars_of("4294967295")), Some(u32::MAX));
    assert_eq!(parse_u32(&chars_of("4294967296")), None);
    assert_eq!(parse_u32(&chars_of("")), None);
    assert_eq!(parse_u32(&chars_of("+")), None);
    assert_eq!(parse_u32(&chars_of("-1")), None);
    assert_eq!(parse_u32(&chars_of("12a")), None);
}

#[test]
fn a_written_number_reads_back() {
    for n in [0u32, 9, 10, 255, 22000, u32::MAX] {
        let mut s = String::new();
        push_decimal(&mut s, n as u64);
        assert_eq!(parse_u32(&chars_of(&s)), Some(n));
    }
}

#[test]
fn ends_are_trimmed() {
    assert_eq!(string_of(&trim(&chars_of(" \t a b \u{a0}\n"))), "a b");
    assert_eq!(string_of(&trim(&chars_of("   "))), "");
    assert_eq!(string_of(&trim_matches(&chars_of("\"\"x\"y\""), '"')), "x\"y");
}

#[test]
fn only_ascii_letters_are_lowered() {
    assert_eq!(string_of(&to_ascii_lowercase(&chars_of("CtrlÉ9"))), "ctrlÉ9");
}

#[test]
fn prefixes_and_equality() {
    assert!(same("Game", "Game"));
    assert!(!same("Game", "game"));
    assert_eq!(strip_prefix("f12", "f").as_deref(), Some("12"));
    assert_eq!(strip_prefix("f", "f").as_deref(), Some(""));
    assert_eq!(strip_prefix("x", "xy"), None);
}
