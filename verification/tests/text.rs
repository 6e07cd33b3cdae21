use djapp_audio_spike::text::{push_bool, push_decimal, push_hex, push_signed_decimal, str_eq};

#[test]
fn numerals_are_written_in_decimal() {
    let mut out = String::new();
    push_decimal(&mut out, 0);
    out.push(' ');
    push_decimal(&mut out, u64::MAX);
    out.push(' ');
    push_signed_decimal(&mut out, i64::MIN);
    out.push(' ');
    push_signed_decimal(&mut out, -42);
    out.push(' ');
    push_bool(&mut out, false);
    assert_eq!(out, "0 18446744073709551615 -9223372036854775808 -42 false");
}

#[test]
fn bytes_are_written_in_lower_case_hex() {
    let mut out = String::from("x");
    push_hex(&mut out, &[0x00, 0x0f, 0xa0, 0xff]);
    assert_eq!(out, "x000fa0ff");
}

#[test]
fn strings_compare_by_characters() {
    assert!(str_eq("dual-device-cue", "dual-device-cue"));
    assert!(!str_eq("dual", "dual-device-cue"));
    assert!(str_eq("", ""));
    assert!(!str_eq("é", "e"));
}
