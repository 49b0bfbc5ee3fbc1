use shrots::rgb;

#[test]
fn parses_plain_hex() {
    assert_eq!(rgb(b"1A2B3C"), Some(0x1A2B3C));
}

#[test]
fn parses_hash_prefixed_hex() {
    assert_eq!(rgb(b"#1A2B3C"), Some(0x1A2B3C));
}

#[test]
fn parses_lowercase_hex() {
    assert_eq!(rgb(b"#ff00aa"), Some(0xFF00AA));
}

#[test]
fn parses_short_hex() {
    assert_eq!(rgb(b"#fff"), Some(0xFFF));
    assert_eq!(rgb(b"0"), Some(0));
}

#[test]
fn skips_repeated_hash_signs() {
    assert_eq!(rgb(b"##ABC"), Some(0xABC));
}

#[test]
fn rejects_empty_input() {
    assert_eq!(rgb(b""), None);
    assert_eq!(rgb(b"#"), None);
}

#[test]
fn rejects_non_hex_digits() {
    assert_eq!(rgb(b"#12G45"), None);
    assert_eq!(rgb(b"hello!"), None);
}

#[test]
fn rejects_more_than_six_digits() {
    assert_eq!(rgb(b"#1234567"), None);
    assert_eq!(rgb(b"FFFFFFFF"), None);
}

#[test]
fn parses_boundary_values() {
    assert_eq!(rgb(b"#FFFFFF"), Some(0xFFFFFF));
    assert_eq!(rgb(b"#000000"), Some(0));
}
