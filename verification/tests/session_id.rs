use mercutio::io::McpSessionId;

#[test]
fn display_is_32_hex_chars() {
    let id = McpSessionId::from_raw(0x0123456789abcdef0123456789abcdef);
    assert_eq!(id.to_string(), "0123456789abcdef0123456789abcdef");
}

#[test]
fn display_pads_with_zeros() {
    let id = McpSessionId::from_raw(1);
    assert_eq!(id.to_string(), "00000000000000000000000000000001");
}

#[test]
fn debug_uses_display() {
    let id = McpSessionId::from_raw(0xff);
    assert_eq!(
        id.to_debug_string(),
        "McpSessionId(000000000000000000000000000000ff)"
    );
}

#[test]
fn parse_valid_hex() {
    let id: McpSessionId = "0123456789abcdef0123456789abcdef".parse().unwrap();
    assert_eq!(id.as_raw(), 0x0123456789abcdef0123456789abcdef);
}

#[test]
fn parse_short_hex() {
    let id: McpSessionId = "ff".parse().unwrap();
    assert_eq!(id.as_raw(), 0xff);
}

#[test]
fn parse_invalid_fails() {
    assert!("not-hex".parse::<McpSessionId>().is_err());
}

#[test]
fn session_id_roundtrip() {
    let original = McpSessionId::from_raw(0xdeadbeef12345678deadbeef12345678);
    let s = original.to_string();
    let parsed: McpSessionId = s.parse().unwrap();
    assert_eq!(original, parsed);
}

#[test]
fn random_generation() {
    let id = McpSessionId::random();
    assert_eq!(id.to_string().len(), 32);
    assert_ne!(id, McpSessionId::random());
}

#[test]
fn parse_follows_unsigned_integers() {
    assert_eq!(McpSessionId::parse("+ff").expect("sign").as_raw(), 0xff);
    assert_eq!(McpSessionId::parse("FF").expect("upper case").as_raw(), 0xff);
    assert_eq!(
        McpSessionId::parse("ffffffffffffffffffffffffffffffff")
            .expect("largest")
            .as_raw(),
        u128::MAX
    );
    assert_eq!(
        McpSessionId::parse("000ffffffffffffffffffffffffffffffff")
            .expect("leading zeros")
            .as_raw(),
        u128::MAX
    );
    for text in ["", "+", "-", "-1", "1ffffffffffffffffffffffffffffffff", " ff", "0xff"] {
        let error = McpSessionId::parse(text).expect_err("not an identifier");
        assert_eq!(error.to_string(), "invalid session ID format");
    }
}
