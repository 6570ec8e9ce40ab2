use server_setup::port::{parse_port, DEFAULT_PORT};

#[test]
fn default_port_parses() {
    assert_eq!(parse_port("25565"), Some(DEFAULT_PORT));
}

#[test]
fn port_bounds() {
    assert_eq!(parse_port("0"), Some(0));
    assert_eq!(parse_port("65535"), Some(65535));
    assert_eq!(parse_port("65536"), None);
    assert_eq!(parse_port("99999999999"), None);
}

#[test]
fn port_sign_and_zeros() {
    assert_eq!(parse_port("+80"), Some(80));
    assert_eq!(parse_port("007"), Some(7));
    assert_eq!(parse_port("-1"), None);
    assert_eq!(parse_port("+"), None);
}

#[test]
fn port_rejects_other_text() {
    assert_eq!(parse_port(""), None);
    assert_eq!(parse_port(" 80"), None);
    assert_eq!(parse_port("8o"), None);
}
