use server_setup::patch::patch_text;

#[test]
fn indented_eula_line_keeps_its_indent() {
    assert_eq!(
        patch_text("  eula=false\n", "eula", "true"),
        Some("  eula=true\n".to_string())
    );
}

#[test]
fn only_first_definition_is_rewritten() {
    assert_eq!(
        patch_text("eula=false\nmotd=hi\neula=false\n", "eula", "true"),
        Some("eula=true\nmotd=hi\neula=false\n".to_string())
    );
}

#[test]
fn missing_key_reports_none() {
    assert_eq!(patch_text("motd=hi\nlevel=world", "eula", "true"), None);
}

#[test]
fn empty_text_defines_nothing() {
    assert_eq!(patch_text("", "eula", "true"), None);
}

#[test]
fn key_must_be_followed_by_equals() {
    assert_eq!(patch_text("eulax=1\neula =1\n", "eula", "true"), None);
}

#[test]
fn crlf_terminator_is_kept() {
    assert_eq!(
        patch_text("a=1\r\nserver-port=25565\r\nb=2\r\n", "server-port", "25570"),
        Some("a=1\r\nserver-port=25570\r\nb=2\r\n".to_string())
    );
}

#[test]
fn last_line_without_newline_stays_without() {
    assert_eq!(
        patch_text("a=1\nport=1", "port", "2"),
        Some("a=1\nport=2".to_string())
    );
}

#[test]
fn unicode_whitespace_counts_as_indent() {
    assert_eq!(
        patch_text("\u{a0}\tport=1\n", "port", "77"),
        Some("\u{a0}\tport=77\n".to_string())
    );
}

#[test]
fn empty_value_clears_the_line_value() {
    assert_eq!(
        patch_text("motd=Welcome\n", "motd", ""),
        Some("motd=\n".to_string())
    );
}
