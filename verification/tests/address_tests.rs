use mail_box::address::{parse_address, sanitize_file_part};

#[test]
fn parse_address_strips_brackets() {
    assert_eq!(parse_address("MAIL FROM:<alice@example.com>", "MAIL FROM:"), "alice@example.com");
}

#[test]
fn parse_address_trims_white_space_first() {
    assert_eq!(parse_address("RCPT TO:  <bob@example.com>  ", "RCPT TO:"), "bob@example.com");
    assert_eq!(parse_address("RCPT TO:\u{3000}<bob@example.com>\t", "RCPT TO:"), "bob@example.com");
}

#[test]
fn parse_address_strips_repeated_brackets() {
    assert_eq!(parse_address("MAIL FROM:<<<a@b>>>", "MAIL FROM:"), "a@b");
    assert_eq!(parse_address("MAIL FROM:<<<", "MAIL FROM:"), "");
}

#[test]
fn parse_address_keeps_inner_space() {
    assert_eq!(parse_address("MAIL FROM:< a@b >", "MAIL FROM:"), " a@b ");
}

#[test]
fn parse_address_without_brackets() {
    assert_eq!(parse_address("mail from: carol@example.org", "MAIL FROM:"), "carol@example.org");
    assert_eq!(parse_address("MAIL FROM:", "MAIL FROM:"), "");
}

#[test]
fn parse_address_counts_prefix_in_bytes() {
    // "é" takes two bytes, so a two-byte prefix skips exactly that character.
    assert_eq!(parse_address("é<x@y>", "ab"), "x@y");
}

#[test]
fn sanitize_replaces_special_characters() {
    assert_eq!(sanitize_file_part("alice@example.com"), "alice-example-com");
    assert_eq!(sanitize_file_part("a b"), "a-b");
}

#[test]
fn sanitize_trims_dashes() {
    assert_eq!(sanitize_file_part("--a b--"), "a-b");
    assert_eq!(sanitize_file_part("@@@"), "");
    assert_eq!(sanitize_file_part(""), "");
}

#[test]
fn sanitize_rfc3339_time() {
    assert_eq!(
        sanitize_file_part("2026-07-08T12:00:00.123+00:00"),
        "2026-07-08T12-00-00-123-00-00"
    );
}

#[test]
fn sanitize_non_ascii_letters() {
    assert_eq!(sanitize_file_part("jürgen"), "j-rgen");
}

#[test]
fn sanitize_is_idempotent_on_examples() {
    for input in ["alice@example.com", " -x- ", "ÄÖÜ", "a--b", "<bob@example.com>"] {
        let once = sanitize_file_part(input);
        assert_eq!(sanitize_file_part(&once), once);
        assert!(once.chars().all(|c| c.is_ascii_alphanumeric() || c == '-'));
        assert!(!once.starts_with('-') && !once.ends_with('-'));
    }
}

#[test]
fn parsed_addresses_lose_brackets() {
    for inner in ["x@y", "", " spaced ", "a>b<c"] {
        let command = format!("RCPT TO:<{inner}>");
        let parsed = parse_address(&command, "RCPT TO:");
        assert!(!parsed.starts_with('<') && !parsed.ends_with('>'));
        assert_eq!(parsed, inner);
    }
}
