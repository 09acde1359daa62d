use mail_box::session::SmtpSession;
use mail_box::time::Timestamp;

#[test]
fn session_starts_empty() {
    let at = Timestamp::from_parts(42, 7).unwrap();
    let s = SmtpSession::new_at("10.0.0.1:25".to_string(), at);
    assert_eq!(s.peer_addr, "10.0.0.1:25");
    assert_eq!(s.from, "unknown-sender");
    assert!(s.recipients.is_empty());
    assert_eq!(s.data, "");
    assert_eq!(s.transcript, "");
    assert_eq!(s.received_at, at);
}

#[test]
fn session_records_both_sides() {
    let mut s = SmtpSession::new("p".to_string()).unwrap();
    s.record_server("220 hi\r\n");
    s.record_client("NOOP\r\n");
    assert_eq!(s.transcript, "S: 220 hi\r\nC: NOOP\r\n");
}

#[test]
fn session_reset_keeps_transcript() {
    let mut s = SmtpSession::new_at("p".to_string(), Timestamp::unix_epoch());
    s.from = "a@b".to_string();
    s.recipients.push("c@d".to_string());
    s.data = "x\n".to_string();
    s.record_client("RSET\r\n");
    assert!(s.reset_message());
    assert_eq!(s.from, "unknown-sender");
    assert!(s.recipients.is_empty());
    assert_eq!(s.data, "");
    assert_eq!(s.transcript, "C: RSET\r\n");
    assert!(s.received_at.secs > 1_600_000_000);
    let at = Timestamp::from_parts(5, 0).unwrap();
    s.reset_message_at(at);
    assert_eq!(s.received_at, at);
}

#[test]
fn session_to_email_copies_fields() {
    let mut s = SmtpSession::new_at("p".to_string(), Timestamp::unix_epoch());
    s.from = "a@b".to_string();
    s.recipients.push("c@d".to_string());
    s.recipients.push("e@f".to_string());
    s.data = "body\n".to_string();
    s.record_client("x\r\n");
    let e = s.to_email();
    assert_eq!(e.peer_addr, "p");
    assert_eq!(e.from, "a@b");
    assert_eq!(e.recipients, vec!["c@d".to_string(), "e@f".to_string()]);
    assert_eq!(e.data, "body\n");
    assert_eq!(e.transcript, "C: x\r\n");
    assert_eq!(e.received_at, Timestamp::unix_epoch());
}
