use mail_box::protocol::{SmtpAction, SmtpConnection, SmtpError};
use mail_box::session::ReceivedEmail;
use mail_box::time::Timestamp;

fn t(secs: i64) -> Timestamp {
    Timestamp::from_parts(secs, 0).unwrap()
}

fn reply(action: SmtpAction) -> String {
    match action {
        SmtpAction::Send(r) => r,
        _ => panic!("expected a plain reply"),
    }
}

fn deliver(action: SmtpAction) -> (String, ReceivedEmail) {
    match action {
        SmtpAction::SendThenDeliver(r, e) => (r, e),
        _ => panic!("expected a delivery"),
    }
}

#[test]
fn conversation_delivers_message() {
    let mut c = SmtpConnection::new_at("127.0.0.1:5000".to_string(), t(100));
    assert_eq!(c.greet(), "220 mail-box ready\r\n");
    assert_eq!(reply(c.handle_line_at("EHLO localhost\r\n", t(101))), "250-mail-box\r\n250-STARTTLS\r\n250 OK\r\n");
    assert_eq!(reply(c.handle_line_at("MAIL FROM:<alice@example.com>\r\n", t(102))), "250 sender ok\r\n");
    assert_eq!(reply(c.handle_line_at("RCPT TO:<bob@example.com>\r\n", t(103))), "250 recipient ok\r\n");
    assert_eq!(reply(c.handle_line_at("rcpt to: carol@example.com\r\n", t(104))), "250 recipient ok\r\n");
    assert_eq!(reply(c.handle_line_at("DATA\r\n", t(105))), "354 end with <CRLF>.<CRLF>\r\n");
    assert!(matches!(c.handle_line_at("Subject: test\r\n", t(106)), SmtpAction::ReadMore));
    assert!(matches!(c.handle_line_at("\r\n", t(107)), SmtpAction::ReadMore));
    assert!(matches!(c.handle_line_at("..hidden\n", t(108)), SmtpAction::ReadMore));
    let (r, email) = deliver(c.handle_line_at(".\r\n", t(109)));
    assert_eq!(r, "250 message accepted\r\n");
    assert_eq!(email.peer_addr, "127.0.0.1:5000");
    assert_eq!(email.from, "alice@example.com");
    assert_eq!(email.recipients, vec!["bob@example.com".to_string(), "carol@example.com".to_string()]);
    assert_eq!(email.data, "Subject: test\n\nhidden\n");
    assert_eq!(email.received_at, t(100));
    assert_eq!(
        email.transcript,
        "S: 220 mail-box ready\r\n\
         C: EHLO localhost\r\n\
         S: 250-mail-box\r\n250-STARTTLS\r\n250 OK\r\n\
         C: MAIL FROM:<alice@example.com>\r\n\
         S: 250 sender ok\r\n\
         C: RCPT TO:<bob@example.com>\r\n\
         S: 250 recipient ok\r\n\
         C: rcpt to: carol@example.com\r\n\
         S: 250 recipient ok\r\n\
         C: DATA\r\n\
         S: 354 end with <CRLF>.<CRLF>\r\n\
         C: Subject: test\r\n\
         C: \r\n\
         C: ..hidden\n\
         C: .\r\n\
         S: 250 message accepted\r\n"
    );
    // The message stays in the session until it has been processed.
    assert_eq!(c.session.from, "alice@example.com");
    assert!(!c.in_data);
    c.message_processed_at(t(110));
    // The next message starts fresh, stamped when processing ended; the transcript is kept.
    assert_eq!(c.session.from, "unknown-sender");
    assert!(c.session.recipients.is_empty());
    assert_eq!(c.session.data, "");
    assert_eq!(c.session.received_at, t(110));
    assert_eq!(c.session.transcript, email.transcript);
    match c.handle_line_at("QUIT\r\n", t(111)) {
        SmtpAction::SendThenClose(r) => assert_eq!(r, "221 bye\r\n"),
        _ => panic!("expected close"),
    }
}

#[test]
fn reset_discards_message() {
    let mut c = SmtpConnection::new_at("p".to_string(), t(1));
    c.handle_line_at("MAIL FROM:<a@b>\r\n", t(2));
    c.handle_line_at("RCPT TO:<c@d>\r\n", t(3));
    assert_eq!(reply(c.handle_line_at("RSET\r\n", t(4))), "250 reset ok\r\n");
    assert_eq!(c.session.from, "unknown-sender");
    assert!(c.session.recipients.is_empty());
    assert_eq!(c.session.received_at, t(4));
}

#[test]
fn unknown_and_noop_commands_get_ok() {
    let mut c = SmtpConnection::new_at("p".to_string(), t(1));
    assert_eq!(reply(c.handle_line_at("NOOP\r\n", t(2))), "250 ok\r\n");
    assert_eq!(reply(c.handle_line_at("XYZZY\r\n", t(2))), "250 ok\r\n");
    assert_eq!(reply(c.handle_line_at("HELO\r\n", t(2))), "250 ok\r\n");
    assert_eq!(reply(c.handle_line_at("DATA now\r\n", t(2))), "250 ok\r\n");
    assert!(!c.in_data);
}

#[test]
fn starttls_upgrades_once() {
    let mut c = SmtpConnection::new_at("p".to_string(), t(1));
    match c.handle_line_at("starttls\r\n", t(2)) {
        SmtpAction::SendThenStartTls(r) => assert_eq!(r, "220 ready to start TLS\r\n"),
        _ => panic!("expected TLS start"),
    }
    assert!(!c.tls_enabled);
    c.tls_started();
    assert!(c.tls_enabled);
    assert!(c.session.transcript.ends_with("S: TLS: handshake completed\r\n"));
    assert_eq!(reply(c.handle_line_at("ehlo client\r\n", t(3))), "250-mail-box\r\n250 OK\r\n");
    assert_eq!(reply(c.handle_line_at("STARTTLS\r\n", t(4))), "250 already using TLS\r\n");
}

#[test]
fn closing_during_data_fails() {
    let mut c = SmtpConnection::new_at("p".to_string(), t(1));
    assert!(matches!(c.handle_close(), SmtpAction::Close));
    c.handle_line_at("DATA\r\n", t(2));
    assert!(matches!(c.handle_close(), SmtpAction::Fail(SmtpError::ClosedDuringData)));
}

#[test]
fn data_mode_takes_commands_as_text() {
    let mut c = SmtpConnection::new_at("p".to_string(), t(1));
    c.handle_line_at("DATA\r\n", t(2));
    assert!(matches!(c.handle_line_at("QUIT\r\n", t(3)), SmtpAction::ReadMore));
    assert!(matches!(c.handle_line_at(". \r\n", t(3)), SmtpAction::ReadMore));
    let (_, email) = deliver(c.handle_line_at(".\n", t(4)));
    assert_eq!(email.data, "QUIT\n. \n");
    assert_eq!(email.from, "unknown-sender");
    assert!(email.recipients.is_empty());
}

#[test]
fn second_message_keeps_first_transcript() {
    let mut c = SmtpConnection::new_at("p".to_string(), t(1));
    c.handle_line_at("MAIL FROM:<a@x>\r\n", t(2));
    c.handle_line_at("RCPT TO:<b@x>\r\n", t(2));
    c.handle_line_at("RCPT TO:<c@x>\r\n", t(2));
    c.handle_line_at("DATA\r\n", t(2));
    c.handle_line_at("one\r\n", t(2));
    let (_, first) = deliver(c.handle_line_at(".\r\n", t(3)));
    c.message_processed_at(t(4));
    c.handle_line_at("MAIL FROM:<d@x>\r\n", t(5));
    c.handle_line_at("RCPT TO:<e@x>\r\n", t(5));
    c.handle_line_at("DATA\r\n", t(5));
    c.handle_line_at("two\r\n", t(5));
    let (_, second) = deliver(c.handle_line_at(".\r\n", t(6)));
    assert_eq!(first.from, "a@x");
    assert_eq!(first.recipients, vec!["b@x".to_string(), "c@x".to_string()]);
    assert_eq!(first.data, "one\n");
    assert_eq!(first.received_at, t(1));
    assert_eq!(second.from, "d@x");
    assert_eq!(second.recipients, vec!["e@x".to_string()]);
    assert_eq!(second.data, "two\n");
    assert_eq!(second.received_at, t(4));
    assert!(second.transcript.len() > first.transcript.len());
    assert!(second.transcript.starts_with(&first.transcript));
}

#[test]
fn processed_message_restamps_from_clock() {
    let mut c = SmtpConnection::new_at("p".to_string(), t(1));
    c.handle_line_at("MAIL FROM:<a@x>\r\n", t(2));
    c.handle_line_at("DATA\r\n", t(2));
    let (_, email) = deliver(c.handle_line_at(".\r\n", t(3)));
    assert!(c.message_processed());
    assert_eq!(c.session.from, "unknown-sender");
    assert!(c.session.received_at.secs > 1_600_000_000);
    assert_eq!(c.session.transcript, email.transcript);
}

#[test]
fn clock_stamped_connection_is_valid() {
    let mut c = SmtpConnection::new("p".to_string()).unwrap();
    assert!(c.session.received_at.secs > 1_600_000_000);
    assert!(c.session.received_at.nanos < 1_000_000_000);
    assert!(matches!(c.handle_line("NOOP\r\n"), Some(SmtpAction::Send(_))));
}
