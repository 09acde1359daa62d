use mail_box::cleanup::cleanup_cutoff_from_clock;
use mail_box::firebase::{
    cleanup_entry, firebase_message_writes, group_update_after_cleanup, group_update_after_save,
    message_summary,
};
use mail_box::time::instant_from_clock_reading;
use mail_box::tls::localhost_names;
use mail_box::cleanup::{
    cleanup_cutoff, cleanup_cutoff_now, cleanup_interval_secs, cleanup_run_offset,
    mongodb_cutoff_millis,
    transcript_expired,
};
use mail_box::config::{check_webhook_config, ConfigError, WebhookConfig};
use mail_box::session::ReceivedEmail;
use mail_box::firebase::{
    entry_expired, firebase_area_url, firebase_expired_keys, firebase_record_deletions,
    firebase_record_url, FirebaseArea,
};
use mail_box::storage::{
    cleanup_plan, delivery_plan, transcript_file_name_for, CleanupStep, DeliveryStep,
    StorageSettings,
};
use mail_box::time::Timestamp;
use mail_box::tls::localhost_identity;

fn t(secs: i64, nanos: u32) -> Timestamp {
    Timestamp::from_parts(secs, nanos).unwrap()
}

fn email(recipients: Vec<String>, at: Timestamp) -> ReceivedEmail {
    ReceivedEmail {
        peer_addr: "127.0.0.1:1".to_string(),
        from: "alice@example.com".to_string(),
        recipients,
        data: String::new(),
        transcript: String::new(),
        received_at: at,
    }
}

#[test]
fn transcript_file_name_from_parts() {
    let name = transcript_file_name_for(
        "alice@example.com",
        &vec!["bob@example.com".to_string(), "x@y".to_string()],
        "2026-07-08T12:00:00+00:00",
    );
    assert_eq!(name, "alice-example-com-bob-example-com-2026-07-08T12-00-00-00-00.txt");
}

#[test]
fn transcript_file_name_without_recipient() {
    let name = transcript_file_name_for("unknown-sender", &vec![], "t");
    assert_eq!(name, "unknown-sender-unknown-recipient-t.txt");
}

#[test]
fn transcript_file_name_uses_rfc3339_time() {
    let e = email(vec!["bob@example.com".to_string()], t(1_783_512_000, 0));
    assert_eq!(
        e.transcript_file_name(),
        "alice-example-com-bob-example-com-2026-07-08T12-00-00-00-00.txt"
    );
    let e = email(vec![], t(1_783_512_000, 123_456_789));
    assert_eq!(
        e.transcript_file_name(),
        "alice-example-com-unknown-recipient-2026-07-08T12-00-00-123456789-00-00.txt"
    );
}

#[test]
fn firebase_area_urls() {
    assert_eq!(
        firebase_area_url("https://p.firebaseio.com//", FirebaseArea::Messages, "/emails/", None),
        "https://p.firebaseio.com/messages/emails.json"
    );
    assert_eq!(
        firebase_area_url("https://p.firebaseio.com", FirebaseArea::MessageGroups, "emails", Some("tok")),
        "https://p.firebaseio.com/messageGroups/emails.json?auth=tok"
    );
    assert_eq!(
        firebase_area_url("b", FirebaseArea::MessageCleanup, "x/y", None),
        "b/messageCleanup/x/y.json"
    );
}

#[test]
fn firebase_record_urls() {
    assert_eq!(
        firebase_record_url(
            "https://p.firebaseio.com/",
            FirebaseArea::MessageSummaries,
            "/emails",
            "-Nabc",
            Some("k")
        ),
        "https://p.firebaseio.com/messageSummaries/emails/-Nabc.json?auth=k"
    );
    assert_eq!(
        firebase_record_deletions("b", "p", "k1", None),
        vec![
            "b/messages/p/k1.json".to_string(),
            "b/messageSummaries/p/k1.json".to_string(),
            "b/messageCleanup/p/k1.json".to_string()
        ]
    );
}

#[test]
fn firebase_expired_entries() {
    let cutoff = t(1_783_510_200, 0); // 2026-07-08T11:30:00Z
    let entries = vec![
        ("a".to_string(), Some("2026-07-08T11:00:00Z".to_string())),
        ("b".to_string(), Some("2026-07-08T12:00:00+00:00".to_string())),
        ("c".to_string(), None),
        ("d".to_string(), Some("yesterday".to_string())),
        ("e".to_string(), Some("2026-07-08T12:29:00+01:00".to_string())),
        ("f".to_string(), Some("2026-07-08T11:29:59.999Z".to_string())),
        ("g".to_string(), Some("2026-07-08T11:30:00Z".to_string())),
        ("h".to_string(), Some("2016-12-31T23:59:60Z".to_string())),
    ];
    assert_eq!(
        firebase_expired_keys(&entries, cutoff),
        vec!["a".to_string(), "e".to_string(), "f".to_string(), "h".to_string()]
    );
    assert!(firebase_expired_keys(&vec![], cutoff).is_empty());
    assert!(entry_expired(Some((0, 0)), cutoff));
    assert!(entry_expired(Some((0, 1_000_000_000)), cutoff));
    assert!(entry_expired(Some((1_783_510_199, 1_500_000_000)), cutoff));
    assert!(!entry_expired(Some((1_783_510_200, 0)), cutoff));
    assert!(!entry_expired(None, cutoff));
}

#[test]
fn plans_follow_settings() {
    let all = StorageSettings {
        save_transcript: true,
        no_save_transcript: false,
        webhook: true,
        firebase: true,
        mongodb: true,
    };
    assert_eq!(
        delivery_plan(all),
        vec![
            DeliveryStep::SaveTranscript,
            DeliveryStep::CallWebhook,
            DeliveryStep::SaveFirebase,
            DeliveryStep::SaveMongoDb
        ]
    );
    assert_eq!(
        cleanup_plan(all),
        vec![CleanupStep::Transcripts, CleanupStep::Firebase, CleanupStep::MongoDb]
    );
    let quiet = StorageSettings { no_save_transcript: true, ..all };
    assert_eq!(
        delivery_plan(quiet),
        vec![DeliveryStep::CallWebhook, DeliveryStep::SaveFirebase, DeliveryStep::SaveMongoDb]
    );
    let webhook_only = StorageSettings {
        save_transcript: false,
        no_save_transcript: false,
        webhook: true,
        firebase: false,
        mongodb: false,
    };
    assert_eq!(delivery_plan(webhook_only), vec![DeliveryStep::CallWebhook]);
    assert!(cleanup_plan(webhook_only).is_empty());
}

#[test]
fn cleanup_interval_defaults_and_limits() {
    assert_eq!(cleanup_interval_secs(0), Some(60));
    assert_eq!(cleanup_interval_secs(5), Some(300));
    assert_eq!(cleanup_interval_secs(u64::MAX), None);
}

#[test]
fn cleanup_runs_at_start_then_every_interval() {
    assert_eq!(cleanup_run_offset(5, 0), Some(0));
    assert_eq!(cleanup_run_offset(5, 1), Some(300));
    assert_eq!(cleanup_run_offset(5, 2), Some(600));
    assert_eq!(cleanup_run_offset(0, 3), Some(180));
    assert_eq!(cleanup_run_offset(u64::MAX, 0), Some(0));
    assert_eq!(cleanup_run_offset(u64::MAX, 1), None);
    assert_eq!(cleanup_run_offset(1, u64::MAX), None);
}

#[test]
fn cleanup_cutoff_arithmetic() {
    let now = t(1_783_512_000, 5);
    assert_eq!(cleanup_cutoff(now, 30), Some(t(1_783_510_200, 5)));
    assert_eq!(cleanup_cutoff(now, 0), Some(t(1_783_511_940, 5)));
    assert_eq!(cleanup_cutoff(now, -7), Some(t(1_783_511_940, 5)));
    assert_eq!(cleanup_cutoff(now, i64::MAX), None);
    assert_eq!(cleanup_cutoff(now, 153_722_867_280_912), None);
    assert_eq!(cleanup_cutoff(t(0, 0), 1_000_000), Some(t(-60_000_000, 0)));
    let c = cleanup_cutoff_now(30).unwrap();
    assert!(c.secs > 1_600_000_000);
    assert!(cleanup_cutoff_now(138_910_020_480).is_some());
    assert!(cleanup_cutoff_now(i64::MAX).is_none());
}

#[test]
fn transcript_expiry() {
    let cutoff = t(1000, 500);
    assert!(transcript_expired(true, Some(t(999, 999_999_999)), cutoff));
    assert!(transcript_expired(true, Some(t(1000, 499)), cutoff));
    assert!(!transcript_expired(true, Some(t(1000, 500)), cutoff));
    assert!(!transcript_expired(false, Some(t(1, 0)), cutoff));
    assert!(transcript_expired(true, None, cutoff));
    assert!(!transcript_expired(true, None, t(0, 0)));
}

#[test]
fn mongodb_millis() {
    assert_eq!(mongodb_cutoff_millis(t(1, 999_999_999)), 1999);
    assert_eq!(mongodb_cutoff_millis(t(-1, 500_000_000)), -500);
    assert_eq!(mongodb_cutoff_millis(t(1_783_510_200, 0)), 1_783_510_200_000);
}

#[test]
fn webhook_config_needs_url() {
    let ok = check_webhook_config(WebhookConfig { url: "https://example.com/hook".to_string() });
    assert_eq!(ok.unwrap().url, "https://example.com/hook");
    assert!(matches!(
        check_webhook_config(WebhookConfig { url: " \t\r\n".to_string() }),
        Err(ConfigError::EmptyWebhookUrl)
    ));
    assert!(matches!(
        check_webhook_config(WebhookConfig { url: "\u{3000}".to_string() }),
        Err(ConfigError::EmptyWebhookUrl)
    ));
    assert!(matches!(
        check_webhook_config(WebhookConfig { url: String::new() }),
        Err(ConfigError::EmptyWebhookUrl)
    ));
}

#[test]
fn timestamp_bounds() {
    assert!(Timestamp::from_parts(0, 1_000_000_000).is_none());
    assert!(Timestamp::from_parts(8_210_266_876_799, 999_999_999).is_some());
    assert!(Timestamp::from_parts(8_210_266_876_800, 0).is_none());
    assert!(Timestamp::from_parts(-8_334_601_228_800, 0).is_some());
    assert!(Timestamp::from_parts(-8_334_601_228_801, 0).is_none());
}

#[test]
fn localhost_certificate_is_generated() {
    let id = localhost_identity().unwrap();
    assert!(!id.cert_der.is_empty());
    assert!(!id.key_der.is_empty());
    assert_eq!(id.cert_der[0], 0x30);
    assert_eq!(id.key_der[0], 0x30);
}

#[test]
fn transcript_file_names_are_safe() {
    let name = transcript_file_name_for("ev il/../x y@z", &vec!["a b\\c".to_string()], "2026-07-08T12:00:00.5+00:00");
    assert!(name.chars().all(|c| c.is_ascii_alphanumeric() || c == '-' || c == '.'));
    assert!(!name.contains(' ') && !name.contains('/'));
    assert!(name.ends_with(".txt"));
    assert_eq!(name, "ev-il----x-y-z-a-b-c-2026-07-08T12-00-00-5-00-00.txt");
}

#[test]
fn millis_keep_order_of_instants() {
    let a = t(10, 999_999);
    let b = t(10, 1_000_000);
    assert!(a.before(&b));
    assert!(mongodb_cutoff_millis(a) <= mongodb_cutoff_millis(b));
    assert_eq!(mongodb_cutoff_millis(a), 10_000);
    assert_eq!(mongodb_cutoff_millis(b), 10_001);
}

#[test]
fn clock_readings_become_instants() {
    assert_eq!(instant_from_clock_reading(Ok((5, 7))), Some(t(5, 7)));
    assert_eq!(instant_from_clock_reading(Err((5, 0))), Some(t(-5, 0)));
    assert_eq!(instant_from_clock_reading(Err((5, 250_000_000))), Some(t(-6, 750_000_000)));
    assert_eq!(instant_from_clock_reading(Ok((u64::MAX, 0))), None);
    assert_eq!(instant_from_clock_reading(Ok((8_210_266_876_800, 0))), None);
    assert_eq!(instant_from_clock_reading(Err((8_334_601_228_800, 0))), Some(t(-8_334_601_228_800, 0)));
    assert_eq!(instant_from_clock_reading(Err((8_334_601_228_800, 1))), None);
}

#[test]
fn cleanup_cutoff_from_clock_readings() {
    assert_eq!(cleanup_cutoff_from_clock(Ok((1_783_512_000, 5)), 30), Some(t(1_783_510_200, 5)));
    assert_eq!(cleanup_cutoff_from_clock(Err((60, 0)), 1), Some(t(-120, 0)));
    assert_eq!(cleanup_cutoff_from_clock(Ok((u64::MAX, 0)), 30), None);
}

#[test]
fn firebase_writes_after_posting() {
    let w = firebase_message_writes("b/", "p", "-K", Some("a"));
    assert_eq!(w.summary_url, "b/messageSummaries/p/-K.json?auth=a");
    assert_eq!(w.cleanup_url, "b/messageCleanup/p/-K.json?auth=a");
    assert_eq!(w.group_url, "b/messageGroups/p.json?auth=a");
    let g = group_update_after_save("-K");
    assert_eq!(g.count_change, 1);
    assert_eq!(g.latest_message_id, Some("-K".to_string()));
}

#[test]
fn firebase_group_update_after_cleanup() {
    let g = group_update_after_cleanup(3).unwrap();
    assert_eq!(g.count_change, -3);
    assert_eq!(g.latest_message_id, None);
    assert!(group_update_after_cleanup(0).is_none());
}

#[test]
fn firebase_summary_and_cleanup_entry() {
    let email = ReceivedEmail {
        peer_addr: "10.0.0.1:25".to_string(),
        from: "a@x".to_string(),
        recipients: vec!["b@x".to_string(), "c@x".to_string()],
        data: "body\n".to_string(),
        transcript: "S: 220 mail-box ready\r\n".to_string(),
        received_at: t(1_783_510_200, 7),
    };
    let s = message_summary(&email);
    assert_eq!(s.peer_addr, "10.0.0.1:25");
    assert_eq!(s.from, "a@x");
    assert_eq!(s.recipients, vec!["b@x".to_string(), "c@x".to_string()]);
    assert_eq!(s.received_at, t(1_783_510_200, 7));
    assert_eq!(cleanup_entry(&email).received_at, t(1_783_510_200, 7));
}

#[test]
fn certificate_names_localhost() {
    assert_eq!(localhost_names(), vec!["localhost".to_string()]);
    let id = localhost_identity().unwrap();
    assert!(id.cert_der.windows(9).any(|w| w == b"localhost"));
}
