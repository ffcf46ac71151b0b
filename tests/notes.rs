use exchange_rate_monitor::email::{addresses, EmailMessage};
use exchange_rate_monitor::exchange::{ExchangeRate, Timestamp};
use exchange_rate_monitor::love_note::LoveNote;
use exchange_rate_monitor::rate::Rate;
use exchange_rate_monitor::text::split_on;

#[test]
fn notes_are_the_trimmed_lines() {
    let notes = LoveNote::notes("  \n first note\nsecond\n\n");
    assert_eq!(notes, vec!["first note".to_string(), "second".to_string()]);
    assert_eq!(LoveNote::notes(""), vec![String::new()]);
    assert_eq!(LoveNote::notes("a\n\nb"), vec!["a".to_string(), String::new(), "b".to_string()]);
}

#[test]
fn pick_takes_the_note_at_an_index() {
    let notes = LoveNote::notes("a\nb\nc");
    assert_eq!(LoveNote::pick(&notes, 1).unwrap().message, "b");
    assert!(LoveNote::pick(&notes, 3).is_none());
}

#[test]
fn new_picks_one_of_the_notes() {
    for _ in 0..20 {
        let n = LoveNote::new("\nyou\nme\nus\n");
        assert!(["you", "me", "us"].contains(&n.message.as_str()), "{}", n.message);
    }
    assert_eq!(LoveNote::new("  only  ").message, "only");
    assert_eq!(LoveNote::new("").message, "");
}

#[test]
fn split_on_keeps_empty_pieces() {
    assert_eq!(split_on("a;b;;c", ';'), vec!["a", "b", "", "c"]);
    assert_eq!(split_on("", ';'), vec![""]);
    assert_eq!(split_on(";", ';'), vec!["", ""]);
}

#[test]
fn alert_splits_the_blind_copies() {
    let m = EmailMessage::alert(
        "me@example.com".to_string(),
        Some("you@example.com".to_string()),
        None,
        "a@example.com;b@example.com",
        "body".to_string(),
        Some("plots/x.png".to_string()),
    );
    assert_eq!(m.bcc, vec!["a@example.com", "b@example.com"]);
    assert_eq!(m.subject, "[Aγάπη σου ❤️] Exchange Rate Alert");
    assert_eq!(m.from, "me@example.com");
    assert_eq!(m.to.as_deref(), Some("you@example.com"));
    assert_eq!(m.cc, None);
    assert_eq!(m.body, "body");
    assert_eq!(m.attachment.as_deref(), Some("plots/x.png"));
    let m = EmailMessage::alert(
        "me@example.com".to_string(),
        None,
        None,
        "",
        "body".to_string(),
        None,
    );
    assert!(m.bcc.is_empty());
}

#[test]
fn addresses_skip_empty_entries() {
    assert_eq!(addresses("a@x.se;;b@x.se;"), vec!["a@x.se", "b@x.se"]);
    assert!(addresses("").is_empty());
    assert!(addresses(";;").is_empty());
}

#[test]
fn exchange_rate_reads_rfc2822_dates() {
    let r = Rate::parse("11.2").unwrap();
    let o = ExchangeRate::new(r, "Fri, 27 Dec 2024 00:00:01 +0000").unwrap();
    assert_eq!(o.rate, r);
    assert_eq!(o.date, Timestamp { secs: 1735257601, nanos: 0 });
    let o = ExchangeRate::new(r, "Fri, 27 Dec 2024 01:00:01 +0100").unwrap();
    assert_eq!(o.date, Timestamp { secs: 1735257601, nanos: 0 });
    assert!(ExchangeRate::new(r, "2024-12-27T00:00:02Z").is_none());
    assert!(ExchangeRate::new(r, "Day1").is_none());
}
