use exchange_rate_monitor::exchange::{ExchangeRate, Timestamp};
use exchange_rate_monitor::love_note::LoveNote;
use exchange_rate_monitor::monitor::{decide, ExchangeRateConfig, ExchangeRateMonitor, Notification};
use exchange_rate_monitor::rate::Rate;
use exchange_rate_monitor::storage::FileStorage;

fn rate(s: &str) -> Rate {
    Rate::parse(s).unwrap()
}

fn history(rates: &[&str]) -> Vec<ExchangeRate> {
    rates
        .iter()
        .enumerate()
        .map(|(i, r)| ExchangeRate {
            rate: rate(r),
            date: Timestamp { secs: 1735257602 + 86400 * i as i64, nanos: 0 },
        })
        .collect()
}

/// A monitor over `before`, with `current` recorded on top of it.
fn monitor_after(before: &[&str], current: &str) -> ExchangeRateMonitor {
    let storage = FileStorage::new("data.json", Some(history(before)));
    let mut monitor = ExchangeRateMonitor::new(storage);
    let recorded = monitor.record_rate(rate(current), "Fri, 27 Dec 2024 00:00:02 +0000");
    assert!(recorded.is_some());
    monitor
}

fn note() -> LoveNote {
    LoveNote { message: "Hej".to_string() }
}

const CLOSING: &str = "\n\nHej ❤️\n\nLove, Maco 🥰";

#[test]
fn scenario_rising_trend_below_threshold() {
    let m = monitor_after(&["9.0", "9.5"], "10.0");
    let msg = m.should_notify(rate("10.0"), rate("11.0"), &note()).unwrap();
    assert_eq!(
        msg,
        format!(
            "Better EURO to SEK rate now than the previous 2 days. Gone from 9.0000 -> 9.5000 -> 10.0000{CLOSING}"
        )
    );
    assert!(msg.contains("9.0000 -> 9.5000 -> 10.0000"));
}

#[test]
fn scenario_first_rate_above_threshold() {
    let m = monitor_after(&[], "12.0");
    let msg = m.should_notify(rate("12.0"), rate("11.55"), &note()).unwrap();
    assert_eq!(
        msg,
        format!(
            "The exchange rate has now exceeded the limit of 11.55 SEK. The rate is now 1 EUR = 12.00 SEK{CLOSING}"
        )
    );
}

#[test]
fn scenario_no_trend_below_threshold() {
    let m = monitor_after(&["10.0", "9.0"], "9.5");
    assert_eq!(m.should_notify(rate("9.5"), rate("11.55"), &note()), None);
    assert_eq!(m.evaluate(rate("9.5"), rate("11.55")), None);
}

#[test]
fn scenario_equal_rates_break_the_trend() {
    let m = monitor_after(&["10.0", "11.0"], "11.0");
    let verdict = m.evaluate(rate("11.0"), rate("10.0"));
    assert_eq!(
        verdict,
        Some(Notification::ThresholdBreach { rate: rate("11.0"), threshold: rate("10.0") })
    );
    let msg = m.should_notify(rate("11.0"), rate("10.0"), &note()).unwrap();
    assert!(msg.starts_with("The exchange rate has now exceeded the limit of 10.00 SEK."));
    assert!(msg.contains("1 EUR = 11.00 SEK"));
}

#[test]
fn short_history_below_threshold_is_quiet() {
    for before in [&[][..], &["20"][..]] {
        let m = monitor_after(before, "5");
        assert_eq!(m.evaluate(rate("5"), rate("6")), None);
    }
    assert_eq!(decide(&history(&["1", "2"]), rate("2"), rate("3")), None);
}

#[test]
fn trend_wins_whatever_the_threshold() {
    let h = history(&["100", "1.5", "1.6", "1.7"]);
    let trend = Some(Notification::Trend { first: rate("1.5"), second: rate("1.6"), third: rate("1.7") });
    for t in ["0", "1.7", "1.69", "18446744073709551615"] {
        assert_eq!(decide(&h, rate("1.7"), rate(t)), trend);
    }
}

#[test]
fn threshold_is_inclusive() {
    let h = history(&["3", "2", "11.55"]);
    assert_eq!(
        decide(&h, rate("11.55"), rate("11.55")),
        Some(Notification::ThresholdBreach { rate: rate("11.55"), threshold: rate("11.55") })
    );
    assert_eq!(
        decide(&h, rate("11.550"), rate("11.55")),
        Some(Notification::ThresholdBreach { rate: rate("11.550"), threshold: rate("11.55") })
    );
    assert_eq!(decide(&h, rate("11.5499"), rate("11.55")), None);
}

#[test]
fn only_the_last_three_entries_count() {
    let h = history(&["1", "2", "3", "2", "2.5"]);
    assert_eq!(decide(&h, rate("2.5"), rate("4")), None);
    let h = history(&["5", "4", "3", "3.1", "3.2"]);
    assert!(matches!(decide(&h, rate("3.2"), rate("4")), Some(Notification::Trend { .. })));
}

#[test]
fn threshold_message_writes_both_values_verbatim() {
    let msg = Notification::ThresholdBreach { rate: rate("11.7"), threshold: rate("11.55") }
        .message("x");
    assert_eq!(
        msg,
        "The exchange rate has now exceeded the limit of 11.55 SEK. The rate is now 1 EUR = 11.70 SEK\n\nx ❤️\n\nLove, Maco 🥰"
    );
}

#[test]
fn record_rate_rejects_bad_dates() {
    let mut m = ExchangeRateMonitor::new(FileStorage::new("data.json", None));
    assert!(m.record_rate(rate("11"), "2024-12-27T00:00:02Z").is_none());
    assert!(m.storage().history().is_empty());
    let o = m.record_rate(rate("11"), "Fri, 27 Dec 2024 00:00:01 +0000").unwrap();
    assert_eq!(o.date, Timestamp { secs: 1735257601, nanos: 0 });
    assert_eq!(m.storage().history(), &[o][..]);
    assert_eq!(m.storage().storage_file(), "data.json");
}

#[test]
fn config_keeps_its_values() {
    let c = ExchangeRateConfig::new(rate("11.55"), true);
    assert_eq!(c.threshold, rate("11.55"));
    assert!(c.debug);
}
