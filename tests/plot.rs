use exchange_rate_monitor::exchange::{ExchangeRate, Timestamp};
use exchange_rate_monitor::plot::{chart, daily_series, PlotError};
use exchange_rate_monitor::rate::Rate;

const DEC_26_2024: i64 = 1735171202;

fn at(rate: &str, secs: i64) -> ExchangeRate {
    ExchangeRate { rate: Rate::parse(rate).unwrap(), date: Timestamp { secs, nanos: 0 } }
}

fn rate(s: &str) -> Option<Rate> {
    Some(Rate::parse(s).unwrap())
}

fn labels(prices: &[ExchangeRate]) -> Vec<(usize, String)> {
    chart(prices).unwrap().ticks.into_iter().map(|t| (t.position, t.label)).collect()
}

#[test]
fn test_successful_plot_generation() {
    let prices = vec![
        at("100", DEC_26_2024 + 86400),
        at("150", DEC_26_2024 + 2 * 86400),
        at("200", DEC_26_2024 + 3 * 86400),
        at("250", DEC_26_2024 + 4 * 86400),
    ];
    let c = chart(&prices).unwrap();
    assert_eq!(c.series.first_day, 20084);
    assert_eq!(c.series.rates, vec![rate("100"), rate("150"), rate("200"), rate("250")]);
    assert_eq!(
        labels(&prices),
        vec![
            (0, "27-12-2024".to_string()),
            (1, "28-12-2024".to_string()),
            (2, "29-12-2024".to_string()),
            (3, "30-12-2024".to_string()),
        ]
    );
}

#[test]
fn test_empty_data() {
    let result = chart(&[]);
    assert!(result.is_err());
    if let Err(e) = result {
        assert_eq!(e, PlotError::Empty);
        assert!(e.message().contains("empty"));
    }
}

#[test]
fn test_large_dataset() {
    let prices: Vec<ExchangeRate> =
        (1..=1000).map(|i| at(&i.to_string(), DEC_26_2024 + 86400 * i)).collect();
    let c = chart(&prices).unwrap();
    assert_eq!(c.series.rates.len(), 1000);
    assert_eq!(c.series.rates[999], rate("1000"));
    let positions: Vec<usize> = c.ticks.iter().map(|t| t.position).collect();
    assert_eq!(positions, vec![0, 200, 400, 600, 800]);
    assert_eq!(c.ticks[0].label, "27-12-2024");
}

#[test]
fn test_duplicate_labels() {
    let prices = vec![
        at("100", DEC_26_2024),
        at("150", DEC_26_2024),
        at("200", DEC_26_2024 + 86400),
    ];
    let c = chart(&prices).unwrap();
    assert_eq!(c.series.rates, vec![rate("150"), rate("200")]);
    assert_eq!(
        labels(&prices),
        vec![(0, "26-12-2024".to_string()), (1, "27-12-2024".to_string())]
    );
}

#[test]
fn missing_days_are_gaps() {
    let prices = vec![at("3", DEC_26_2024 + 3 * 86400), at("1", DEC_26_2024)];
    let s = daily_series(&prices).unwrap();
    assert_eq!(s.first_day, 20083);
    assert_eq!(s.rates, vec![rate("1"), None, None, rate("3")]);
}

#[test]
fn days_before_the_epoch_round_down() {
    let prices = vec![at("1", -1), at("2", 0), at("3", 86399)];
    let s = daily_series(&prices).unwrap();
    assert_eq!(s.first_day, -1);
    assert_eq!(s.rates, vec![rate("1"), rate("3")]);
    assert_eq!(labels(&prices)[0], (0, "31-12-1969".to_string()));
}

#[test]
fn far_dates_have_no_label() {
    let prices = vec![at("1", i64::MAX)];
    assert_eq!(chart(&prices).err(), Some(PlotError::DateOutOfRange));
    assert_eq!(PlotError::DateOutOfRange.message(), "date out of range");
}
