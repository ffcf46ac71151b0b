//! Deciding, from the history of rates, when a new rate is worth a notification.

use vstd::prelude::*;

use crate::exchange::ExchangeRate;
use crate::love_note::LoveNote;
use crate::rate::{lemma_fixed_exact, Rate};
use crate::storage::FileStorage;
use crate::text::pow10;

verus! {

/// Why a rate is worth a notification.
#[derive(Clone, Copy, Debug, PartialEq, Eq, Structural)]
pub enum Notification {
    /// The last three rates rose twice in a row, oldest first.
    Trend { first: Rate, second: Rate, third: Rate },
    /// The current rate reached the threshold.
    ThresholdBreach { rate: Rate, threshold: Rate },
}

/// The last three entries of `history` rise strictly, twice in a row.
pub open spec fn rising(history: Seq<ExchangeRate>) -> bool {
    let n = history.len() as int;
    &&& n >= 3
    &&& history[n - 3].rate.below(history[n - 2].rate)
    &&& history[n - 2].rate.below(history[n - 1].rate)
}

/// The verdict on `current`, the rate just appended to `history`: a trend of
/// the last three entries first, whatever the threshold; else a breach when
/// `current` is at least `threshold`; else nothing.
pub open spec fn verdict(history: Seq<ExchangeRate>, current: Rate, threshold: Rate) -> Option<
    Notification,
> {
    let n = history.len() as int;
    if rising(history) {
        Some(
            Notification::Trend {
                first: history[n - 3].rate,
                second: history[n - 2].rate,
                third: history[n - 1].rate,
            },
        )
    } else if !current.below(threshold) {
        Some(Notification::ThresholdBreach { rate: current, threshold })
    } else {
        None
    }
}

/// Decides whether `current_rate`, the rate just appended to `history`, is
/// worth a notification, and why.
pub fn decide(history: &[ExchangeRate], current_rate: Rate, threshold: Rate) -> (r: Option<
    Notification,
>)
    ensures
        r == verdict(history@, current_rate, threshold),
{
    let n = history.len();
    if n >= 3 {
        let a = history[n - 3].rate;
        let b = history[n - 2].rate;
        let c = history[n - 1].rate;
        if a.is_below(&b) && b.is_below(&c) {
            return Some(Notification::Trend { first: a, second: b, third: c });
        }
    }
    if !current_rate.is_below(&threshold) {
        Some(Notification::ThresholdBreach { rate: current_rate, threshold })
    } else {
        None
    }
}

/// The text that closes every message.
pub open spec fn signature(note: Seq<char>) -> Seq<char> {
    "\n\n"@ + note + " ❤️\n\nLove, Maco 🥰"@
}

/// The message that tells of `n`: rates of a trend with four decimals, a
/// threshold and a rate with two, then `note`.
pub open spec fn message_text(n: Notification, note: Seq<char>) -> Seq<char> {
    match n {
        Notification::Trend { first, second, third } => "Better EURO to SEK rate now than the previous 2 days. Gone from "@
            + first.fixed_text(4) + " -> "@ + second.fixed_text(4) + " -> "@ + third.fixed_text(4)
            + signature(note),
        Notification::ThresholdBreach { rate, threshold } =>
            "The exchange rate has now exceeded the limit of "@ + threshold.fixed_text(2)
            + " SEK. The rate is now 1 EUR = "@ + rate.fixed_text(2) + " SEK"@ + signature(note),
    }
}

impl Notification {
    /// The message that tells of this notification, closed with `note`.
    pub fn message(&self, note: &str) -> (r: String)
        ensures
            r@ == message_text(*self, note@),
    {
        let mut out = String::new();
        match self {
            Notification::Trend { first, second, third } => {
                out.append("Better EURO to SEK rate now than the previous 2 days. Gone from ");
                out.append(first.to_fixed(4).as_str());
                out.append(" -> ");
                out.append(second.to_fixed(4).as_str());
                out.append(" -> ");
                out.append(third.to_fixed(4).as_str());
            },
            Notification::ThresholdBreach { rate, threshold } => {
                out.append("The exchange rate has now exceeded the limit of ");
                out.append(threshold.to_fixed(2).as_str());
                out.append(" SEK. The rate is now 1 EUR = ");
                out.append(rate.to_fixed(2).as_str());
                out.append(" SEK");
            },
        }
        out.append("\n\n");
        out.append(note);
        out.append(" ❤️\n\nLove, Maco 🥰");
        assert(out@ =~= message_text(*self, note@));
        out
    }
}

/// With fewer than three entries in the history there is no trend, so a rate
/// below the threshold gives no notification.
pub proof fn lemma_short_history_below_threshold(
    history: Seq<ExchangeRate>,
    current: Rate,
    threshold: Rate,
)
    requires
        history.len() < 3,
        current.below(threshold),
    ensures
        verdict(history, current, threshold) is None,
{
}

/// When the last three rates rise strictly, twice in a row, the verdict is
/// that trend, with the three rates oldest first, whatever the threshold.
pub proof fn lemma_trend_ignores_threshold(
    history: Seq<ExchangeRate>,
    current: Rate,
    threshold: Rate,
)
    requires
        history.len() >= 3,
        history[history.len() - 3].rate.below(history[history.len() - 2].rate),
        history[history.len() - 2].rate.below(history[history.len() - 1].rate),
    ensures
        verdict(history, current, threshold) == Some(
            Notification::Trend {
                first: history[history.len() - 3].rate,
                second: history[history.len() - 2].rate,
                third: history[history.len() - 1].rate,
            },
        ),
        forall|other: Rate| #[trigger]
            verdict(history, current, other) == verdict(history, current, threshold),
{
}

/// Without a trend, a rate at or above the threshold gives the threshold
/// message, which writes the threshold and the rate with two decimals: as
/// they are, without rounding, when they have at most two.
pub proof fn lemma_threshold_reached(
    history: Seq<ExchangeRate>,
    current: Rate,
    threshold: Rate,
    note: Seq<char>,
)
    requires
        !rising(history),
        !current.below(threshold),
    ensures
        verdict(history, current, threshold) == Some(
            Notification::ThresholdBreach { rate: current, threshold },
        ),
        message_text(Notification::ThresholdBreach { rate: current, threshold }, note)
            == "The exchange rate has now exceeded the limit of "@ + threshold.fixed_text(2)
            + " SEK. The rate is now 1 EUR = "@ + current.fixed_text(2) + " SEK"@ + signature(
            note,
        ),
        threshold@.1 <= 2 ==> threshold.rounded(2) == threshold@.0 * pow10(
            (2 - threshold@.1) as nat,
        ),
        current@.1 <= 2 ==> current.rounded(2) == current@.0 * pow10((2 - current@.1) as nat),
{
    if threshold@.1 <= 2 {
        lemma_fixed_exact(threshold, 2);
    }
    if current@.1 <= 2 {
        lemma_fixed_exact(current, 2);
    }
}

/// Without a trend, a rate below the threshold gives no notification.
pub proof fn lemma_below_threshold_quiet(history: Seq<ExchangeRate>, current: Rate, threshold: Rate)
    requires
        !rising(history),
        current.below(threshold),
    ensures
        verdict(history, current, threshold) is None,
{
}

/// The settings that the monitor runs with.
pub struct ExchangeRateConfig {
    /// The rate at or above which a notification is due.
    pub threshold: Rate,
    /// Run the decisions, but send nothing.
    pub debug: bool,
}

impl ExchangeRateConfig {
    pub fn new(threshold: Rate, debug: bool) -> (r: ExchangeRateConfig)
        ensures
            r.threshold == threshold,
            r.debug == debug,
    {
        ExchangeRateConfig { threshold, debug }
    }
}

/// Keeps the history of rates and judges each new one against it.
pub struct ExchangeRateMonitor {
    storage: FileStorage,
}

impl View for ExchangeRateMonitor {
    type V = Seq<ExchangeRate>;

    /// The history of rates, oldest first.
    closed spec fn view(&self) -> Seq<ExchangeRate> {
        self.storage@
    }
}

impl ExchangeRateMonitor {
    /// The path of the file that keeps the history.
    pub closed spec fn file(&self) -> Seq<char> {
        self.storage.file()
    }

    pub fn new(storage: FileStorage) -> (r: ExchangeRateMonitor)
        ensures
            r@ == storage@,
            r.file() == storage.file(),
    {
        ExchangeRateMonitor { storage }
    }

    pub fn storage(&self) -> (r: &FileStorage)
        ensures
            r@ == self@,
            r.file() == self.file(),
    {
        &self.storage
    }

    /// Appends the observation of `rate` at the RFC 2822 date `date` to the
    /// history and returns it; when `date` is no such date, returns `None` and
    /// keeps the history as it was.
    pub fn record_rate(&mut self, rate: Rate, date: &str) -> (r: Option<ExchangeRate>)
        ensures
            r == crate::exchange::observation(rate, crate::exchange::rfc2822_instant(date@)),
            final(self).file() == old(self).file(),
            match r {
                Some(o) => final(self)@ == old(self)@.push(o),
                None => final(self)@ == old(self)@,
            },
    {
        let observed = ExchangeRate::new(rate, date);
        if let Some(o) = observed {
            self.storage.add(o);
        }
        observed
    }

    /// The verdict on `current_rate`, the rate just recorded.
    pub fn evaluate(&self, current_rate: Rate, thresh: Rate) -> (r: Option<Notification>)
        ensures
            r == verdict(self@, current_rate, thresh),
    {
        decide(self.storage.history(), current_rate, thresh)
    }

    /// The message to send about `current_rate`, the rate just recorded,
    /// closed with `love_note`; `None` when nothing is worth sending.
    pub fn should_notify(&self, current_rate: Rate, thresh: Rate, love_note: &LoveNote) -> (r:
        Option<String>)
        ensures
            match verdict(self@, current_rate, thresh) {
                Some(n) => r matches Some(m) && m@ == message_text(n, love_note.message@),
                None => r is None,
            },
    {
        match self.evaluate(current_rate, thresh) {
            Some(n) => Some(n.message(love_note.message.as_str())),
            None => None,
        }
    }
}

} // verus!
