//! The daily series that a chart of the history draws.
//!
//! A chart has one point per calendar day (UTC) from the first day of the
//! history to the last; a day with several observations shows the last of
//! them, and a day without one shows a gap.

use vstd::prelude::*;

use crate::exchange::{ExchangeRate, Timestamp};
use crate::rate::Rate;

verus! {

/// The UTC day of an instant, counted from 1 January 1970.
pub open spec fn day_of(t: Timestamp) -> int {
    t.secs as int / 86400
}

pub open spec fn min(a: int, b: int) -> int {
    if a <= b {
        a
    } else {
        b
    }
}

pub open spec fn max(a: int, b: int) -> int {
    if a >= b {
        a
    } else {
        b
    }
}

/// The earliest day of the observations in `prices` (non-empty).
pub open spec fn first_day(prices: Seq<ExchangeRate>) -> int
    decreases prices.len(),
{
    if prices.len() <= 1 {
        day_of(prices[0].date)
    } else {
        min(first_day(prices.drop_last()), day_of(prices.last().date))
    }
}

/// The latest day of the observations in `prices` (non-empty).
pub open spec fn last_day(prices: Seq<ExchangeRate>) -> int
    decreases prices.len(),
{
    if prices.len() <= 1 {
        day_of(prices[0].date)
    } else {
        max(last_day(prices.drop_last()), day_of(prices.last().date))
    }
}

/// The rate of the last observation in `prices` made on day `d`, if any.
pub open spec fn rate_on(prices: Seq<ExchangeRate>, d: int) -> Option<Rate>
    decreases prices.len(),
{
    if prices.len() == 0 {
        None
    } else if day_of(prices.last().date) == d {
        Some(prices.last().rate)
    } else {
        rate_on(prices.drop_last(), d)
    }
}

/// One rate, or a gap, for each day from `first_day` on.
pub struct DailySeries {
    pub first_day: i64,
    pub rates: Vec<Option<Rate>>,
}

/// `s` is the series of `prices`: it spans their first to their last day,
/// and shows on each day the last rate observed that day.
pub open spec fn is_series_of(s: DailySeries, prices: Seq<ExchangeRate>) -> bool {
    &&& s.first_day == first_day(prices)
    &&& s.rates@.len() == last_day(prices) - first_day(prices) + 1
    &&& forall|i: int|
        0 <= i < s.rates@.len() ==> #[trigger] s.rates@[i] == rate_on(prices, first_day(prices) + i)
}

/// The earliest day that an `i64` count of seconds can fall on.
pub const MIN_DAY: i64 = -106751991167301;

/// The latest day that an `i64` count of seconds can fall on.
pub const MAX_DAY: i64 = 106751991167300;

/// The UTC day of `t`.
pub fn day_number(t: &Timestamp) -> (d: i64)
    ensures
        d == day_of(*t),
        MIN_DAY <= d <= MAX_DAY,
{
    let q = t.secs / 86400;
    let r = t.secs % 86400;
    if r < 0 {
        q - 1
    } else {
        q
    }
}

pub proof fn lemma_days_in_range(prices: Seq<ExchangeRate>)
    requires
        prices.len() > 0,
    ensures
        first_day(prices) <= last_day(prices),
        forall|k: int|
            0 <= k < prices.len() ==> first_day(prices) <= #[trigger] day_of(prices[k].date)
                <= last_day(prices),
        MIN_DAY <= first_day(prices),
        last_day(prices) <= MAX_DAY,
    decreases prices.len(),
{
    if prices.len() > 1 {
        let init = prices.drop_last();
        lemma_days_in_range(init);
        assert forall|k: int| 0 <= k < prices.len() implies first_day(prices) <= #[trigger] day_of(
            prices[k].date,
        ) <= last_day(prices) by {
            if k < prices.len() - 1 {
                assert(prices[k] == init[k]);
            }
        }
    }
}

/// The daily series of `prices`; `None` when there are none, or when they
/// span more days than a `Vec` can index (never on a 64-bit target).
pub fn daily_series(prices: &[ExchangeRate]) -> (r: Option<DailySeries>)
    ensures
        r is Some <==> prices@.len() > 0 && last_day(prices@) - first_day(prices@) < usize::MAX,
        r matches Some(s) ==> is_series_of(s, prices@),
{
    let n = prices.len();
    if n == 0 {
        return None;
    }
    let mut lo = day_number(&prices[0].date);
    let mut hi = lo;
    let mut k: usize = 1;
    while k < n
        invariant
            1 <= k <= n,
            n == prices@.len(),
            lo == first_day(prices@.subrange(0, k as int)),
            hi == last_day(prices@.subrange(0, k as int)),
        decreases n - k,
    {
        let d = day_number(&prices[k].date);
        assert(prices@.subrange(0, k + 1).drop_last() =~= prices@.subrange(0, k as int));
        if d < lo {
            lo = d;
        }
        if d > hi {
            hi = d;
        }
        k = k + 1;
    }
    assert(prices@.subrange(0, n as int) =~= prices@);
    proof {
        lemma_days_in_range(prices@);
    }
    if (hi - lo) as u64 >= usize::MAX as u64 {
        return None;
    }
    let span = (hi - lo) as usize + 1;
    let mut rates: Vec<Option<Rate>> = Vec::new();
    let mut i: usize = 0;
    while i < span
        invariant
            i <= span,
            rates@.len() == i,
            forall|j: int| 0 <= j < i ==> #[trigger] rates@[j] is None,
        decreases span - i,
    {
        rates.push(None);
        i = i + 1;
    }
    let mut k: usize = 0;
    while k < n
        invariant
            k <= n,
            n == prices@.len(),
            rates@.len() == span,
            span == hi - lo + 1,
            lo == first_day(prices@),
            hi == last_day(prices@),
            MIN_DAY <= lo <= hi <= MAX_DAY,
            forall|k: int|
                0 <= k < prices@.len() ==> lo <= #[trigger] day_of(prices@[k].date) <= hi,
            forall|j: int|
                0 <= j < span ==> #[trigger] rates@[j] == rate_on(
                    prices@.subrange(0, k as int),
                    lo + j,
                ),
        decreases n - k,
    {
        let o = prices[k];
        let d = day_number(&o.date);
        assert(day_of(prices@[k as int].date) == d);
        assert(lo <= d <= hi);
        assert(prices@.subrange(0, k + 1).drop_last() =~= prices@.subrange(0, k as int));
        assert(prices@.subrange(0, k + 1).last() == o);
        rates.set((d - lo) as usize, Some(o.rate));
        k = k + 1;
    }
    assert(prices@.subrange(0, n as int) =~= prices@);
    Some(DailySeries { first_day: lo, rates })
}

/// The number, counting 1 January of year 1 as day 1, of 1 January 1970.
pub const CE_DAY_OF_UNIX_EPOCH: i64 = 719163;

/// The date of a day, counted from 1 January of year 1 as day 1, written
/// day-month-year as chrono writes `%d-%m-%Y` (`27-12-2024`); `None` outside
/// chrono's range of dates.
pub uninterp spec fn dmy_label(days_from_ce: i32) -> Option<Seq<char>>;

/// Relies on chrono's `NaiveDate::from_num_days_from_ce_opt`, and on
/// `NaiveDate::format` with the pattern `%d-%m-%Y`: the date of a day number,
/// written day-month-year.
#[verifier::external_body]
fn date_label(days_from_ce: i32) -> (r: Option<String>)
    ensures
        match r {
            Some(s) => dmy_label(days_from_ce) == Some(s@),
            None => dmy_label(days_from_ce) is None,
        },
{
    match chrono::NaiveDate::from_num_days_from_ce_opt(days_from_ce) {
        Some(d) => Some(d.format("%d-%m-%Y").to_string()),
        None => None,
    }
}

/// The label of day `d` (counted from 1 January 1970), if it has one.
pub open spec fn label_of_day(d: int) -> Option<Seq<char>> {
    let n = d + CE_DAY_OF_UNIX_EPOCH;
    if i32::MIN <= n <= i32::MAX {
        dmy_label(n as i32)
    } else {
        None
    }
}

/// The distance between two labelled ticks on an axis of `n` points: a fifth
/// of the points, and at least one.
pub open spec fn tick_step(n: nat) -> nat {
    if n / 5 == 0 {
        1
    } else {
        n / 5
    }
}

/// A labelled mark on the axis of days.
pub struct Tick {
    /// The index of the day in the series.
    pub position: usize,
    pub label: String,
}

/// `ticks` mark every `tick_step(n)`-th of the `n` days from day `first`,
/// starting with the first, each with the label of its day.
pub open spec fn ticks_of(ticks: Seq<Tick>, first: int, n: nat) -> bool {
    let step = tick_step(n);
    &&& ticks.len() * step >= n
    &&& ticks.len() > 0 ==> (ticks.len() - 1) * step < n
    &&& forall|i: int|
        0 <= i < ticks.len() ==> {
            &&& #[trigger] ticks[i].position == i * step
            &&& label_of_day(first + i * step) == Some(ticks[i].label@)
        }
}

/// Every day that `ticks_of` marks has a label.
pub open spec fn labelled(first: int, n: nat) -> bool {
    forall|i: int| 0 <= i && i * tick_step(n) < n ==> (#[trigger] label_of_day(first + i * tick_step(n))) is Some
}

/// The labelled ticks of an axis of `n` days from day `first`; `None` when
/// one of those days has no label.
pub fn day_ticks(first: i64, n: usize) -> (r: Option<Vec<Tick>>)
    requires
        MIN_DAY <= first,
        first + n <= MAX_DAY + 1,
    ensures
        r is Some <==> labelled(first as int, n as nat),
        r matches Some(t) ==> ticks_of(t@, first as int, n as nat),
{
    let step: u64 = if n / 5 == 0 {
        1
    } else {
        (n / 5) as u64
    };
    let mut ticks: Vec<Tick> = Vec::new();
    let mut pos: u64 = 0;
    assert(ticks@.len() * step == 0) by (nonlinear_arith)
        requires
            ticks@.len() == 0,
    ;
    while pos < n as u64
        invariant
            MIN_DAY <= first,
            first + n <= MAX_DAY + 1,
            step == tick_step(n as nat),
            step >= 1,
            pos == ticks@.len() * step,
            ticks@.len() > 0 ==> (ticks@.len() - 1) * step < n,
            forall|i: int|
                0 <= i < ticks@.len() ==> {
                    &&& #[trigger] ticks@[i].position == i * step
                    &&& label_of_day(first + i * step) == Some(ticks@[i].label@)
                },
        decreases n + step - pos,
    {
        let day = first + pos as i64;
        let days_from_ce = day + CE_DAY_OF_UNIX_EPOCH;
        if days_from_ce < i32::MIN as i64 || days_from_ce > i32::MAX as i64 {
            assert(!labelled(first as int, n as nat)) by {
                assert(label_of_day(first + ticks@.len() * step) is None);
            }
            return None;
        }
        match date_label(days_from_ce as i32) {
            Some(label) => {
                ticks.push(Tick { position: pos as usize, label });
            },
            None => {
                assert(!labelled(first as int, n as nat)) by {
                    assert(label_of_day(first + ticks@.len() * step) is None);
                }
                return None;
            },
        }
        assert(ticks@.len() * step == (ticks@.len() - 1) * step + step) by (nonlinear_arith);
        pos = pos + step;
    }
    assert(labelled(first as int, n as nat)) by {
        assert forall|i: int| 0 <= i && i * tick_step(n as nat) < n implies (#[trigger] label_of_day(
            first + i * tick_step(n as nat),
        )) is Some by {
            if i < ticks@.len() {
                assert(ticks@[i].position == i * step);
            } else {
                assert(i * step >= ticks@.len() * step) by (nonlinear_arith)
                    requires
                        i >= ticks@.len(),
                        step >= 1,
                ;
            }
        }
    }
    assert(ticks_of(ticks@, first as int, n as nat));
    Some(ticks)
}

/// Why a history cannot be charted.
#[derive(Clone, Copy, Debug, PartialEq, Eq, Structural)]
pub enum PlotError {
    /// There is nothing to draw.
    Empty,
    /// A day to label lies outside the range of dates, or the history spans
    /// more days than a `Vec` can index.
    DateOutOfRange,
}

impl PlotError {
    /// What went wrong, in words.
    pub fn message(&self) -> (r: &'static str)
        ensures
            *self == PlotError::Empty ==> r@ == "empty history: nothing to plot"@,
            *self == PlotError::DateOutOfRange ==> r@ == "date out of range"@,
    {
        match self {
            PlotError::Empty => "empty history: nothing to plot",
            PlotError::DateOutOfRange => "date out of range",
        }
    }
}

/// What a chart of the history draws: the daily series, and the labelled
/// ticks of its axis of days.
pub struct Chart {
    pub series: DailySeries,
    pub ticks: Vec<Tick>,
}

/// The chart of `prices`.
pub fn chart(prices: &[ExchangeRate]) -> (r: Result<Chart, PlotError>)
    ensures
        r == Err::<Chart, PlotError>(PlotError::Empty) <==> prices@.len() == 0,
        r is Ok <==> {
            &&& prices@.len() > 0
            &&& last_day(prices@) - first_day(prices@) < usize::MAX
            &&& labelled(first_day(prices@), (last_day(prices@) - first_day(prices@) + 1) as nat)
        },
        r matches Ok(c) ==> {
            &&& is_series_of(c.series, prices@)
            &&& ticks_of(c.ticks@, first_day(prices@), c.series.rates@.len())
        },
{
    if prices.len() == 0 {
        return Err(PlotError::Empty);
    }
    let series = match daily_series(prices) {
        Some(s) => s,
        None => {
            return Err(PlotError::DateOutOfRange);
        },
    };
    proof {
        lemma_days_in_range(prices@);
    }
    match day_ticks(series.first_day, series.rates.len()) {
        Some(ticks) => Ok(Chart { series, ticks }),
        None => Err(PlotError::DateOutOfRange),
    }
}

} // verus!
