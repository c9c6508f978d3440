//! The dashboard's figures from the sums that the database returns: the period
//! totals, the per-model lists, the heat map and the trend, and the local period
//! boundaries (weeks start on Monday).
use vstd::prelude::*;
use crate::models::{HeatmapDay, ModelUsage, PeriodUsage, StatsSummary, TrendPoint};
use crate::numeric::{decimal_chars, format_u64};
use crate::strings::{concat, concat_spec};

verus! {

/// The heat map covers a year unless the user interface asks otherwise.
pub const HEATMAP_DEFAULT_DAYS: u32 = 365;
/// The trend covers thirty days unless the user interface asks otherwise.
pub const TREND_DEFAULT_DAYS: u32 = 30;
/// Milliseconds in a day.
pub const DAY_MS: i64 = 86_400_000;

/// The four sums of a period: (input, output, cache read, cache creation).
pub type UsageSums = (i64, i64, i64, i64);

/// The days asked for, or the default.
pub fn resolve_days(days: Option<u32>, default_days: u32) -> (res: u32)
    ensures
        res == match days {
            Some(d) => d,
            None => default_days,
        },
{
    match days {
        Some(d) => d,
        None => default_days,
    }
}

/// The SQLite date modifier that goes back to the first day of the window of
/// `days` days ending today (at least one day): `-<days - 1> days`.
pub fn window_start_modifier(days: u32) -> (res: String)
    ensures
        res@ == "-"@ + decimal_chars((if days == 0 {
            0
        } else {
            days - 1
        }) as nat) + " days"@,
{
    let d = if days == 0 { 1 } else { days };
    let n = format_u64((d - 1) as u64);
    let res = concat(&["-", n.as_str(), " days"]);
    proof {
        reveal_with_fuel(concat_spec, 4);
    }
    res
}

/// The days since the last Monday (today included) of a weekday numbered as
/// `strftime('%w')` does (0 is Sunday, 1 Monday ... 6 Saturday).
pub open spec fn days_since_monday_spec(weekday: int) -> int {
    (weekday + 6) % 7
}

/// The days since Monday of a weekday numbered as `strftime('%w')` does.
pub fn days_since_monday(weekday: i64) -> (res: i64)
    requires
        0 <= weekday <= 6,
    ensures
        res == days_since_monday_spec(weekday as int),
        0 <= res <= 6,
{
    (weekday + 6) % 7
}

/// The start of this week: `days_since_monday` whole days before the start of today.
pub fn week_start(today_start: i64, days_since_monday: i64) -> (res: i64)
    requires
        0 <= days_since_monday <= 6,
        i64::MIN + 6 * 86_400_000 <= today_start,
    ensures
        res == today_start - days_since_monday * 86_400_000,
{
    today_start - days_since_monday * DAY_MS
}

/// The weekday `k` days before `weekday` (numbered as `strftime('%w')` does).
pub open spec fn weekday_before(weekday: int, k: int) -> int {
    (weekday - k) % 7
}

/// Law: weeks start on Monday. Going back [`days_since_monday_spec`] days from any
/// weekday lands on a Monday (weekday 1), and no day in between is a Monday, so the
/// week's start is the most recent Monday (today, on a Monday).
pub proof fn law_week_starts_on_monday(weekday: int)
    requires
        0 <= weekday <= 6,
    ensures
        0 <= days_since_monday_spec(weekday) <= 6,
        weekday_before(weekday, days_since_monday_spec(weekday)) == 1,
        forall|k: int|
            0 <= k < days_since_monday_spec(weekday) ==> #[trigger] weekday_before(weekday, k) != 1,
{
    assert forall|k: int| 0 <= k < days_since_monday_spec(weekday) implies #[trigger] weekday_before(weekday, k) != 1 by {
        if weekday == 0 {
            assert(0 <= k < 6);
        }
    }
}

/// The four sums as a period.
pub fn to_period(sums: UsageSums) -> (res: PeriodUsage)
    ensures
        res.input == sums.0,
        res.output == sums.1,
        res.cache_read == sums.2,
        res.cache_creation == sums.3,
{
    PeriodUsage { input: sums.0, output: sums.1, cache_read: sums.2, cache_creation: sums.3 }
}

/// The per-model sums as the user interface's list, in the same order.
pub fn to_model_usage(rows: Vec<(String, UsageSums)>) -> (res: Vec<ModelUsage>)
    ensures
        res@.len() == rows@.len(),
        forall|i: int|
            0 <= i < res@.len() ==> {
                &&& (#[trigger] res@[i]).model@ == rows@[i].0@
                &&& res@[i].input == rows@[i].1.0
                &&& res@[i].output == rows@[i].1.1
                &&& res@[i].cache_read == rows@[i].1.2
                &&& res@[i].cache_creation == rows@[i].1.3
            },
{
    let mut out: Vec<ModelUsage> = Vec::new();
    let mut i: usize = 0;
    while i < rows.len()
        invariant
            0 <= i <= rows@.len(),
            out@.len() == i,
            forall|k: int|
                0 <= k < i ==> {
                    &&& (#[trigger] out@[k]).model@ == rows@[k].0@
                    &&& out@[k].input == rows@[k].1.0
                    &&& out@[k].output == rows@[k].1.1
                    &&& out@[k].cache_read == rows@[k].1.2
                    &&& out@[k].cache_creation == rows@[k].1.3
                },
        decreases rows@.len() - i,
    {
        let (ref model, s) = rows[i];
        out.push(
            ModelUsage {
                model: model.clone(),
                input: s.0,
                output: s.1,
                cache_read: s.2,
                cache_creation: s.3,
            },
        );
        i += 1;
    }
    out
}

/// The dashboard from the sums of today, this week, this month and all time, and
/// the per-model sums over all time and over each of the three periods.
pub fn get_summary(
    today: UsageSums,
    this_week: UsageSums,
    this_month: UsageSums,
    total: UsageSums,
    by_model: Vec<(String, UsageSums)>,
    today_by_model: Vec<(String, UsageSums)>,
    this_week_by_model: Vec<(String, UsageSums)>,
    this_month_by_model: Vec<(String, UsageSums)>,
) -> (res: StatsSummary)
    ensures
        res.today.input == today.0 && res.today.output == today.1 && res.today.cache_read
            == today.2 && res.today.cache_creation == today.3,
        res.this_week.input == this_week.0 && res.this_week.output == this_week.1
            && res.this_week.cache_read == this_week.2 && res.this_week.cache_creation
            == this_week.3,
        res.this_month.input == this_month.0 && res.this_month.output == this_month.1
            && res.this_month.cache_read == this_month.2 && res.this_month.cache_creation
            == this_month.3,
        res.total.input == total.0 && res.total.output == total.1 && res.total.cache_read
            == total.2 && res.total.cache_creation == total.3,
        res.by_model@.len() == by_model@.len(),
        res.today_by_model@.len() == today_by_model@.len(),
        res.this_week_by_model@.len() == this_week_by_model@.len(),
        res.this_month_by_model@.len() == this_month_by_model@.len(),
        forall|i: int|
            0 <= i < by_model@.len() ==> (#[trigger] res.by_model@[i]).model@ == by_model@[i].0@
                && res.by_model@[i].input == by_model@[i].1.0 && res.by_model@[i].output
                == by_model@[i].1.1 && res.by_model@[i].cache_read == by_model@[i].1.2
                && res.by_model@[i].cache_creation == by_model@[i].1.3,
        forall|i: int|
            0 <= i < today_by_model@.len() ==> (#[trigger] res.today_by_model@[i]).model@
                == today_by_model@[i].0@ && res.today_by_model@[i].input == today_by_model@[i].1.0
                && res.today_by_model@[i].output == today_by_model@[i].1.1
                && res.today_by_model@[i].cache_read == today_by_model@[i].1.2
                && res.today_by_model@[i].cache_creation == today_by_model@[i].1.3,
        forall|i: int|
            0 <= i < this_week_by_model@.len() ==> (#[trigger] res.this_week_by_model@[i]).model@
                == this_week_by_model@[i].0@ && res.this_week_by_model@[i].input
                == this_week_by_model@[i].1.0 && res.this_week_by_model@[i].output
                == this_week_by_model@[i].1.1 && res.this_week_by_model@[i].cache_read
                == this_week_by_model@[i].1.2 && res.this_week_by_model@[i].cache_creation
                == this_week_by_model@[i].1.3,
        forall|i: int|
            0 <= i < this_month_by_model@.len() ==> (#[trigger] res.this_month_by_model@[i]).model@
                == this_month_by_model@[i].0@ && res.this_month_by_model@[i].input
                == this_month_by_model@[i].1.0 && res.this_month_by_model@[i].output
                == this_month_by_model@[i].1.1 && res.this_month_by_model@[i].cache_read
                == this_month_by_model@[i].1.2 && res.this_month_by_model@[i].cache_creation
                == this_month_by_model@[i].1.3,
{
    StatsSummary {
        today: to_period(today),
        this_week: to_period(this_week),
        this_month: to_period(this_month),
        total: to_period(total),
        by_model: to_model_usage(by_model),
        today_by_model: to_model_usage(today_by_model),
        this_week_by_model: to_model_usage(this_week_by_model),
        this_month_by_model: to_model_usage(this_month_by_model),
    }
}

/// The four sums of a day add up without leaving the `i64` range.
pub open spec fn sums_fit(s: UsageSums) -> bool {
    i64::MIN <= s.0 + s.1 + s.2 + s.3 <= i64::MAX
}

/// The heat map from the per-day sums (days with data only, oldest first): each
/// day with its four sums and their total.
pub fn get_heatmap(rows: Vec<(String, UsageSums)>) -> (res: Vec<HeatmapDay>)
    requires
        forall|i: int| 0 <= i < rows@.len() ==> sums_fit(#[trigger] rows@[i].1),
    ensures
        res@.len() == rows@.len(),
        forall|i: int|
            0 <= i < res@.len() ==> {
                &&& (#[trigger] res@[i]).date@ == rows@[i].0@
                &&& res@[i].input == rows@[i].1.0
                &&& res@[i].output == rows@[i].1.1
                &&& res@[i].cache_read == rows@[i].1.2
                &&& res@[i].cache_creation == rows@[i].1.3
                &&& res@[i].total == rows@[i].1.0 + rows@[i].1.1 + rows@[i].1.2 + rows@[i].1.3
            },
{
    let mut out: Vec<HeatmapDay> = Vec::new();
    let mut i: usize = 0;
    while i < rows.len()
        invariant
            0 <= i <= rows@.len(),
            forall|k: int| 0 <= k < rows@.len() ==> sums_fit(#[trigger] rows@[k].1),
            out@.len() == i,
            forall|k: int|
                0 <= k < i ==> {
                    &&& (#[trigger] out@[k]).date@ == rows@[k].0@
                    &&& out@[k].input == rows@[k].1.0
                    &&& out@[k].output == rows@[k].1.1
                    &&& out@[k].cache_read == rows@[k].1.2
                    &&& out@[k].cache_creation == rows@[k].1.3
                    &&& out@[k].total == rows@[k].1.0 + rows@[k].1.1 + rows@[k].1.2 + rows@[k].1.3
                },
        decreases rows@.len() - i,
    {
        let (ref date, s) = rows[i];
        let total = (s.0 as i128 + s.1 as i128 + s.2 as i128 + s.3 as i128) as i64;
        out.push(
            HeatmapDay {
                date: date.clone(),
                input: s.0,
                output: s.1,
                cache_read: s.2,
                cache_creation: s.3,
                total,
            },
        );
        i += 1;
    }
    out
}

/// Whether every day's four sums add up within the `i64` range.
pub fn heatmap_sums_fit(rows: &Vec<(String, UsageSums)>) -> (res: bool)
    ensures
        res == forall|i: int| 0 <= i < rows@.len() ==> sums_fit(#[trigger] rows@[i].1),
{
    let mut i: usize = 0;
    while i < rows.len()
        invariant
            0 <= i <= rows@.len(),
            forall|k: int| 0 <= k < i ==> sums_fit(#[trigger] rows@[k].1),
        decreases rows@.len() - i,
    {
        let s = rows[i].1;
        let t = s.0 as i128 + s.1 as i128 + s.2 as i128 + s.3 as i128;
        if t < i64::MIN as i128 || t > i64::MAX as i128 {
            assert(!sums_fit(rows@[i as int].1));
            return false;
        }
        i += 1;
    }
    true
}

/// The trend from the per-day series (every day of the window, oldest first):
/// input, output and cache (read plus creation).
pub fn get_trend(rows: Vec<(String, i64, i64, i64)>) -> (res: Vec<TrendPoint>)
    ensures
        res@.len() == rows@.len(),
        forall|i: int|
            0 <= i < res@.len() ==> {
                &&& (#[trigger] res@[i]).date@ == rows@[i].0@
                &&& res@[i].input == rows@[i].1
                &&& res@[i].output == rows@[i].2
                &&& res@[i].cache == rows@[i].3
            },
{
    let mut out: Vec<TrendPoint> = Vec::new();
    let mut i: usize = 0;
    while i < rows.len()
        invariant
            0 <= i <= rows@.len(),
            out@.len() == i,
            forall|k: int|
                0 <= k < i ==> {
                    &&& (#[trigger] out@[k]).date@ == rows@[k].0@
                    &&& out@[k].input == rows@[k].1
                    &&& out@[k].output == rows@[k].2
                    &&& out@[k].cache == rows@[k].3
                },
        decreases rows@.len() - i,
    {
        let (ref date, input, output, cache) = rows[i];
        out.push(TrendPoint { date: date.clone(), input, output, cache });
        i += 1;
    }
    out
}

} // verus!
