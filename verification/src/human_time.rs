//! How long ago something was.

use vstd::prelude::*;

use crate::text;

verus! {

/// A point in time: seconds since the epoch, which may lie before it, and the
/// nanoseconds behind them.
#[derive(Clone, Copy, PartialEq, Eq, Structural, Debug)]
pub struct Timestamp {
    pub secs: i64,
    pub nanos: u32,
}

impl Timestamp {
    /// The nanoseconds make up less than a second.
    pub open spec fn wf(self) -> bool {
        self.nanos < 1_000_000_000
    }

    /// The nanoseconds since the epoch.
    pub open spec fn in_nanos(self) -> int {
        self.secs * 1_000_000_000 + self.nanos
    }
}

/// The whole seconds from `ts` to `now`; none where `ts` lies ahead.
pub open spec fn seconds_between(ts: Timestamp, now: Timestamp) -> int {
    if now.in_nanos() <= ts.in_nanos() {
        0
    } else {
        (now.in_nanos() - ts.in_nanos()) / 1_000_000_000
    }
}

/// So many units ago.
pub open spec fn units_ago(value: nat, unit: Seq<char>) -> Seq<char> {
    text::decimal(value) + " "@ + unit + (if value == 1 {
        " ago"@
    } else {
        "s ago"@
    })
}

/// So many seconds ago, in the largest unit that fits.
pub open spec fn seconds_ago(secs: nat) -> Seq<char> {
    if secs < 60 {
        units_ago(secs, "second"@)
    } else if secs < 60 * 60 {
        units_ago(secs / 60, "minute"@)
    } else if secs < 60 * 60 * 24 {
        units_ago(secs / 3600, "hour"@)
    } else {
        units_ago(secs / 86400, "day"@)
    }
}

fn format_unit(value: u64, unit: &str) -> (r: String)
    ensures
        r@ == units_ago(value as nat, unit@),
{
    let mut r = text::concat3(text::decimal_string(value).as_str(), " ", unit);
    r.append(if value == 1 { " ago" } else { "s ago" });
    r
}

fn elapsed_seconds(ts: Timestamp, now: Timestamp) -> (r: u64)
    requires
        ts.wf(),
        now.wf(),
    ensures
        r == seconds_between(ts, now),
{
    let apart: i128 = now.secs as i128 - ts.secs as i128;
    let whole: i128 = if now.nanos < ts.nanos { apart - 1 } else { apart };
    let ghost part: int = if now.nanos < ts.nanos {
        now.nanos - ts.nanos + 1_000_000_000
    } else {
        now.nanos - ts.nanos
    };
    assert(now.in_nanos() - ts.in_nanos() == whole * 1_000_000_000 + part);
    if whole < 0 {
        return 0;
    }
    assert((whole * 1_000_000_000 + part) / 1_000_000_000 == whole) by (nonlinear_arith)
        requires
            0 <= part < 1_000_000_000,
            whole >= 0,
    ;
    whole as u64
}

/// How long before `now` the time `ts` was, in words.
pub fn human_time_ago(ts: Timestamp, now: Timestamp) -> (r: String)
    requires
        ts.wf(),
        now.wf(),
    ensures
        r@ == seconds_ago(seconds_between(ts, now) as nat),
{
    let secs: u64 = elapsed_seconds(ts, now);
    if secs < 60 {
        return format_unit(secs, "second");
    }
    if secs < 60 * 60 {
        return format_unit(secs / 60, "minute");
    }
    if secs < 60 * 60 * 24 {
        return format_unit(secs / 3600, "hour");
    }
    format_unit(secs / 86400, "day")
}

/// What is said of a time gone by: the largest unit of which at least one has passed
/// is used, and how many of it have passed in full; one of it is said in the
/// singular. Less than a minute is said in seconds.
pub proof fn law_time_is_said_in_its_largest_unit(secs: nat, n: nat)
    ensures
        secs < 60 && n == secs ==> seconds_ago(secs) == units_ago(n, "second"@),
        60 <= secs < 3600 && 60 * n <= secs < 60 * (n + 1) ==> seconds_ago(secs) == units_ago(
            n,
            "minute"@,
        ),
        3600 <= secs < 86400 && 3600 * n <= secs < 3600 * (n + 1) ==> seconds_ago(secs)
            == units_ago(n, "hour"@),
        secs >= 86400 && 86400 * n <= secs < 86400 * (n + 1) ==> seconds_ago(secs) == units_ago(
            n,
            "day"@,
        ),
        n != 1 ==> units_ago(n, "day"@) == text::decimal(n) + " days ago"@,
        units_ago(1, "day"@) == "1 day ago"@,
        n != 1 ==> units_ago(n, "second"@) == text::decimal(n) + " seconds ago"@,
        units_ago(1, "second"@) == "1 second ago"@,
{
    reveal_strlit(" ");
    reveal_strlit(" ago");
    reveal_strlit("s ago");
    reveal_strlit("day");
    reveal_strlit("second");
    reveal_strlit(" days ago");
    reveal_strlit("1 day ago");
    reveal_strlit(" seconds ago");
    reveal_strlit("1 second ago");
    assert(text::decimal(n) + " "@ + "day"@ + "s ago"@ =~= text::decimal(n) + " days ago"@);
    assert(text::decimal(n) + " "@ + "second"@ + "s ago"@ =~= text::decimal(n) + " seconds ago"@);
    assert(text::decimal(1) =~= seq!['1']);
    assert(units_ago(1, "day"@) =~= "1 day ago"@);
    assert(units_ago(1, "second"@) =~= "1 second ago"@);
}

/// A time that lies ahead counts as now. Behind, whole seconds are counted: neither
/// side of a second is rounded up.
pub proof fn law_seconds_are_counted(ts: Timestamp, now: Timestamp)
    requires
        ts.wf(),
        now.wf(),
    ensures
        now.secs < ts.secs || now == ts ==> seconds_between(ts, now) == 0,
        now.secs >= ts.secs && now.nanos >= ts.nanos ==> seconds_between(ts, now) == now.secs
            - ts.secs,
        now.secs > ts.secs && now.nanos < ts.nanos ==> seconds_between(ts, now) == now.secs
            - ts.secs - 1,
{
    let apart = now.secs - ts.secs;
    let part = now.nanos - ts.nanos;
    assert(now.in_nanos() - ts.in_nanos() == apart * 1_000_000_000 + part);
    if now.secs >= ts.secs && now.nanos >= ts.nanos {
        assert((apart * 1_000_000_000 + part) / 1_000_000_000 == apart) by (nonlinear_arith)
            requires
                0 <= part < 1_000_000_000,
        ;
    }
    if now.secs > ts.secs && now.nanos < ts.nanos {
        assert((apart * 1_000_000_000 + part) / 1_000_000_000 == apart - 1) by (nonlinear_arith)
            requires
                -1_000_000_000 < part < 0,
        ;
    }
}

} // verus!
