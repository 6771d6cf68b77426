//! The clock of one timer: its state machine over readings of a monotonic
//! clock in nanoseconds, and the text that shows what remains.

use crate::config::TimerRounding;
use crate::text::{decimal, decimal_padded, push_decimal, push_decimal_padded, text_of};
use vstd::prelude::*;

verus! {

/// The nanoseconds of one millisecond.
pub const NANOS_PER_MILLI: u128 = 1_000_000;

/// What a timer holds at run time. `last_tick` is the clock reading, in
/// nanoseconds, up to which elapsed time has been taken off `remaining_ms`.
#[derive(Clone, Copy, Debug, PartialEq, Eq, Structural)]
pub struct TimerRuntime {
    pub remaining_ms: i64,
    pub running: bool,
    pub last_tick: Option<u128>,
}

/// A stopped timer with nothing elapsed.
pub open spec fn stopped_at(remaining_ms: i64) -> TimerRuntime {
    TimerRuntime { remaining_ms, running: false, last_tick: None }
}

/// Whole milliseconds from the reading `last` to the reading `now`; zero
/// where there is no earlier reading or the clock has not advanced.
pub open spec fn elapsed_ms(last: Option<u128>, now: u128) -> int {
    match last {
        Some(l) => if now >= l {
            (now - l) / (NANOS_PER_MILLI as int)
        } else {
            0
        },
        None => 0,
    }
}

/// `remaining` less `elapsed`, never below zero; unchanged where nothing
/// has elapsed.
pub open spec fn after_elapsed(remaining: i64, elapsed: int) -> i64 {
    if elapsed <= 0 {
        remaining
    } else if remaining - elapsed > 0 {
        (remaining - elapsed) as i64
    } else {
        0
    }
}

/// A timer holding `remaining_ms` at the reading `now`: it keeps running
/// from `now` while something remains, and is stopped otherwise.
pub open spec fn anchored(remaining_ms: i64, now: u128) -> TimerRuntime {
    if remaining_ms > 0 {
        TimerRuntime { remaining_ms, running: true, last_tick: Some(now) }
    } else {
        stopped_at(remaining_ms)
    }
}

/// A running timer brought up to date at `now`; a stopped one as it is.
pub open spec fn synced(t: TimerRuntime, now: u128) -> TimerRuntime {
    if !t.running {
        t
    } else {
        anchored(after_elapsed(t.remaining_ms, elapsed_ms(t.last_tick, now)), now)
    }
}

/// Start: a stopped timer with something remaining runs from `now`.
pub open spec fn started(t: TimerRuntime, now: u128) -> TimerRuntime {
    if t.remaining_ms > 0 && !t.running {
        TimerRuntime { remaining_ms: t.remaining_ms, running: true, last_tick: Some(now) }
    } else {
        t
    }
}

/// Stop: a running timer is brought up to date and stopped.
pub open spec fn stopped(t: TimerRuntime, now: u128) -> TimerRuntime {
    if t.running {
        stopped_at(synced(t, now).remaining_ms)
    } else {
        t
    }
}

/// The timer with `remaining_ms` put in place of what remained, once it
/// has been brought up to date: a timer still running goes on from `now`
/// or stops where nothing remains, a stopped one stays stopped.
pub open spec fn replaced(t: TimerRuntime, remaining_ms: i64, now: u128) -> TimerRuntime {
    if synced(t, now).running {
        anchored(remaining_ms, now)
    } else {
        stopped_at(remaining_ms)
    }
}

/// Reset: the configured default in place of what remained.
pub open spec fn reset_to(t: TimerRuntime, default_ms: i64, now: u128) -> TimerRuntime {
    replaced(t, default_ms, now)
}

/// One second more, as far as 64 bits reach.
pub open spec fn second_more(remaining_ms: i64) -> i64 {
    if remaining_ms + 1000 <= i64::MAX {
        (remaining_ms + 1000) as i64
    } else {
        i64::MAX
    }
}

/// One second less, never below zero.
pub open spec fn second_less(remaining_ms: i64) -> i64 {
    if remaining_ms - 1000 > 0 {
        (remaining_ms - 1000) as i64
    } else {
        0
    }
}

/// Increase: one second more, after the time run so far is taken off; a
/// timer still running goes on from `now`.
pub open spec fn increased(t: TimerRuntime, now: u128) -> TimerRuntime {
    replaced(t, second_more(synced(t, now).remaining_ms), now)
}

/// Decrease: one second less, not under zero, after the time run so far is
/// taken off; a timer that reaches zero stops.
pub open spec fn decreased(t: TimerRuntime, now: u128) -> TimerRuntime {
    replaced(t, second_less(synced(t, now).remaining_ms), now)
}

/// Tick: a running timer on which at least one millisecond has elapsed
/// loses that time and stops at zero; every other timer stays as it is.
pub open spec fn ticked(t: TimerRuntime, now: u128) -> TimerRuntime {
    if !t.running || elapsed_ms(t.last_tick, now) <= 0 {
        t
    } else {
        let r = after_elapsed(t.remaining_ms, elapsed_ms(t.last_tick, now));
        if r == 0 {
            stopped_at(0)
        } else {
            TimerRuntime { remaining_ms: r, running: true, last_tick: Some(now) }
        }
    }
}

/// Whether two states of a timer differ in what a viewer can tell: the
/// time that remains, or whether it runs.
pub open spec fn visibly_differ(a: TimerRuntime, b: TimerRuntime) -> bool {
    a.remaining_ms != b.remaining_ms || a.running != b.running
}

/// Whole milliseconds from `last` to `now`, saturated at the largest
/// 64-bit value.
pub fn elapsed_since(last: Option<u128>, now: u128) -> (e: u64)
    ensures
        elapsed_ms(last, now) <= u64::MAX ==> e == elapsed_ms(last, now),
        elapsed_ms(last, now) > u64::MAX ==> e == u64::MAX,
{
    match last {
        Some(l) => {
            if now >= l {
                let whole: u128 = (now - l) / NANOS_PER_MILLI;
                if whole > 0xFFFF_FFFF_FFFF_FFFFu128 {
                    0xFFFF_FFFF_FFFF_FFFFu64
                } else {
                    whole as u64
                }
            } else {
                0
            }
        },
        None => 0,
    }
}

/// `remaining` less `elapsed` milliseconds, never below zero.
pub fn take_elapsed(remaining: i64, elapsed: u64) -> (r: i64)
    ensures
        r == after_elapsed(remaining, elapsed as int),
{
    if elapsed == 0 {
        remaining
    } else if remaining <= 0 {
        0
    } else if elapsed >= remaining as u64 {
        0
    } else {
        remaining - (elapsed as i64)
    }
}

proof fn lemma_saturated_elapsed(remaining: i64, e: int)
    requires
        e > u64::MAX,
    ensures
        after_elapsed(remaining, e) == after_elapsed(remaining, u64::MAX as int),
{
}

/// What remains of `t` at `now`: `after_elapsed` of what it holds.
pub fn remaining_at(t: &TimerRuntime, now: u128) -> (r: i64)
    ensures
        r == after_elapsed(t.remaining_ms, elapsed_ms(t.last_tick, now)),
{
    let e = elapsed_since(t.last_tick, now);
    proof {
        if elapsed_ms(t.last_tick, now) > u64::MAX {
            lemma_saturated_elapsed(t.remaining_ms, elapsed_ms(t.last_tick, now));
        }
    }
    take_elapsed(t.remaining_ms, e)
}

/// Brings a running timer up to date at `now`.
pub fn sync_timer(timer: &mut TimerRuntime, now: u128)
    ensures
        *final(timer) == synced(*old(timer), now),
{
    if !timer.running {
        return ;
    }
    let remaining = remaining_at(timer, now);
    if remaining > 0 {
        *timer = TimerRuntime { remaining_ms: remaining, running: true, last_tick: Some(now) };
    } else {
        *timer = TimerRuntime { remaining_ms: remaining, running: false, last_tick: None };
    }
}

/// Starts a stopped timer at `now`, unless nothing is left on it.
pub fn start_timer(timer: &mut TimerRuntime, now: u128)
    ensures
        *final(timer) == started(*old(timer), now),
{
    if timer.remaining_ms > 0 && !timer.running {
        *timer = TimerRuntime {
            remaining_ms: timer.remaining_ms,
            running: true,
            last_tick: Some(now),
        };
    }
}

/// Stops the timer, taking off the time that it ran until `now`.
pub fn stop_timer(timer: &mut TimerRuntime, now: u128)
    ensures
        *final(timer) == stopped(*old(timer), now),
{
    if timer.running {
        sync_timer(timer, now);
        *timer = TimerRuntime { remaining_ms: timer.remaining_ms, running: false, last_tick: None };
    }
}

fn replace_remaining(timer: &mut TimerRuntime, remaining_ms: i64, now: u128)
    requires
        *old(timer) == synced(*old(timer), now) || !old(timer).running,
    ensures
        *final(timer) == if old(timer).running {
            anchored(remaining_ms, now)
        } else {
            stopped_at(remaining_ms)
        },
{
    if timer.running && remaining_ms > 0 {
        *timer = TimerRuntime { remaining_ms, running: true, last_tick: Some(now) };
    } else {
        *timer = TimerRuntime { remaining_ms, running: false, last_tick: None };
    }
}

/// Puts the default in place of what remains; a running timer goes on
/// from `now`, unless the default leaves nothing.
pub fn reset_timer(timer: &mut TimerRuntime, default_ms: i64, now: u128)
    ensures
        *final(timer) == reset_to(*old(timer), default_ms, now),
{
    sync_timer(timer, now);
    replace_remaining(timer, default_ms, now);
}

/// Adds a second, as far as 64 bits reach.
pub fn increase_timer(timer: &mut TimerRuntime, now: u128)
    ensures
        *final(timer) == increased(*old(timer), now),
{
    sync_timer(timer, now);
    let more: i64 = if timer.remaining_ms <= i64::MAX - 1000 {
        timer.remaining_ms + 1000
    } else {
        i64::MAX
    };
    replace_remaining(timer, more, now);
}

/// Takes a second off, not under zero.
pub fn decrease_timer(timer: &mut TimerRuntime, now: u128)
    ensures
        *final(timer) == decreased(*old(timer), now),
{
    sync_timer(timer, now);
    let less: i64 = if timer.remaining_ms > 1000 {
        timer.remaining_ms - 1000
    } else {
        0
    };
    replace_remaining(timer, less, now);
}

/// Takes off the time run since the last reading; at zero the timer stops.
pub fn tick_timer(timer: &mut TimerRuntime, now: u128)
    ensures
        *final(timer) == ticked(*old(timer), now),
{
    if !timer.running {
        return ;
    }
    let e = elapsed_since(timer.last_tick, now);
    if e == 0 {
        return ;
    }
    let remaining = remaining_at(timer, now);
    if remaining == 0 {
        *timer = TimerRuntime { remaining_ms: 0, running: false, last_tick: None };
    } else {
        *timer = TimerRuntime { remaining_ms: remaining, running: true, last_tick: Some(now) };
    }
}

// ---------------------------------------------------------------------------
// Text
// ---------------------------------------------------------------------------

/// `ms`, or zero where it is negative.
pub open spec fn clamped(ms: i64) -> nat {
    if ms > 0 {
        ms as nat
    } else {
        0
    }
}

/// Whole seconds as `HH:MM:SS`, or as `MM:SS` where no full hour remains;
/// every field in at least two digits.
pub open spec fn standard_text(ms: i64) -> Seq<char> {
    let total = clamped(ms) / 1000;
    let hours = total / 3600;
    let minutes = (total % 3600) / 60;
    let seconds = total % 60;
    if hours > 0 {
        decimal_padded(hours) + seq![':'] + decimal_padded(minutes) + seq![':'] + decimal_padded(
            seconds,
        )
    } else {
        decimal_padded(minutes) + seq![':'] + decimal_padded(seconds)
    }
}

/// Under a minute, seconds and tenths, rounded half up to the tenth; from
/// a minute on, `M:SS` or `H:M:SS`, rounded half up to the second.
pub open spec fn basketball_text(ms: i64) -> Seq<char> {
    let c = clamped(ms);
    if c < 60_000 {
        let tenths_total = (c + 50) / 100;
        decimal(tenths_total / 10) + seq!['.'] + decimal(tenths_total % 10)
    } else {
        let rounded = (c + 500) / 1000;
        let hours = rounded / 3600;
        let minutes = (rounded % 3600) / 60;
        let seconds = rounded % 60;
        if hours > 0 {
            decimal(hours) + seq![':'] + decimal(minutes) + seq![':'] + decimal_padded(seconds)
        } else {
            decimal(minutes) + seq![':'] + decimal_padded(seconds)
        }
    }
}

/// The text of a number of milliseconds under a rounding.
pub open spec fn timer_text(ms: i64, rounding: TimerRounding) -> Seq<char> {
    match rounding {
        TimerRounding::Standard => standard_text(ms),
        TimerRounding::Basketball => basketball_text(ms),
    }
}

fn clamp(ms: i64) -> (c: u64)
    ensures
        c == clamped(ms),
{
    if ms > 0 {
        ms as u64
    } else {
        0
    }
}

/// The whole seconds of `ms` as `MM:SS`, or as `HH:MM:SS` from one hour
/// on; a negative `ms` counts as zero.
pub fn format_ms_standard(ms: i64) -> (r: String)
    ensures
        r@ == standard_text(ms),
{
    let total: u64 = clamp(ms) / 1000;
    let hours: u64 = total / 3600;
    let minutes: u64 = (total % 3600) / 60;
    let seconds: u64 = total % 60;
    let mut out: Vec<char> = Vec::new();
    if hours > 0 {
        push_decimal_padded(&mut out, hours);
        out.push(':');
    }
    push_decimal_padded(&mut out, minutes);
    out.push(':');
    push_decimal_padded(&mut out, seconds);
    assert(out@ == standard_text(ms));
    text_of(&out)
}

/// Under a minute, seconds and tenths; from a minute on, minutes and
/// seconds, with hours in front from one hour on. Both are rounded half
/// up, and a negative `ms` counts as zero.
pub fn format_ms_basketball(ms: i64) -> (r: String)
    ensures
        r@ == basketball_text(ms),
{
    let c: u64 = clamp(ms);
    let mut out: Vec<char> = Vec::new();
    if c < 60_000 {
        let tenths_total: u64 = (c + 50) / 100;
        push_decimal(&mut out, tenths_total / 10);
        out.push('.');
        push_decimal(&mut out, tenths_total % 10);
        assert(out@ == basketball_text(ms));
    } else {
        let rounded: u64 = (c + 500) / 1000;
        let hours: u64 = rounded / 3600;
        let minutes: u64 = (rounded % 3600) / 60;
        let seconds: u64 = rounded % 60;
        if hours > 0 {
            push_decimal(&mut out, hours);
            out.push(':');
        }
        push_decimal(&mut out, minutes);
        out.push(':');
        push_decimal_padded(&mut out, seconds);
        assert(out@ == basketball_text(ms));
    }
    text_of(&out)
}

/// The text of a number of milliseconds under a rounding.
pub fn format_ms(ms: i64, rounding: &TimerRounding) -> (r: String)
    ensures
        r@ == timer_text(ms, *rounding),
{
    match rounding {
        TimerRounding::Standard => format_ms_standard(ms),
        TimerRounding::Basketball => format_ms_basketball(ms),
    }
}

} // verus!
