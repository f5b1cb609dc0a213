//! The drink-water reminder: when, within the active hours of the day, a
//! reminder is due, and what it says.

use vstd::prelude::*;
use crate::text::{decimal, decimal_chars, owned, push_str, string_of};

verus! {

/// The reminder's state. Times are readings of a monotonic clock in
/// milliseconds, taken by the caller.
pub struct WaterReminder {
    /// The clock reading the next reminder is counted from.
    pub last_reminder_ms: u64,
    pub active: bool,
    pub title: String,
    pub message: String,
    pub show_drank: bool,
}

/// The hour of the day (UTC) of a UNIX time in seconds.
pub open spec fn hour_of_day(unix_secs: u64) -> int {
    ((unix_secs % 86400) / 3600) as int
}

/// The reminder text for an interval of `interval_min` minutes.
pub open spec fn reminder_message(interval_min: u32) -> Seq<char> {
    "Time for a glass! (Every "@ + decimal(interval_min as nat) + "min)"@
}

/// Whether a reminder is due: enabled, inside `[start_hour, end_hour)`, and
/// at least the interval since the last reminder was dismissed.
pub open spec fn reminder_due(enabled: bool, interval_min: u32, start_hour: u32, end_hour: u32,
    unix_secs: u64, last_ms: u64, now_ms: u64) -> bool {
    &&& enabled
    &&& start_hour <= hour_of_day(unix_secs) < end_hour
    &&& (if now_ms >= last_ms { now_ms - last_ms } else { 0 }) >= interval_min as int * 60000
}

impl WaterReminder {
    pub open spec fn last_reminder(&self) -> u64 {
        self.last_reminder_ms
    }

    pub open spec fn is_active(&self) -> bool {
        self.active
    }

    pub open spec fn drank_shown(&self) -> bool {
        self.show_drank
    }

    pub open spec fn title_text(&self) -> Seq<char> {
        self.title@
    }

    pub open spec fn message_text(&self) -> Seq<char> {
        self.message@
    }

    /// A reminder counted from `now_ms`, inactive and without text.
    pub fn new(now_ms: u64) -> (r: WaterReminder)
        ensures
            r.last_reminder() == now_ms,
            !r.is_active(),
            !r.drank_shown(),
            r.title_text().len() == 0,
            r.message_text().len() == 0,
    {
        WaterReminder {
            last_reminder_ms: now_ms,
            active: false,
            title: String::new(),
            message: String::new(),
            show_drank: false,
        }
    }

    /// Decides whether the reminder shows now: it does when enabled, the
    /// UTC hour of `unix_secs` is within `[start_hour, end_hour)` and at
    /// least `interval_min` minutes passed since the last reminder; then it
    /// carries its title and message.
    pub fn update(&mut self, enabled: bool, interval_min: u32, start_hour: u32, end_hour: u32, unix_secs: u64,
        now_ms: u64)
        ensures
            final(self).is_active() == reminder_due(enabled, interval_min, start_hour, end_hour, unix_secs,
                old(self).last_reminder(), now_ms),
            !final(self).drank_shown(),
            final(self).last_reminder() == old(self).last_reminder(),
            final(self).is_active() ==> final(self).title_text() == "\u{1F4A7} Drink Water"@
                && final(self).message_text() == reminder_message(interval_min),
            !final(self).is_active() ==> final(self).title_text() == old(self).title_text()
                && final(self).message_text() == old(self).message_text(),
    {
        self.active = false;
        self.show_drank = false;
        if !enabled {
            return;
        }
        let h = (unix_secs % 86400) / 3600;
        if h < start_hour as u64 || h >= end_hour as u64 {
            return;
        }
        let interval: u64 = interval_min as u64 * 60000;
        let elapsed: u64 = if now_ms >= self.last_reminder_ms { now_ms - self.last_reminder_ms } else { 0 };
        if elapsed >= interval {
            self.active = true;
            self.title = owned("\u{1F4A7} Drink Water");
            let mut m = owned("Time for a glass! (Every ");
            let n = string_of(&decimal_chars(interval_min as u64));
            push_str(&mut m, n.as_str());
            push_str(&mut m, "min)");
            self.message = m;
        }
    }

    /// Dismisses the reminder: the next one is counted from `now_ms`.
    pub fn dismiss(&mut self, now_ms: u64)
        ensures
            final(self).last_reminder() == now_ms,
            !final(self).is_active(),
            final(self).drank_shown() == old(self).drank_shown(),
            final(self).title_text() == old(self).title_text(),
            final(self).message_text() == old(self).message_text(),
    {
        self.last_reminder_ms = now_ms;
        self.active = false;
    }
}

/// Right after a dismissal, no reminder is due before the interval passes.
pub proof fn no_reminder_right_after_dismiss(enabled: bool, interval_min: u32, start_hour: u32, end_hour: u32,
    unix_secs: u64, dismissed_ms: u64, now_ms: u64)
    requires
        dismissed_ms <= now_ms,
        now_ms - dismissed_ms < interval_min as int * 60000,
    ensures
        !reminder_due(enabled, interval_min, start_hour, end_hour, unix_secs, dismissed_ms, now_ms),
{
}

/// Once enabled and the interval since the last reminder has passed, a
/// reminder is due at any time of day from the start hour (included) up to
/// the end hour (excluded), and at no other time.
pub proof fn reminder_due_in_active_hours(interval_min: u32, start_hour: u32, end_hour: u32, unix_secs: u64,
    last_ms: u64, now_ms: u64)
    requires
        last_ms <= now_ms,
        now_ms - last_ms >= interval_min as int * 60000,
    ensures
        reminder_due(true, interval_min, start_hour, end_hour, unix_secs, last_ms, now_ms) <==> (start_hour
            <= (unix_secs % 86400) / 3600 && (unix_secs % 86400) / 3600 < end_hour),
{
}

/// A disabled reminder is never due.
pub proof fn disabled_reminder_never_due(interval_min: u32, start_hour: u32, end_hour: u32, unix_secs: u64,
    last_ms: u64, now_ms: u64)
    ensures
        !reminder_due(false, interval_min, start_hour, end_hour, unix_secs, last_ms, now_ms),
{
}

/// Within the active hours of an enabled reminder, a reminder is due
/// exactly when at least the interval has passed since the last one; a
/// clock reading before the last one counts as no time passed.
pub proof fn reminder_due_after_interval(interval_min: u32, start_hour: u32, end_hour: u32, unix_secs: u64,
    last_ms: u64, now_ms: u64)
    requires
        start_hour <= (unix_secs % 86400) / 3600 < end_hour,
    ensures
        last_ms <= now_ms ==> (reminder_due(true, interval_min, start_hour, end_hour, unix_secs, last_ms, now_ms)
            <==> now_ms - last_ms >= interval_min as int * 60000),
        now_ms < last_ms ==> (reminder_due(true, interval_min, start_hour, end_hour, unix_secs, last_ms, now_ms)
            <==> interval_min == 0),
{
}

} // verus!
