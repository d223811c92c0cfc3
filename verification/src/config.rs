//! The adjustable lengths and switches of the timer, and the running focus
//! statistics that are kept across days.

use crate::session::Session;
use std::time::{Duration, SystemTime, UNIX_EPOCH};
use vstd::prelude::*;

verus! {

#[verifier::external_type_specification]
#[verifier::external_body]
pub struct ExSystemTime(SystemTime);

/// Seconds in a day, the unit in which `Stats::day` counts.
pub const SECS_PER_DAY: u64 = 86_400;

#[derive(Clone, Copy, PartialEq, Eq, Debug, Structural)]
pub struct Settings {
    pub work_mins: u32,
    pub short_mins: u32,
    pub long_mins: u32,
    pub long_interval: u32,
    pub auto_start_breaks: bool,
    pub auto_start_focus: bool,
    pub notifications: bool,
    pub sound: bool,
}

/// `value` brought into `[lo, hi]`, as `Ord::clamp` does when `lo <= hi`.
pub open spec fn clamp_spec(value: int, lo: int, hi: int) -> int {
    if value < lo {
        lo
    } else if value > hi {
        hi
    } else {
        value
    }
}

pub fn clamp_u32(value: u32, lo: u32, hi: u32) -> (r: u32)
    requires
        lo <= hi,
    ensures
        r == clamp_spec(value as int, lo as int, hi as int),
{
    if value < lo {
        lo
    } else if value > hi {
        hi
    } else {
        value
    }
}

impl Settings {
    pub open spec fn spec_default() -> Settings {
        Settings {
            work_mins: 25,
            short_mins: 5,
            long_mins: 15,
            long_interval: 4,
            auto_start_breaks: true,
            auto_start_focus: false,
            notifications: true,
            sound: true,
        }
    }

    pub open spec fn spec_minutes(self, session: Session) -> u32 {
        match session {
            Session::Work => self.work_mins,
            Session::ShortBreak => self.short_mins,
            Session::LongBreak => self.long_mins,
        }
    }

    /// Length of a session in seconds; a length of zero minutes counts as one.
    pub open spec fn spec_duration(self, session: Session) -> int {
        let m = self.spec_minutes(session) as int;
        (if m < 1 { 1 } else { m }) * 60
    }

    pub open spec fn spec_bounds(session: Session) -> (u32, u32) {
        match session {
            Session::Work => (1, 180),
            Session::ShortBreak => (1, 60),
            Session::LongBreak => (1, 120),
        }
    }

    pub open spec fn with_minutes(self, session: Session, value: u32) -> Settings {
        match session {
            Session::Work => Settings { work_mins: value, ..self },
            Session::ShortBreak => Settings { short_mins: value, ..self },
            Session::LongBreak => Settings { long_mins: value, ..self },
        }
    }

    /// Every length lies within its bounds and the cycle has between two and
    /// twelve rounds: what a loaded state file always yields.
    pub open spec fn in_bounds(self) -> bool {
        &&& 1 <= self.work_mins <= 180
        &&& 1 <= self.short_mins <= 60
        &&& 1 <= self.long_mins <= 120
        &&& 2 <= self.long_interval <= 12
    }

    pub fn minutes(&self, session: Session) -> (m: u32)
        ensures
            m == self.spec_minutes(session),
    {
        match session {
            Session::Work => self.work_mins,
            Session::ShortBreak => self.short_mins,
            Session::LongBreak => self.long_mins,
        }
    }

    /// Length of `session` in whole seconds.
    pub fn duration(&self, session: Session) -> (secs: u64)
        ensures
            secs == self.spec_duration(session),
            secs >= 60,
    {
        let m = self.minutes(session);
        let m = if m < 1 { 1 } else { m };
        m as u64 * 60
    }

    /// Allowed range for each adjustable length, in minutes.
    pub fn bounds(session: Session) -> (b: (u32, u32))
        ensures
            b == Self::spec_bounds(session),
            1 <= b.0 <= b.1,
    {
        match session {
            Session::Work => (1, 180),
            Session::ShortBreak => (1, 60),
            Session::LongBreak => (1, 120),
        }
    }

    pub fn set_minutes(&mut self, session: Session, value: u32)
        ensures
            *final(self) == old(self).with_minutes(
                session,
                clamp_spec(
                    value as int,
                    Self::spec_bounds(session).0 as int,
                    Self::spec_bounds(session).1 as int,
                ) as u32,
            ),
    {
        let (min, max) = Self::bounds(session);
        let value = clamp_u32(value, min, max);
        match session {
            Session::Work => self.work_mins = value,
            Session::ShortBreak => self.short_mins = value,
            Session::LongBreak => self.long_mins = value,
        }
    }
}

impl Default for Settings {
    fn default() -> (s: Self)
        ensures
            s == Settings::spec_default(),
    {
        Settings {
            work_mins: 25,
            short_mins: 5,
            long_mins: 15,
            long_interval: 4,
            auto_start_breaks: true,
            auto_start_focus: false,
            notifications: true,
            sound: true,
        }
    }
}

#[derive(Clone, Copy, PartialEq, Eq, Debug, Structural)]
pub struct Stats {
    /// Whole days since the Unix epoch, used to roll the daily counters over.
    pub day: u64,
    pub today_sessions: u32,
    pub today_focus_secs: u64,
    pub total_sessions: u32,
    pub total_focus_secs: u64,
}

impl Default for Stats {
    fn default() -> (s: Self)
        ensures
            s == Stats::zero_on(0),
    {
        Stats { day: 0, today_sessions: 0, today_focus_secs: 0, total_sessions: 0, total_focus_secs: 0 }
    }
}

impl Stats {
    /// No sessions at all, dated `day`.
    pub open spec fn zero_on(day: u64) -> Stats {
        Stats { day, today_sessions: 0, today_focus_secs: 0, total_sessions: 0, total_focus_secs: 0 }
    }

    /// The statistics as seen on `today`: on a new day the daily counters
    /// start again from zero, the totals stay.
    pub open spec fn rolled(self, today: u64) -> Stats {
        if self.day == today {
            self
        } else {
            Stats { day: today, today_sessions: 0, today_focus_secs: 0, ..self }
        }
    }

    /// One more focus session of `secs` seconds, counted today and in total.
    pub open spec fn with_focus(self, secs: u64) -> Stats {
        Stats {
            today_sessions: (self.today_sessions + 1) as u32,
            today_focus_secs: (self.today_focus_secs + secs) as u64,
            total_sessions: (self.total_sessions + 1) as u32,
            total_focus_secs: (self.total_focus_secs + secs) as u64,
            ..self
        }
    }

    /// A focus session of `secs` seconds can be counted whatever day it is,
    /// without a counter overflowing.
    pub open spec fn can_record(self, secs: u64) -> bool {
        &&& self.today_sessions < u32::MAX
        &&& self.today_focus_secs + secs <= u64::MAX
        &&& self.total_sessions < u32::MAX
        &&& self.total_focus_secs + secs <= u64::MAX
    }

    /// A focus session of `secs` seconds can be counted on any day the
    /// system clock can give.
    pub open spec fn can_record_any_day(self, secs: u64) -> bool {
        forall|d: u64| #[trigger] is_clock_day(d) ==> self.rolled(d).can_record(secs)
    }

    /// Starts the daily counters afresh when `today` is not the recorded day;
    /// says whether it did.
    pub fn roll_over_to(&mut self, today: u64) -> (changed: bool)
        ensures
            *final(self) == old(self).rolled(today),
            changed == (old(self).day != today),
    {
        if self.day == today {
            return false;
        }
        self.day = today;
        self.today_sessions = 0;
        self.today_focus_secs = 0;
        true
    }

    /// `roll_over_to` on the day the system clock gives; afterwards the
    /// statistics are dated that day.
    pub fn roll_over(&mut self) -> (changed: bool)
        ensures
            *final(self) == old(self).rolled(final(self).day),
            changed == (old(self).day != final(self).day),
            is_clock_day(final(self).day),
    {
        let today = current_day();
        self.roll_over_to(today)
    }

    /// Counts one focus session of `elapsed_ns` nanoseconds (whole seconds
    /// are counted) on `today`.
    pub fn record_focus_on(&mut self, elapsed_ns: u128, today: u64)
        requires
            elapsed_ns / 1_000_000_000 <= u64::MAX,
            old(self).rolled(today).can_record((elapsed_ns / 1_000_000_000) as u64),
        ensures
            *final(self) == old(self).rolled(today).with_focus((elapsed_ns / 1_000_000_000) as u64),
    {
        self.roll_over_to(today);
        let secs = (elapsed_ns / 1_000_000_000) as u64;
        self.today_sessions += 1;
        self.today_focus_secs += secs;
        self.total_sessions += 1;
        self.total_focus_secs += secs;
    }

    /// `record_focus_on` on the day the system clock gives; the counters must
    /// have room whatever day that is.
    pub fn record_focus(&mut self, elapsed_ns: u128)
        requires
            elapsed_ns / 1_000_000_000 <= u64::MAX,
            old(self).can_record_any_day((elapsed_ns / 1_000_000_000) as u64),
        ensures
            *final(self) == old(self).rolled(final(self).day).with_focus(
                (elapsed_ns / 1_000_000_000) as u64,
            ),
            is_clock_day(final(self).day),
    {
        let today = current_day();
        self.record_focus_on(elapsed_ns, today);
    }

    /// Forgets every session; the statistics are dated `today`.
    pub fn clear_on(&mut self, today: u64)
        ensures
            *final(self) == Stats::zero_on(today),
    {
        *self = Stats { day: today, ..Default::default() };
    }

    /// `clear_on` the day the system clock gives.
    pub fn clear(&mut self)
        ensures
            *final(self) == Stats::zero_on(final(self).day),
            is_clock_day(final(self).day),
    {
        let today = current_day();
        self.clear_on(today);
    }
}

pub open spec fn spec_day_of(secs_since_epoch: Option<u64>) -> u64 {
    match secs_since_epoch {
        Some(s) => s / SECS_PER_DAY,
        None => 0,
    }
}

/// A day that the system clock can give: the day of some whole number of
/// seconds since the epoch, or day zero for a clock set before it.
pub open spec fn is_clock_day(day: u64) -> bool {
    exists|secs: Option<u64>| day == #[trigger] spec_day_of(secs)
}

/// The day that `secs_since_epoch` seconds after the Unix epoch falls on;
/// a clock set before the epoch counts as day zero.
pub fn day_of(secs_since_epoch: Option<u64>) -> (day: u64)
    ensures
        day == spec_day_of(secs_since_epoch),
{
    match secs_since_epoch {
        Some(s) => s / SECS_PER_DAY,
        None => 0,
    }
}

/// Whole days since the Unix epoch, by the system clock: the day of the
/// clock's reading in whole seconds, or day zero before the epoch. Which
/// reading that is depends on the clock.
pub fn current_day() -> (day: u64)
    ensures
        is_clock_day(day),
{
    let secs = match since_epoch(system_now()) {
        Some(d) => Some(whole_secs(&d)),
        None => None,
    };
    let day = day_of(secs);
    assert(day == spec_day_of(secs));
    day
}

/// Calls `SystemTime::now`; what it returns depends on the clock, so nothing is stated.
#[verifier::external_body]
fn system_now() -> SystemTime {
    SystemTime::now()
}

/// Calls `SystemTime::duration_since(UNIX_EPOCH)`; `None` stands for the error
/// it gives on a time before the epoch. Nothing is stated of the value.
#[verifier::external_body]
fn since_epoch(t: SystemTime) -> Option<Duration> {
    t.duration_since(UNIX_EPOCH).ok()
}

/// Calls `Duration::as_secs`; a `Duration` is opaque here, so nothing is stated.
#[verifier::external_body]
fn whole_secs(d: &Duration) -> u64 {
    d.as_secs()
}


/// Rolling over to the same day twice is rolling over once; the second time
/// nothing changes.
pub proof fn lemma_roll_over_idempotent(x: Stats, today: u64)
    ensures
        x.rolled(today).rolled(today) == x.rolled(today),
        x.rolled(today).day == today,
        x.rolled(today).total_sessions == x.total_sessions,
        x.rolled(today).total_focus_secs == x.total_focus_secs,
{
}

/// Setting a length keeps it within its bounds, gives back the value asked
/// for when it lies within them, and leaves the other lengths alone.
pub proof fn lemma_set_minutes(s: Settings, session: Session, value: u32, other: Session)
    ensures
        ({
            let (lo, hi) = Settings::spec_bounds(session);
            let t = s.with_minutes(session, clamp_spec(value as int, lo as int, hi as int) as u32);
            &&& lo <= t.spec_minutes(session) <= hi
            &&& (lo <= value <= hi ==> t.spec_minutes(session) == value)
            &&& (other != session ==> t.spec_minutes(other) == s.spec_minutes(other))
        }),
{
}


/// The changes that the settings sheet offers.
#[derive(Clone, Copy, PartialEq, Eq, Debug, Structural)]
pub enum Adjustment {
    FocusShorter,
    FocusLonger,
    ShortBreakShorter,
    ShortBreakLonger,
    LongBreakShorter,
    LongBreakLonger,
    FewerRounds,
    MoreRounds,
    ToggleAutoStartBreaks,
    ToggleAutoStartFocus,
    ToggleNotifications,
    ToggleSound,
}

/// `a - b`, or zero below it.
pub open spec fn sat_sub(a: u32, b: u32) -> u32 {
    if a >= b {
        (a - b) as u32
    } else {
        0
    }
}

pub open spec fn at_least(a: u32, lo: u32) -> u32 {
    if a < lo {
        lo
    } else {
        a
    }
}

impl Settings {
    /// Lengths step by five minutes (a short break by one) within their
    /// bounds; the rounds step by one, down to two; switches flip.
    pub open spec fn spec_adjusted(self, a: Adjustment) -> Settings {
        let clamp = |session: Session, v: int|
            clamp_spec(
                v,
                Settings::spec_bounds(session).0 as int,
                Settings::spec_bounds(session).1 as int,
            ) as u32;
        match a {
            Adjustment::FocusShorter => self.with_minutes(
                Session::Work,
                clamp(Session::Work, at_least(sat_sub(self.work_mins, 5), 1) as int),
            ),
            Adjustment::FocusLonger => self.with_minutes(
                Session::Work,
                clamp(Session::Work, self.work_mins + 5),
            ),
            Adjustment::ShortBreakShorter => self.with_minutes(
                Session::ShortBreak,
                clamp(Session::ShortBreak, at_least(sat_sub(self.short_mins, 1), 1) as int),
            ),
            Adjustment::ShortBreakLonger => self.with_minutes(
                Session::ShortBreak,
                clamp(Session::ShortBreak, self.short_mins + 1),
            ),
            Adjustment::LongBreakShorter => self.with_minutes(
                Session::LongBreak,
                clamp(Session::LongBreak, at_least(sat_sub(self.long_mins, 5), 1) as int),
            ),
            Adjustment::LongBreakLonger => self.with_minutes(
                Session::LongBreak,
                clamp(Session::LongBreak, self.long_mins + 5),
            ),
            Adjustment::FewerRounds => Settings {
                long_interval: at_least(sat_sub(self.long_interval, 1), 2),
                ..self
            },
            Adjustment::MoreRounds => Settings {
                long_interval: (self.long_interval + 1) as u32,
                ..self
            },
            Adjustment::ToggleAutoStartBreaks => Settings {
                auto_start_breaks: !self.auto_start_breaks,
                ..self
            },
            Adjustment::ToggleAutoStartFocus => Settings {
                auto_start_focus: !self.auto_start_focus,
                ..self
            },
            Adjustment::ToggleNotifications => Settings {
                notifications: !self.notifications,
                ..self
            },
            Adjustment::ToggleSound => Settings { sound: !self.sound, ..self },
        }
    }

    /// A step up cannot overflow its field.
    pub open spec fn can_adjust(self, a: Adjustment) -> bool {
        match a {
            Adjustment::FocusLonger => self.work_mins + 5 <= u32::MAX,
            Adjustment::ShortBreakLonger => self.short_mins + 1 <= u32::MAX,
            Adjustment::LongBreakLonger => self.long_mins + 5 <= u32::MAX,
            Adjustment::MoreRounds => self.long_interval + 1 <= u32::MAX,
            _ => true,
        }
    }

    /// Applies one change from the settings sheet; see `spec_adjusted`.
    pub fn adjust(&mut self, a: Adjustment)
        requires
            old(self).can_adjust(a),
        ensures
            *final(self) == old(self).spec_adjusted(a),
    {
        match a {
            Adjustment::FocusShorter => {
                let v = self.work_mins.saturating_sub(5);
                let v = if v < 1 { 1 } else { v };
                self.set_minutes(Session::Work, v);
            },
            Adjustment::FocusLonger => {
                let v = self.work_mins + 5;
                self.set_minutes(Session::Work, v);
            },
            Adjustment::ShortBreakShorter => {
                let v = self.short_mins.saturating_sub(1);
                let v = if v < 1 { 1 } else { v };
                self.set_minutes(Session::ShortBreak, v);
            },
            Adjustment::ShortBreakLonger => {
                let v = self.short_mins + 1;
                self.set_minutes(Session::ShortBreak, v);
            },
            Adjustment::LongBreakShorter => {
                let v = self.long_mins.saturating_sub(5);
                let v = if v < 1 { 1 } else { v };
                self.set_minutes(Session::LongBreak, v);
            },
            Adjustment::LongBreakLonger => {
                let v = self.long_mins + 5;
                self.set_minutes(Session::LongBreak, v);
            },
            Adjustment::FewerRounds => {
                let v = self.long_interval.saturating_sub(1);
                self.long_interval = if v < 2 { 2 } else { v };
            },
            Adjustment::MoreRounds => self.long_interval = self.long_interval + 1,
            Adjustment::ToggleAutoStartBreaks => self.auto_start_breaks = !self.auto_start_breaks,
            Adjustment::ToggleAutoStartFocus => self.auto_start_focus = !self.auto_start_focus,
            Adjustment::ToggleNotifications => self.notifications = !self.notifications,
            Adjustment::ToggleSound => self.sound = !self.sound,
        }
    }
}


/// The steps of the settings sheet: focus and the long break move by five
/// minutes, the short break by one, the rounds by one, as far as their
/// bounds allow; a switch flips. Nothing else changes.
pub proof fn lemma_adjust_steps(s: Settings)
    ensures
        2 <= s.short_mins <= 60 ==> s.spec_adjusted(Adjustment::ShortBreakShorter) == (Settings {
            short_mins: (s.short_mins - 1) as u32,
            ..s
        }),
        1 <= s.short_mins < 60 ==> s.spec_adjusted(Adjustment::ShortBreakLonger) == (Settings {
            short_mins: (s.short_mins + 1) as u32,
            ..s
        }),
        6 <= s.work_mins <= 180 ==> s.spec_adjusted(Adjustment::FocusShorter) == (Settings {
            work_mins: (s.work_mins - 5) as u32,
            ..s
        }),
        1 <= s.work_mins <= 175 ==> s.spec_adjusted(Adjustment::FocusLonger) == (Settings {
            work_mins: (s.work_mins + 5) as u32,
            ..s
        }),
        6 <= s.long_mins <= 120 ==> s.spec_adjusted(Adjustment::LongBreakShorter) == (Settings {
            long_mins: (s.long_mins - 5) as u32,
            ..s
        }),
        1 <= s.long_mins <= 115 ==> s.spec_adjusted(Adjustment::LongBreakLonger) == (Settings {
            long_mins: (s.long_mins + 5) as u32,
            ..s
        }),
        s.work_mins <= 5 ==> s.spec_adjusted(Adjustment::FocusShorter).work_mins == 1,
        s.short_mins <= 1 ==> s.spec_adjusted(Adjustment::ShortBreakShorter).short_mins == 1,
        s.long_mins <= 5 ==> s.spec_adjusted(Adjustment::LongBreakShorter).long_mins == 1,
        s.long_interval >= 3 ==> s.spec_adjusted(Adjustment::FewerRounds) == (Settings {
            long_interval: (s.long_interval - 1) as u32,
            ..s
        }),
        s.long_interval <= 2 ==> s.spec_adjusted(Adjustment::FewerRounds).long_interval == 2,
        s.long_interval < u32::MAX ==> s.spec_adjusted(Adjustment::MoreRounds) == (Settings {
            long_interval: (s.long_interval + 1) as u32,
            ..s
        }),
        s.spec_adjusted(Adjustment::ToggleAutoStartBreaks) == (Settings {
            auto_start_breaks: !s.auto_start_breaks,
            ..s
        }),
        s.spec_adjusted(Adjustment::ToggleAutoStartFocus) == (Settings {
            auto_start_focus: !s.auto_start_focus,
            ..s
        }),
        s.spec_adjusted(Adjustment::ToggleNotifications) == (Settings {
            notifications: !s.notifications,
            ..s
        }),
        s.spec_adjusted(Adjustment::ToggleSound) == (Settings { sound: !s.sound, ..s }),
{
}

} // verus!
