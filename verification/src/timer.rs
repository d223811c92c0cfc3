//! The pomodoro timer: which session runs, how much of it is left, how many
//! focus rounds the cycle has seen, and what happens when a session ends.
//!
//! The timer keeps no clock of its own: the caller hands it the time that
//! has passed, and performs the notifications that a completed session asks
//! for.

use crate::config::{Settings, Stats, clamp_spec, clamp_u32, is_clock_day};
use crate::session::Session;
use vstd::prelude::*;

verus! {

pub const NANOS_PER_SEC: u128 = 1_000_000_000;

/// Length of `session` in nanoseconds.
pub open spec fn duration_ns_for(settings: Settings, session: Session) -> int {
    settings.spec_duration(session) * NANOS_PER_SEC
}

/// What the end of a session asks of the caller.
#[derive(Clone, Copy, PartialEq, Eq, Debug, Structural)]
pub struct Completion {
    /// The session that ended.
    pub finished: Session,
    /// Whether to show a desktop notification.
    pub banner: bool,
    /// Whether to play the completion chime.
    pub chime: bool,
}

/// What a tick leaves: whether the timer still runs, and the session that
/// ended on this tick, if one did.
#[derive(Clone, Copy, PartialEq, Eq, Debug, Structural)]
pub struct TickOutcome {
    pub keep_going: bool,
    pub completed: Option<Completion>,
}

/// How a dot of the round indicator is drawn.
#[derive(Clone, Copy, PartialEq, Eq, Debug, Structural)]
pub enum Dot {
    /// A focus round of this cycle that has been completed.
    Done,
    /// The focus round under way.
    Current,
    /// A round still to come.
    Ahead,
}

#[derive(Clone, Copy, PartialEq, Eq, Debug, Structural)]
pub struct Timer {
    pub settings: Settings,
    pub stats: Stats,
    pub session: Session,
    /// Length of the current session, in nanoseconds.
    pub duration_ns: u128,
    /// Time left in the current session, in nanoseconds.
    pub remaining_ns: u128,
    pub running: bool,
    /// Focus sessions completed since the last long break.
    pub cycle: u32,
}

fn session_ns(settings: &Settings, session: Session) -> (ns: u128)
    ensures
        ns == duration_ns_for(*settings, session),
        ns >= 60 * NANOS_PER_SEC,
{
    settings.duration(session) as u128 * NANOS_PER_SEC
}

impl Timer {
    /// The length matches the settings, and no more than it is left.
    pub open spec fn wf(self) -> bool {
        &&& self.duration_ns == duration_ns_for(self.settings, self.session)
        &&& self.remaining_ns <= self.duration_ns
    }

    pub open spec fn spec_new(settings: Settings, stats: Stats) -> Timer {
        Timer {
            settings,
            stats,
            session: Session::Work,
            duration_ns: duration_ns_for(settings, Session::Work) as u128,
            remaining_ns: duration_ns_for(settings, Session::Work) as u128,
            running: false,
            cycle: 0,
        }
    }

    /// `session` begins afresh, running or not.
    pub open spec fn spec_entered(self, session: Session, running: bool) -> Timer {
        Timer {
            session,
            duration_ns: duration_ns_for(self.settings, session) as u128,
            remaining_ns: duration_ns_for(self.settings, session) as u128,
            running,
            ..self
        }
    }

    /// After focus comes a break, a long one once the cycle has its rounds;
    /// after a break comes focus.
    pub open spec fn spec_next_session(self) -> Session {
        match self.session {
            Session::Work => if self.cycle >= self.settings.long_interval {
                Session::LongBreak
            } else {
                Session::ShortBreak
            },
            _ => Session::Work,
        }
    }

    pub open spec fn spec_auto_starts(self, next: Session) -> bool {
        if next.spec_is_break() {
            self.settings.auto_start_breaks
        } else {
            self.settings.auto_start_focus
        }
    }

    /// Pausing keeps what is left; starting a session that has run out
    /// starts it from the beginning.
    pub open spec fn spec_toggled(self) -> Timer {
        if self.running {
            Timer { running: false, ..self }
        } else {
            Timer {
                remaining_ns: if self.remaining_ns == 0 {
                    self.duration_ns
                } else {
                    self.remaining_ns
                },
                running: true,
                ..self
            }
        }
    }

    pub open spec fn spec_reset(self) -> Timer {
        Timer {
            running: false,
            duration_ns: duration_ns_for(self.settings, self.session) as u128,
            remaining_ns: duration_ns_for(self.settings, self.session) as u128,
            ..self
        }
    }

    pub open spec fn spec_selected(self, session: Session, keep_running: bool) -> Timer {
        self.spec_entered(session, keep_running && self.running)
    }

    pub open spec fn spec_skipped(self) -> Timer {
        let next = self.spec_next_session();
        self.spec_entered(next, self.running && self.spec_auto_starts(next))
    }

    /// A completed focus session counts a round and its length in the
    /// statistics; a completed long break starts the cycle over.
    pub open spec fn spec_counted(self, today: u64) -> Timer {
        match self.session {
            Session::Work => Timer {
                cycle: (self.cycle + 1) as u32,
                stats: self.stats.rolled(today).with_focus(
                    (self.duration_ns / NANOS_PER_SEC) as u64,
                ),
                ..self
            },
            Session::LongBreak => Timer { cycle: 0, ..self },
            Session::ShortBreak => self,
        }
    }

    /// The timer after the current session ends on `today`: the next
    /// session begins, running if it starts automatically.
    pub open spec fn spec_completed(self, today: u64) -> Timer {
        let c = self.spec_counted(today);
        let next = c.spec_next_session();
        c.spec_entered(next, c.spec_auto_starts(next))
    }

    pub open spec fn spec_completion(self) -> Completion {
        Completion {
            finished: self.session,
            banner: self.settings.notifications,
            chime: self.settings.sound,
        }
    }

    /// Ending the current session cannot overflow a counter, whatever day
    /// the system clock gives.
    pub open spec fn can_complete(self) -> bool {
        self.session is Work ==> {
            &&& self.cycle < u32::MAX
            &&& self.stats.can_record_any_day((self.duration_ns / NANOS_PER_SEC) as u64)
        }
    }

    /// Ending the current session on `today` cannot overflow a counter.
    pub open spec fn can_complete_on(self, today: u64) -> bool {
        self.session is Work ==> {
            &&& self.cycle < u32::MAX
            &&& self.stats.rolled(today).can_record((self.duration_ns / NANOS_PER_SEC) as u64)
        }
    }

    /// The timer after `elapsed_ns` nanoseconds have passed, when a session
    /// that ends does so on `today`.
    pub open spec fn spec_tick(self, elapsed_ns: u128, today: u64) -> (Timer, TickOutcome) {
        if !self.running {
            (self, TickOutcome { keep_going: false, completed: None })
        } else if self.remaining_ns > elapsed_ns {
            (
                Timer { remaining_ns: (self.remaining_ns - elapsed_ns) as u128, ..self },
                TickOutcome { keep_going: true, completed: None },
            )
        } else {
            let done = Timer { remaining_ns: 0, ..self }.spec_completed(today);
            (done, TickOutcome { keep_going: done.running, completed: Some(self.spec_completion()) })
        }
    }

    /// New settings take effect at once: the number of rounds is kept
    /// between two and twelve, the cycle does not exceed it, and the current
    /// session takes its new length. A paused session starts over; a running
    /// one keeps the time it has run, with at least a second left.
    pub open spec fn spec_with_settings(self, settings: Settings) -> Timer {
        let s = Settings {
            long_interval: clamp_spec(settings.long_interval as int, 2, 12) as u32,
            ..settings
        };
        let d = duration_ns_for(s, self.session);
        let elapsed = if self.duration_ns >= self.remaining_ns {
            self.duration_ns - self.remaining_ns
        } else {
            0
        };
        let left = if d >= elapsed {
            d - elapsed
        } else {
            0
        };
        Timer {
            settings: s,
            cycle: if self.cycle <= s.long_interval {
                self.cycle
            } else {
                s.long_interval
            },
            duration_ns: d as u128,
            remaining_ns: if self.running {
                if left >= NANOS_PER_SEC {
                    left as u128
                } else {
                    NANOS_PER_SEC
                }
            } else {
                d as u128
            },
            ..self
        }
    }

    /// A fresh timer at the start of a focus session, paused.
    pub fn new(settings: Settings, stats: Stats) -> (t: Timer)
        ensures
            t == Timer::spec_new(settings, stats),
            t.wf(),
    {
        let duration = session_ns(&settings, Session::Work);
        Timer {
            settings,
            stats,
            session: Session::Work,
            duration_ns: duration,
            remaining_ns: duration,
            running: false,
            cycle: 0,
        }
    }

    /// Starts or pauses the timer.
    pub fn toggle(&mut self)
        requires
            old(self).wf(),
        ensures
            *final(self) == old(self).spec_toggled(),
            final(self).wf(),
    {
        if self.running {
            self.running = false;
        } else {
            if self.remaining_ns == 0 {
                self.remaining_ns = self.duration_ns;
            }
            self.running = true;
        }
    }

    /// Stops the timer and starts the current session over.
    pub fn reset(&mut self)
        requires
            old(self).wf(),
        ensures
            *final(self) == old(self).spec_reset(),
            final(self).wf(),
    {
        self.running = false;
        self.duration_ns = session_ns(&self.settings, self.session);
        self.remaining_ns = self.duration_ns;
    }

    /// Switches to `session`; it keeps running only when asked to and the
    /// timer was running.
    pub fn select(&mut self, session: Session, keep_running: bool)
        requires
            old(self).wf(),
        ensures
            *final(self) == old(self).spec_selected(session, keep_running),
            final(self).wf(),
    {
        let running = keep_running && self.running;
        self.enter(session, running);
    }

    /// Moves on to the next session without completing the current one; the
    /// next keeps running if the timer ran and it starts automatically.
    pub fn skip(&mut self)
        requires
            old(self).wf(),
        ensures
            *final(self) == old(self).spec_skipped(),
            final(self).wf(),
    {
        let next = self.next_session();
        let carry_on = self.running && self.auto_starts(next);
        self.enter(next, carry_on);
    }

    pub fn next_session(&self) -> (s: Session)
        ensures
            s == self.spec_next_session(),
    {
        match self.session {
            Session::Work => {
                if self.cycle >= self.settings.long_interval {
                    Session::LongBreak
                } else {
                    Session::ShortBreak
                }
            },
            _ => Session::Work,
        }
    }

    pub fn auto_starts(&self, next: Session) -> (b: bool)
        ensures
            b == self.spec_auto_starts(next),
    {
        if next.is_break() {
            self.settings.auto_start_breaks
        } else {
            self.settings.auto_start_focus
        }
    }

    fn enter(&mut self, session: Session, running: bool)
        ensures
            *final(self) == old(self).spec_entered(session, running),
            final(self).wf(),
    {
        self.session = session;
        self.duration_ns = session_ns(&self.settings, session);
        self.remaining_ns = self.duration_ns;
        self.running = running;
    }

    /// Ends the current session: counts it, then enters the next one.
    fn complete(&mut self) -> (c: Completion)
        requires
            old(self).wf(),
            old(self).can_complete(),
        ensures
            *final(self) == old(self).spec_completed(final(self).stats.day),
            c == old(self).spec_completion(),
            final(self).wf(),
            old(self).session is Work ==> is_clock_day(final(self).stats.day),
    {
        let finished = self.session;
        match finished {
            Session::Work => {
                self.cycle = self.cycle + 1;
                self.stats.record_focus(self.duration_ns);
            },
            Session::LongBreak => self.cycle = 0,
            Session::ShortBreak => {},
        }
        let c = Completion {
            finished,
            banner: self.settings.notifications,
            chime: self.settings.sound,
        };
        let next = self.next_session();
        let auto_start = self.auto_starts(next);
        self.enter(next, auto_start);
        c
    }

    /// Ends the current session on `today`: counts it, then enters the next one.
    fn complete_on(&mut self, today: u64) -> (c: Completion)
        requires
            old(self).wf(),
            old(self).can_complete_on(today),
        ensures
            *final(self) == old(self).spec_completed(today),
            c == old(self).spec_completion(),
            final(self).wf(),
    {
        let finished = self.session;
        match finished {
            Session::Work => {
                self.cycle = self.cycle + 1;
                self.stats.record_focus_on(self.duration_ns, today);
            },
            Session::LongBreak => self.cycle = 0,
            Session::ShortBreak => {},
        }
        let c = Completion {
            finished,
            banner: self.settings.notifications,
            chime: self.settings.sound,
        };
        let next = self.next_session();
        let auto_start = self.auto_starts(next);
        self.enter(next, auto_start);
        c
    }

    /// `tick` when a session that ends does so on `today`.
    pub fn tick_on(&mut self, elapsed_ns: u128, today: u64) -> (r: TickOutcome)
        requires
            old(self).wf(),
            old(self).running && elapsed_ns >= old(self).remaining_ns ==> old(
                self,
            ).can_complete_on(today),
        ensures
            (*final(self), r) == old(self).spec_tick(elapsed_ns, today),
            final(self).wf(),
    {
        if !self.running {
            return TickOutcome { keep_going: false, completed: None };
        }
        if self.remaining_ns > elapsed_ns {
            self.remaining_ns = self.remaining_ns - elapsed_ns;
            TickOutcome { keep_going: true, completed: None }
        } else {
            self.remaining_ns = 0;
            let c = self.complete_on(today);
            TickOutcome { keep_going: self.running, completed: Some(c) }
        }
    }

    /// Lets `elapsed_ns` nanoseconds pass. When the session runs out it is
    /// completed, and the outcome says so; the timer keeps going if it still
    /// runs.
    pub fn tick(&mut self, elapsed_ns: u128) -> (r: TickOutcome)
        requires
            old(self).wf(),
            old(self).running && elapsed_ns >= old(self).remaining_ns ==> old(self).can_complete(),
        ensures
            (*final(self), r) == old(self).spec_tick(elapsed_ns, final(self).stats.day),
            final(self).wf(),
            old(self).running && elapsed_ns >= old(self).remaining_ns && old(self).session is Work
                ==> is_clock_day(final(self).stats.day),
    {
        if !self.running {
            return TickOutcome { keep_going: false, completed: None };
        }
        if self.remaining_ns > elapsed_ns {
            self.remaining_ns = self.remaining_ns - elapsed_ns;
            TickOutcome { keep_going: true, completed: None }
        } else {
            self.remaining_ns = 0;
            let c = self.complete();
            TickOutcome { keep_going: self.running, completed: Some(c) }
        }
    }

    /// Applies new settings; see `spec_with_settings`.
    pub fn update_settings(&mut self, settings: Settings)
        requires
            old(self).wf(),
        ensures
            *final(self) == old(self).spec_with_settings(settings),
            final(self).wf(),
    {
        let mut s = settings;
        s.long_interval = clamp_u32(s.long_interval, 2, 12);
        self.settings = s;
        if self.cycle > s.long_interval {
            self.cycle = s.long_interval;
        }
        let duration = session_ns(&self.settings, self.session);
        if self.running {
            let elapsed = if self.duration_ns >= self.remaining_ns {
                self.duration_ns - self.remaining_ns
            } else {
                0
            };
            let left = if duration >= elapsed {
                duration - elapsed
            } else {
                0
            };
            self.remaining_ns = if left >= NANOS_PER_SEC {
                left
            } else {
                NANOS_PER_SEC
            };
        } else {
            self.remaining_ns = duration;
        }
        self.duration_ns = duration;
    }

    /// The focus round under way, counting from one, within a cycle of
    /// `long_interval` rounds.
    pub fn round(&self) -> (r: u32)
        ensures
            r == self.cycle % (if self.settings.long_interval < 1 {
                1
            } else {
                self.settings.long_interval
            }) + 1,
    {
        let rounds = if self.settings.long_interval < 1 {
            1
        } else {
            self.settings.long_interval
        };
        self.cycle % rounds + 1
    }

    /// How many dots the round indicator shows: the rounds of a cycle, kept
    /// between two and twelve.
    pub fn dot_count(&self) -> (n: usize)
        ensures
            n == clamp_spec(self.settings.long_interval as int, 2, 12),
    {
        clamp_u32(self.settings.long_interval, 2, 12) as usize
    }

    /// How the dot at `index` is drawn: the completed rounds of the cycle
    /// are done, the next one is under way while focusing.
    pub fn dot(&self, index: usize) -> (d: Dot)
        ensures
            d == (if index < (if self.cycle <= self.settings.long_interval {
                self.cycle
            } else {
                self.settings.long_interval
            }) {
                Dot::Done
            } else if index == (if self.cycle <= self.settings.long_interval {
                self.cycle
            } else {
                self.settings.long_interval
            }) && !self.session.spec_is_break() {
                Dot::Current
            } else {
                Dot::Ahead
            }),
    {
        let filled = if self.cycle <= self.settings.long_interval {
            self.cycle
        } else {
            self.settings.long_interval
        } as usize;
        if index < filled {
            Dot::Done
        } else if index == filled && !self.session.is_break() {
            Dot::Current
        } else {
            Dot::Ahead
        }
    }
}

/// Minutes and seconds of a clock that shows `total_secs` seconds.
pub fn clock_parts(total_secs: u64) -> (r: (u64, u64))
    ensures
        r == (total_secs / 60, total_secs % 60),
        r.0 * 60 + r.1 == total_secs,
        r.1 < 60,
{
    (total_secs / 60, total_secs % 60)
}


/// Pausing and resuming a session that has time left leaves the timer as it
/// was, and so does resuming and pausing.
pub proof fn lemma_toggle_twice(t: Timer)
    requires
        t.remaining_ns > 0,
    ensures
        t.spec_toggled().spec_toggled() == t,
{
}

/// A paused timer does not move, and asks not to be ticked again.
pub proof fn lemma_paused_tick(t: Timer, elapsed_ns: u128, today: u64)
    requires
        !t.running,
    ensures
        t.spec_tick(elapsed_ns, today) == (t, TickOutcome { keep_going: false, completed: None }),
{
}

/// Time that passes in two ticks counts as it does in one, as long as the
/// session does not run out.
pub proof fn lemma_tick_additive(t: Timer, a: u128, b: u128, today: u64)
    requires
        t.running,
        a + b < t.remaining_ns,
    ensures
        t.spec_tick(a, today).0.spec_tick(b, today).0 == t.spec_tick((a + b) as u128, today).0,
        t.spec_tick(a, today).1 == t.spec_tick((a + b) as u128, today).1,
{
}

/// Resetting twice is resetting once.
pub proof fn lemma_reset_idempotent(t: Timer)
    ensures
        t.spec_reset().spec_reset() == t.spec_reset(),
{
}

/// Skipping from focus lands on a break, and from a break on focus.
pub proof fn lemma_skip_alternates(t: Timer)
    ensures
        t.spec_skipped().session.spec_is_break() == !t.session.spec_is_break(),
{
}

/// When a session ends: after focus the round is counted and a long break
/// follows once the cycle has its rounds, a short break otherwise; after a
/// long break the cycle starts over; every break is followed by focus.
pub proof fn lemma_completion_cycle(t: Timer, today: u64)
    requires
        t.cycle < u32::MAX,
    ensures
        t.spec_completed(today).session == (match t.session {
            Session::Work => if t.cycle + 1 >= t.settings.long_interval {
                Session::LongBreak
            } else {
                Session::ShortBreak
            },
            _ => Session::Work,
        }),
        t.spec_completed(today).cycle == (match t.session {
            Session::Work => t.cycle + 1,
            Session::LongBreak => 0,
            Session::ShortBreak => t.cycle as int,
        }),
        t.spec_completed(today).remaining_ns == t.spec_completed(today).duration_ns,
{
}

/// A completed focus session is counted once in the statistics, with its
/// full length in seconds; a completed break leaves them alone.
pub proof fn lemma_completion_stats(t: Timer, today: u64)
    requires
        t.wf(),
    ensures
        t.session is Work ==> t.spec_completed(today).stats == t.stats.rolled(today).with_focus(
            t.settings.spec_duration(t.session) as u64,
        ),
        !(t.session is Work) ==> t.spec_completed(today).stats == t.stats,
{
    assert(t.duration_ns / NANOS_PER_SEC == t.settings.spec_duration(t.session));
}

/// New settings: a paused session starts over at its new length; a running
/// one keeps the time it has already run, when its new length leaves at
/// least a second of it.
pub proof fn lemma_settings_keep_elapsed(t: Timer, s: Settings)
    requires
        t.wf(),
    ensures
        !t.running ==> t.spec_with_settings(s).remaining_ns == t.spec_with_settings(s).duration_ns,
        t.running && t.spec_with_settings(s).duration_ns >= t.duration_ns - t.remaining_ns
            + NANOS_PER_SEC ==> t.spec_with_settings(s).duration_ns - t.spec_with_settings(
            s,
        ).remaining_ns == t.duration_ns - t.remaining_ns,
{
}


/// A running session that runs out reports itself as finished, with a
/// banner exactly when notifications are on and a chime exactly when the
/// sound is on; a tick that does not end it reports nothing.
pub proof fn lemma_completion_report(t: Timer, elapsed_ns: u128, today: u64)
    ensures
        t.running && elapsed_ns >= t.remaining_ns ==> t.spec_tick(elapsed_ns, today).1.completed
            == Some(
            Completion {
                finished: t.session,
                banner: t.settings.notifications,
                chime: t.settings.sound,
            },
        ),
        !(t.running && elapsed_ns >= t.remaining_ns) ==> t.spec_tick(
            elapsed_ns,
            today,
        ).1.completed is None,
{
}

/// Reset keeps the session, its settings, statistics and cycle; it stops the
/// timer and leaves the whole of the session's length, as the settings give
/// it, to run.
pub proof fn lemma_reset_restarts_session(t: Timer)
    ensures
        t.spec_reset().session == t.session,
        t.spec_reset().settings == t.settings,
        t.spec_reset().stats == t.stats,
        t.spec_reset().cycle == t.cycle,
        !t.spec_reset().running,
        t.spec_reset().duration_ns == t.settings.spec_minutes(t.session) as int * 60 * NANOS_PER_SEC
            || (t.settings.spec_minutes(t.session) == 0 && t.spec_reset().duration_ns == 60
            * NANOS_PER_SEC),
        t.spec_reset().remaining_ns == t.spec_reset().duration_ns,
{
}

} // verus!
