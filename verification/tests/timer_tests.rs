use pomo::config::{Settings, Stats};
use pomo::session::Session;
use pomo::timer::{clock_parts, Completion, Dot, Timer, TickOutcome, NANOS_PER_SEC};

const MIN: u128 = 60 * NANOS_PER_SEC;

fn timer() -> Timer {
    Timer::new(Settings::default(), Stats::default())
}

#[test]
fn a_new_timer_waits_at_the_start_of_focus() {
    let t = timer();
    assert_eq!(t.session, Session::Work);
    assert_eq!(t.duration_ns, 25 * MIN);
    assert_eq!(t.remaining_ns, 25 * MIN);
    assert!(!t.running);
    assert_eq!(t.cycle, 0);
}

#[test]
fn toggling_twice_changes_nothing() {
    let mut t = timer();
    let before = t;
    t.toggle();
    assert!(t.running);
    t.toggle();
    assert_eq!(t, before);
}

#[test]
fn starting_a_run_out_session_starts_it_over() {
    let mut t = timer();
    t.remaining_ns = 0;
    t.toggle();
    assert!(t.running);
    assert_eq!(t.remaining_ns, 25 * MIN);
}

#[test]
fn ticks_count_down() {
    let mut t = timer();
    t.toggle();
    let r = t.tick(90 * NANOS_PER_SEC);
    assert_eq!(r, TickOutcome { keep_going: true, completed: None });
    assert_eq!(t.remaining_ns, 25 * MIN - 90 * NANOS_PER_SEC);
    let mut u = timer();
    u.toggle();
    u.tick(30 * NANOS_PER_SEC);
    u.tick(60 * NANOS_PER_SEC);
    assert_eq!(u, t);
}

#[test]
fn a_paused_timer_does_not_tick() {
    let mut t = timer();
    let before = t;
    let r = t.tick(10 * MIN);
    assert_eq!(r, TickOutcome { keep_going: false, completed: None });
    assert_eq!(t, before);
}

#[test]
fn completing_focus_counts_it_and_starts_a_break() {
    let mut t = timer();
    t.toggle();
    let r = t.tick(26 * MIN);
    assert_eq!(
        r,
        TickOutcome {
            keep_going: true,
            completed: Some(Completion { finished: Session::Work, banner: true, chime: true })
        }
    );
    assert_eq!(t.session, Session::ShortBreak);
    assert!(t.running);
    assert_eq!(t.remaining_ns, 5 * MIN);
    assert_eq!(t.cycle, 1);
    assert_eq!(t.stats.total_sessions, 1);
    assert_eq!(t.stats.total_focus_secs, 1500);
    assert_eq!(t.stats.today_sessions, 1);
}

#[test]
fn a_break_that_ends_waits_for_focus() {
    let mut t = timer();
    t.select(Session::ShortBreak, false);
    t.toggle();
    let r = t.tick(5 * MIN);
    assert_eq!(
        r,
        TickOutcome {
            keep_going: false,
            completed: Some(Completion { finished: Session::ShortBreak, banner: true, chime: true })
        }
    );
    assert_eq!(t.session, Session::Work);
    assert!(!t.running);
    assert_eq!(t.cycle, 0);
    assert_eq!(t.stats, Stats::default());
}

#[test]
fn a_long_break_follows_the_last_round() {
    let mut settings = Settings::default();
    settings.auto_start_focus = true;
    settings.long_interval = 2;
    let mut t = Timer::new(settings, Stats::default());
    t.toggle();
    t.tick(25 * MIN);
    assert_eq!(t.session, Session::ShortBreak);
    t.tick(5 * MIN);
    assert_eq!(t.session, Session::Work);
    t.tick(25 * MIN);
    assert_eq!(t.cycle, 2);
    assert_eq!(t.session, Session::LongBreak);
    assert_eq!(t.remaining_ns, 15 * MIN);
    t.tick(15 * MIN);
    assert_eq!(t.cycle, 0);
    assert_eq!(t.session, Session::Work);
    assert!(t.running);
}

#[test]
fn skipping_moves_on_without_counting() {
    let mut t = timer();
    t.toggle();
    t.skip();
    assert_eq!(t.session, Session::ShortBreak);
    assert!(t.running);
    assert_eq!(t.cycle, 0);
    t.skip();
    assert_eq!(t.session, Session::Work);
    assert!(!t.running);
    t.cycle = 4;
    assert_eq!(t.next_session(), Session::LongBreak);
    assert!(t.auto_starts(Session::LongBreak));
    assert!(!t.auto_starts(Session::Work));
}

#[test]
fn selecting_stops_unless_asked_to_keep_running() {
    let mut t = timer();
    t.toggle();
    t.select(Session::LongBreak, true);
    assert_eq!(t.session, Session::LongBreak);
    assert!(t.running);
    assert_eq!(t.remaining_ns, 15 * MIN);
    t.select(Session::ShortBreak, false);
    assert!(!t.running);
    assert_eq!(t.remaining_ns, 5 * MIN);
}

#[test]
fn reset_starts_the_session_over() {
    let mut t = timer();
    t.toggle();
    t.tick(MIN);
    t.reset();
    assert!(!t.running);
    assert_eq!(t.remaining_ns, 25 * MIN);
    let once = t;
    t.reset();
    assert_eq!(t, once);
}

#[test]
fn new_settings_keep_the_elapsed_time_of_a_running_session() {
    let mut t = timer();
    t.toggle();
    t.tick(10 * MIN);
    let mut s = t.settings;
    s.work_mins = 30;
    t.update_settings(s);
    assert_eq!(t.duration_ns, 30 * MIN);
    assert_eq!(t.remaining_ns, 20 * MIN);
    s.work_mins = 5;
    t.update_settings(s);
    assert_eq!(t.remaining_ns, NANOS_PER_SEC);
}

#[test]
fn new_settings_restart_a_paused_session() {
    let mut t = timer();
    t.toggle();
    t.tick(10 * MIN);
    t.toggle();
    let mut s = t.settings;
    s.work_mins = 40;
    s.long_interval = 30;
    t.cycle = 20;
    t.update_settings(s);
    assert_eq!(t.remaining_ns, 40 * MIN);
    assert_eq!(t.settings.long_interval, 12);
    assert_eq!(t.cycle, 12);
}

#[test]
fn rounds_and_dots() {
    let mut t = timer();
    assert_eq!(t.round(), 1);
    t.cycle = 2;
    assert_eq!(t.round(), 3);
    t.cycle = 4;
    assert_eq!(t.round(), 1);
    assert_eq!(t.dot_count(), 4);
    t.cycle = 2;
    assert_eq!(t.dot(0), Dot::Done);
    assert_eq!(t.dot(1), Dot::Done);
    assert_eq!(t.dot(2), Dot::Current);
    assert_eq!(t.dot(3), Dot::Ahead);
    t.select(Session::ShortBreak, false);
    assert_eq!(t.dot(2), Dot::Ahead);
    t.settings.long_interval = 40;
    assert_eq!(t.dot_count(), 12);
    t.settings.long_interval = 0;
    assert_eq!(t.dot_count(), 2);
    assert_eq!(t.round(), 1);
}

#[test]
fn the_clock_splits_minutes_and_seconds() {
    assert_eq!(clock_parts(0), (0, 0));
    assert_eq!(clock_parts(1500), (25, 0));
    assert_eq!(clock_parts(61), (1, 1));
    assert_eq!(clock_parts(7199), (119, 59));
}

#[test]
fn a_new_day_makes_room_in_full_daily_counters() {
    let stats = Stats { day: 5, today_sessions: u32::MAX, today_focus_secs: u64::MAX, total_sessions: 7, total_focus_secs: 100 };
    let mut t = Timer::new(Settings::default(), stats);
    t.toggle();
    let r = t.tick_on(25 * MIN, 6);
    assert_eq!(r.completed.map(|c| c.finished), Some(Session::Work));
    assert_eq!(t.stats, Stats { day: 6, today_sessions: 1, today_focus_secs: 1500, total_sessions: 8, total_focus_secs: 1600 });
    assert_eq!(t.session, Session::ShortBreak);
}

#[test]
fn ticking_on_a_day_without_completing_leaves_the_statistics() {
    let mut t = timer();
    t.toggle();
    let r = t.tick_on(MIN, 99);
    assert_eq!(r, TickOutcome { keep_going: true, completed: None });
    assert_eq!(t.stats, Stats::default());
}
