use pomo::config::{current_day, day_of, Adjustment, Settings, Stats};
use pomo::session::Session;

#[test]
fn default_settings() {
    let s = Settings::default();
    assert_eq!(s.work_mins, 25);
    assert_eq!(s.short_mins, 5);
    assert_eq!(s.long_mins, 15);
    assert_eq!(s.long_interval, 4);
    assert!(s.auto_start_breaks);
    assert!(!s.auto_start_focus);
    assert!(s.notifications);
    assert!(s.sound);
}

#[test]
fn minutes_and_duration() {
    let s = Settings::default();
    assert_eq!(s.minutes(Session::Work), 25);
    assert_eq!(s.minutes(Session::ShortBreak), 5);
    assert_eq!(s.minutes(Session::LongBreak), 15);
    assert_eq!(s.duration(Session::Work), 1500);
    assert_eq!(s.duration(Session::ShortBreak), 300);
    assert_eq!(s.duration(Session::LongBreak), 900);
}

#[test]
fn zero_minutes_last_a_minute() {
    let mut s = Settings::default();
    s.work_mins = 0;
    assert_eq!(s.duration(Session::Work), 60);
    s.long_mins = u32::MAX;
    assert_eq!(s.duration(Session::LongBreak), u32::MAX as u64 * 60);
}

#[test]
fn bounds_per_session() {
    assert_eq!(Settings::bounds(Session::Work), (1, 180));
    assert_eq!(Settings::bounds(Session::ShortBreak), (1, 60));
    assert_eq!(Settings::bounds(Session::LongBreak), (1, 120));
}

#[test]
fn set_minutes_clamps_and_leaves_the_rest() {
    let mut s = Settings::default();
    s.set_minutes(Session::Work, 500);
    assert_eq!(s.work_mins, 180);
    s.set_minutes(Session::ShortBreak, 0);
    assert_eq!(s.short_mins, 1);
    s.set_minutes(Session::LongBreak, 42);
    assert_eq!(s.long_mins, 42);
    assert_eq!(s.work_mins, 180);
    assert_eq!(s.short_mins, 1);
    assert_eq!(s.long_interval, 4);
}

#[test]
fn adjustments_step_within_bounds() {
    let mut s = Settings::default();
    s.adjust(Adjustment::FocusLonger);
    assert_eq!(s.work_mins, 30);
    s.adjust(Adjustment::FocusShorter);
    s.adjust(Adjustment::FocusShorter);
    assert_eq!(s.work_mins, 20);
    s.work_mins = 3;
    s.adjust(Adjustment::FocusShorter);
    assert_eq!(s.work_mins, 1);
    s.work_mins = 178;
    s.adjust(Adjustment::FocusLonger);
    assert_eq!(s.work_mins, 180);
    s.adjust(Adjustment::ShortBreakLonger);
    assert_eq!(s.short_mins, 6);
    s.short_mins = 1;
    s.adjust(Adjustment::ShortBreakShorter);
    assert_eq!(s.short_mins, 1);
    s.adjust(Adjustment::LongBreakLonger);
    assert_eq!(s.long_mins, 20);
    s.adjust(Adjustment::LongBreakShorter);
    assert_eq!(s.long_mins, 15);
    s.long_interval = 2;
    s.adjust(Adjustment::FewerRounds);
    assert_eq!(s.long_interval, 2);
    s.adjust(Adjustment::MoreRounds);
    assert_eq!(s.long_interval, 3);
    s.adjust(Adjustment::ToggleAutoStartBreaks);
    assert!(!s.auto_start_breaks);
    s.adjust(Adjustment::ToggleAutoStartFocus);
    assert!(s.auto_start_focus);
    s.adjust(Adjustment::ToggleNotifications);
    assert!(!s.notifications);
    s.adjust(Adjustment::ToggleSound);
    assert!(!s.sound);
}

fn sample_stats() -> Stats {
    Stats { day: 100, today_sessions: 3, today_focus_secs: 4500, total_sessions: 10, total_focus_secs: 15000 }
}

#[test]
fn roll_over_on_a_new_day_clears_today_only() {
    let mut x = sample_stats();
    assert!(x.roll_over_to(101));
    assert_eq!(x, Stats { day: 101, today_sessions: 0, today_focus_secs: 0, total_sessions: 10, total_focus_secs: 15000 });
    assert!(!x.roll_over_to(101));
    assert_eq!(x.day, 101);
}

#[test]
fn roll_over_on_the_same_day_changes_nothing() {
    let mut x = sample_stats();
    assert!(!x.roll_over_to(100));
    assert_eq!(x, sample_stats());
}

#[test]
fn record_focus_counts_whole_seconds() {
    let mut x = sample_stats();
    x.record_focus_on(1_500_999_999_999, 100);
    assert_eq!(x, Stats { day: 100, today_sessions: 4, today_focus_secs: 6000, total_sessions: 11, total_focus_secs: 16500 });
    x.record_focus_on(60_000_000_000, 102);
    assert_eq!(x, Stats { day: 102, today_sessions: 1, today_focus_secs: 60, total_sessions: 12, total_focus_secs: 16560 });
}

#[test]
fn clear_forgets_everything() {
    let mut x = sample_stats();
    x.clear_on(7);
    assert_eq!(x, Stats { day: 7, ..Stats::default() });
}

#[test]
fn days_since_epoch() {
    assert_eq!(day_of(None), 0);
    assert_eq!(day_of(Some(86_399)), 0);
    assert_eq!(day_of(Some(86_400)), 1);
    assert_eq!(day_of(Some(1_700_000_000)), 19675);
}

#[test]
fn the_clock_gives_a_plausible_day() {
    // Every clock this runs on is set after 2023.
    let today = current_day();
    assert!(today > 19_675);
    let mut x = sample_stats();
    assert!(x.roll_over());
    assert_eq!(x.day, current_day());
    assert_eq!(x.total_sessions, 10);
    let mut y = sample_stats();
    y.record_focus(120_000_000_000);
    assert_eq!(y.today_sessions, 1);
    assert_eq!(y.today_focus_secs, 120);
    assert_eq!(y.total_sessions, 11);
    let mut z = sample_stats();
    z.clear();
    assert_eq!(z.total_sessions, 0);
    assert_eq!(z.day, current_day());
}
