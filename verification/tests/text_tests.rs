use pomo::config::{Settings, Stats};
use pomo::session::Session;
use pomo::text::{all_time_summary, caption, clock_text, humanise, spaced, title, today_summary};
use pomo::timer::Timer;

#[test]
fn humanise_minutes_and_hours() {
    assert_eq!(humanise(0), "0m");
    assert_eq!(humanise(59), "0m");
    assert_eq!(humanise(1500), "25m");
    assert_eq!(humanise(3599), "59m");
    assert_eq!(humanise(3600), "1h 00m");
    assert_eq!(humanise(3900), "1h 05m");
    assert_eq!(humanise(45_000), "12h 30m");
}

#[test]
fn clock_text_pads_to_two_digits() {
    assert_eq!(clock_text(5, 7), "05:07");
    assert_eq!(clock_text(25, 0), "25:00");
    assert_eq!(clock_text(125, 30), "125:30");
}

#[test]
fn window_title() {
    assert_eq!(title(24, 59, Session::Work), "24:59 · Focus — Pomodoro");
    assert_eq!(title(0, 5, Session::LongBreak), "00:05 · Long Break — Pomodoro");
}

#[test]
fn spaced_letters() {
    assert_eq!(spaced("Focus"), "f o c u s");
    assert_eq!(spaced("Short Break"), "s h o r t   b r e a k");
    assert_eq!(spaced(""), "");
    assert_eq!(spaced("X"), "x");
    assert_eq!(spaced("up next · focus"), "u p   n e x t   ·   f o c u s");
}

#[test]
fn captions() {
    let mut t = Timer::new(Settings::default(), Stats::default());
    assert_eq!(caption(&t), "round 1 of 4");
    t.cycle = 3;
    assert_eq!(caption(&t), "round 4 of 4");
    t.select(Session::ShortBreak, false);
    assert_eq!(caption(&t), "up next · focus");
}

#[test]
fn summaries() {
    let mut x = Stats::default();
    assert_eq!(today_summary(&x), "no sessions yet today");
    x.today_sessions = 3;
    x.today_focus_secs = 4500;
    assert_eq!(today_summary(&x), "3 today · 1h 15m focused");
    x.total_sessions = 12;
    x.total_focus_secs = 18_000;
    assert_eq!(all_time_summary(&x), "12 sessions · 5h 00m focused all time");
}
