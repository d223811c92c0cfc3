use pomo::config::{Settings, Stats};
use pomo::state_file::{load_state, load_state_on, parse_state, render_state};

#[test]
fn an_empty_file_gives_the_defaults() {
    let (s, x) = parse_state(b"");
    assert_eq!(s, Settings::default());
    assert_eq!(x, Stats::default());
}

#[test]
fn reads_keys_values_and_ignores_the_rest() {
    let text = "# a comment\n\n  work_mins = 30  \nshort_mins=7\r\nunknown=3\nno equals sign\nlong_mins=+20\nlong_interval=6\nsound=no\nnotifications = 0\nauto_start_focus=yes\nauto_start_breaks=false\n";
    let (s, x) = parse_state(text.as_bytes());
    assert_eq!(s.work_mins, 30);
    assert_eq!(s.short_mins, 7);
    assert_eq!(s.long_mins, 20);
    assert_eq!(s.long_interval, 6);
    assert!(!s.sound);
    assert!(!s.notifications);
    assert!(s.auto_start_focus);
    assert!(!s.auto_start_breaks);
    assert_eq!(x, Stats::default());
}

#[test]
fn malformed_lengths_keep_their_value_and_statistics_become_zero() {
    let text = "work_mins=abc\nshort_mins=-3\nlong_mins=\nsound=maybe\nday=12\nday=x\ntoday_sessions=4\ntotal_sessions=5\ntotal_focus_secs=+\n";
    let (s, x) = parse_state(text.as_bytes());
    assert_eq!(s.work_mins, 25);
    assert_eq!(s.short_mins, 5);
    assert_eq!(s.long_mins, 15);
    assert!(s.sound);
    assert_eq!(x.day, 0);
    assert_eq!(x.today_sessions, 4);
    assert_eq!(x.total_sessions, 5);
    assert_eq!(x.total_focus_secs, 0);
}

#[test]
fn numbers_are_cut_to_their_field_then_clamped() {
    // 4294967297 = 2^32 + 1, which `as u32` turns into 1.
    let text = "work_mins=4294967297\nshort_mins=4294967296\nlong_mins=1000\nlong_interval=1\ntoday_sessions=4294967298\n";
    let (s, x) = parse_state(text.as_bytes());
    assert_eq!(s.work_mins, 1);
    assert_eq!(s.short_mins, 1);
    assert_eq!(s.long_mins, 120);
    assert_eq!(s.long_interval, 2);
    assert_eq!(x.today_sessions, 2);
}

#[test]
fn overflowing_numbers_do_not_read() {
    let text = "day=18446744073709551615\ntoday_focus_secs=18446744073709551616\nwork_mins=99999999999999999999\n";
    let (s, x) = parse_state(text.as_bytes());
    assert_eq!(x.day, u64::MAX);
    assert_eq!(x.today_focus_secs, 0);
    assert_eq!(s.work_mins, 25);
}

#[test]
fn unicode_whitespace_is_trimmed() {
    let text = "\u{a0}work_mins\u{2003}=\u{3000}40\u{85}\n\u{2028}sound=false\u{205f}\n";
    let (s, _) = parse_state(text.as_bytes());
    assert_eq!(s.work_mins, 40);
    assert!(!s.sound);
}

#[test]
fn the_first_equals_sign_splits_and_a_hash_comments() {
    let text = "work_mins==5\n# work_mins=9\n  #short_mins=9\nlong_mins=5=5\nlong_interval=3";
    let (s, _) = parse_state(text.as_bytes());
    assert_eq!(s.work_mins, 25);
    assert_eq!(s.short_mins, 5);
    assert_eq!(s.long_mins, 15);
    assert_eq!(s.long_interval, 3);
}

fn sample() -> (Settings, Stats) {
    let settings = Settings {
        work_mins: 50,
        short_mins: 10,
        long_mins: 30,
        long_interval: 3,
        auto_start_breaks: false,
        auto_start_focus: true,
        notifications: false,
        sound: true,
    };
    let stats = Stats { day: 20_000, today_sessions: 2, today_focus_secs: 6000, total_sessions: 41, total_focus_secs: 123_456 };
    (settings, stats)
}

#[test]
fn renders_every_key() {
    let (s, x) = sample();
    let text = String::from_utf8(render_state(&s, &x)).unwrap();
    assert_eq!(
        text,
        "# pomo state — edited automatically\nwork_mins=50\nshort_mins=10\nlong_mins=30\nlong_interval=3\nauto_start_breaks=false\nauto_start_focus=true\nnotifications=false\nsound=true\nday=20000\ntoday_sessions=2\ntoday_focus_secs=6000\ntotal_sessions=41\ntotal_focus_secs=123456\n"
    );
}

#[test]
fn what_is_written_reads_back() {
    let (s, x) = sample();
    assert_eq!(parse_state(&render_state(&s, &x)), (s, x));
    let big = Stats { day: u64::MAX, today_sessions: u32::MAX, today_focus_secs: u64::MAX, total_sessions: 0, total_focus_secs: 9 };
    assert_eq!(parse_state(&render_state(&Settings::default(), &big)), (Settings::default(), big));
    assert_eq!(load_state_on(Some(&render_state(&s, &x)), x.day), (s, x));
}

#[test]
fn loading_rolls_the_day_over() {
    let (s, x) = sample();
    let text = render_state(&s, &x);
    let (s2, x2) = load_state_on(Some(&text), 20_001);
    assert_eq!(s2, s);
    assert_eq!(x2, Stats { day: 20_001, today_sessions: 0, today_focus_secs: 0, ..x });
}

#[test]
fn no_file_gives_defaults_dated_today() {
    let (s, x) = load_state_on(None, 77);
    assert_eq!(s, Settings::default());
    assert_eq!(x, Stats { day: 77, ..Stats::default() });
    let (s, x) = load_state(None);
    assert_eq!(s, Settings::default());
    assert!(x.day > 19_675);
}

#[test]
fn the_last_readable_value_of_a_length_wins() {
    let text = "work_mins=40\nwork_mins=50\nwork_mins=oops\nshort_mins=90\nshort_mins=x\nlong_interval=8\nlong_interval=3\n";
    let (s, _) = parse_state(text.as_bytes());
    assert_eq!(s.work_mins, 50);
    assert_eq!(s.short_mins, 60);
    assert_eq!(s.long_mins, 15);
    assert_eq!(s.long_interval, 3);
}
