use pomo::session::Session;

#[test]
fn labels_name_each_session() {
    assert_eq!(Session::Work.label(), "Focus");
    assert_eq!(Session::ShortBreak.label(), "Short Break");
    assert_eq!(Session::LongBreak.label(), "Long Break");
}

#[test]
fn short_labels_fit_the_mode_switch() {
    assert_eq!(Session::Work.short_label(), "Focus");
    assert_eq!(Session::ShortBreak.short_label(), "Short");
    assert_eq!(Session::LongBreak.short_label(), "Long");
}

#[test]
fn index_follows_the_mode_switch_order() {
    for (i, s) in Session::ALL.iter().enumerate() {
        assert_eq!(s.index(), i);
    }
    assert_eq!(Session::LongBreak.index(), 2);
}

#[test]
fn only_work_is_not_a_break() {
    assert!(!Session::Work.is_break());
    assert!(Session::ShortBreak.is_break());
    assert!(Session::LongBreak.is_break());
}

#[test]
fn completion_messages() {
    assert_eq!(
        Session::Work.completion_message(),
        "Focus session complete. Time for a break."
    );
    assert_eq!(Session::ShortBreak.completion_message(), "Break is over. Ready to focus?");
    assert_eq!(Session::LongBreak.completion_message(), "Break is over. Ready to focus?");
}
