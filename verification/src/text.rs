//! The text the timer shows: clocks, durations, captions and summaries.

use crate::config::Stats;
use crate::session::Session;
use crate::state_file::decimal;
use crate::timer::Timer;
use vstd::prelude::*;
use vstd::string::StrSliceExecFns;

verus! {

/// The decimal digits of `n` as characters.
pub open spec fn decimal_chars(n: nat) -> Seq<char> {
    decimal(n).map_values(|b: u8| b as char)
}

/// `n` in at least two digits, as `{:02}` writes it.
pub open spec fn two_digits(n: nat) -> Seq<char> {
    if n < 10 {
        seq!['0'] + decimal_chars(n)
    } else {
        decimal_chars(n)
    }
}

/// Calls `String::push`: `c` is appended.
#[verifier::external_body]
pub(crate) fn push_char(s: &mut String, c: char)
    ensures
        final(s)@ == old(s)@.push(c),
{
    s.push(c);
}

/// The lowercase form of `s`, as `str::to_lowercase` gives it.
pub uninterp spec fn lowercase_of(s: Seq<char>) -> Seq<char>;

/// Calls `str::to_lowercase`.
#[verifier::external_body]
fn lowercase(s: &str) -> (r: String)
    ensures
        r@ == lowercase_of(s@),
{
    s.to_lowercase()
}

fn push_decimal(s: &mut String, n: u64)
    ensures
        final(s)@ == old(s)@ + decimal_chars(n as nat),
    decreases n,
{
    if n >= 10 {
        push_decimal(s, n / 10);
    }
    let d = (48 + n % 10) as u8;
    push_char(s, d as char);
    proof {
        let m = n as nat;
        if m >= 10 {
            assert(decimal(m) == decimal(m / 10).push(d));
            assert(decimal_chars(m) =~= decimal_chars(m / 10).push(d as char));
        } else {
            assert(decimal_chars(m) =~= seq![d as char]);
        }
        assert(final(s)@ =~= old(s)@ + decimal_chars(m));
    }
}

fn push_two_digits(s: &mut String, n: u64)
    ensures
        final(s)@ == old(s)@ + two_digits(n as nat),
{
    if n < 10 {
        push_char(s, '0');
    }
    push_decimal(s, n);
    assert(final(s)@ =~= old(s)@ + two_digits(n as nat));
}

/// `seconds` as hours and minutes, or minutes alone below an hour.
pub open spec fn spec_humanise(seconds: u64) -> Seq<char> {
    let minutes = seconds / 60;
    if minutes >= 60 {
        decimal_chars((minutes / 60) as nat) + "h "@ + two_digits((minutes % 60) as nat) + "m"@
    } else {
        decimal_chars(minutes as nat) + "m"@
    }
}

/// Writes `seconds` as hours and minutes (`1h 05m`), or as minutes alone
/// below an hour (`25m`).
pub fn humanise(seconds: u64) -> (r: String)
    ensures
        r@ == spec_humanise(seconds),
{
    let minutes = seconds / 60;
    let mut s = String::new();
    if minutes >= 60 {
        push_decimal(&mut s, minutes / 60);
        s.append("h ");
        push_two_digits(&mut s, minutes % 60);
        s.append("m");
    } else {
        push_decimal(&mut s, minutes);
        s.append("m");
    }
    assert(s@ =~= spec_humanise(seconds));
    s
}

pub open spec fn spec_clock_text(minutes: u64, seconds: u64) -> Seq<char> {
    two_digits(minutes as nat) + ":"@ + two_digits(seconds as nat)
}

/// The clock face: minutes and seconds, each in at least two digits.
pub fn clock_text(minutes: u64, seconds: u64) -> (r: String)
    ensures
        r@ == spec_clock_text(minutes, seconds),
{
    let mut s = String::new();
    push_two_digits(&mut s, minutes);
    s.append(":");
    push_two_digits(&mut s, seconds);
    assert(s@ =~= spec_clock_text(minutes, seconds));
    s
}

/// The window title: the clock, then the session.
pub fn title(minutes: u64, seconds: u64, session: Session) -> (r: String)
    ensures
        r@ == spec_clock_text(minutes, seconds) + " · "@ + session.label_view() + " — Pomodoro"@,
{
    let mut s = clock_text(minutes, seconds);
    s.append(" · ");
    s.append(session.label());
    s.append(" — Pomodoro");
    s
}

/// `c` with a space between each two characters.
pub open spec fn spread(c: Seq<char>) -> Seq<char>
    decreases c.len(),
{
    if c.len() <= 1 {
        c
    } else {
        spread(c.drop_last()) + seq![' ', c.last()]
    }
}

/// `value` in lowercase, letter-spaced: each two characters apart by a space.
pub fn spaced(value: &str) -> (r: String)
    ensures
        r@ == spread(lowercase_of(value@)),
{
    let lower = lowercase(value);
    let chars = lower.as_str();
    let n = chars.unicode_len();
    let ghost c = lower@;
    let mut s = String::new();
    let mut i: usize = 0;
    while i < n
        invariant
            i <= n,
            n == c.len(),
            c == chars@,
            s@ == spread(c.subrange(0, i as int)),
        decreases n - i,
    {
        let ch = chars.get_char(i);
        let ghost before = c.subrange(0, i as int);
        let ghost after = c.subrange(0, i + 1);
        assert(after.drop_last() =~= before);
        assert(after.last() == ch);
        if i > 0 {
            push_char(&mut s, ' ');
        } else {
            assert(before.len() == 0);
            assert(spread(before) =~= Seq::<char>::empty());
        }
        push_char(&mut s, ch);
        assert(s@ =~= spread(after));
        i = i + 1;
    }
    assert(c.subrange(0, n as int) =~= c);
    s
}

/// The line under the clock: what follows a break, or which focus round of
/// the cycle this is.
pub open spec fn spec_caption(t: Timer) -> Seq<char> {
    if t.session.spec_is_break() {
        "up next · focus"@
    } else {
        let rounds = t.settings.long_interval;
        "round "@ + decimal_chars((t.cycle % (if rounds < 1 {
            1
        } else {
            rounds
        }) + 1) as nat) + " of "@ + decimal_chars(rounds as nat)
    }
}

pub fn caption(t: &Timer) -> (r: String)
    ensures
        r@ == spec_caption(*t),
{
    if t.session.is_break() {
        String::from_str("up next · focus")
    } else {
        let mut s = String::from_str("round ");
        push_decimal(&mut s, t.round() as u64);
        s.append(" of ");
        push_decimal(&mut s, t.settings.long_interval as u64);
        assert(s@ =~= spec_caption(*t));
        s
    }
}

pub open spec fn spec_today_summary(x: Stats) -> Seq<char> {
    if x.today_sessions == 0 {
        "no sessions yet today"@
    } else {
        decimal_chars(x.today_sessions as nat) + " today · "@ + spec_humanise(x.today_focus_secs)
            + " focused"@
    }
}

/// What today brought: the focus sessions and the time they took.
pub fn today_summary(x: &Stats) -> (r: String)
    ensures
        r@ == spec_today_summary(*x),
{
    if x.today_sessions == 0 {
        String::from_str("no sessions yet today")
    } else {
        let mut s = String::new();
        push_decimal(&mut s, x.today_sessions as u64);
        s.append(" today · ");
        let h = humanise(x.today_focus_secs);
        s.append(h.as_str());
        s.append(" focused");
        assert(s@ =~= spec_today_summary(*x));
        s
    }
}

pub open spec fn spec_all_time_summary(x: Stats) -> Seq<char> {
    decimal_chars(x.total_sessions as nat) + " sessions · "@ + spec_humanise(x.total_focus_secs)
        + " focused all time"@
}

/// Every focus session there has been, and the time they took.
pub fn all_time_summary(x: &Stats) -> (r: String)
    ensures
        r@ == spec_all_time_summary(*x),
{
    let mut s = String::new();
    push_decimal(&mut s, x.total_sessions as u64);
    s.append(" sessions · ");
    let h = humanise(x.total_focus_secs);
    s.append(h.as_str());
    s.append(" focused all time");
    assert(s@ =~= spec_all_time_summary(*x));
    s
}


/// Durations of an hour or more show their whole hours, however many, and
/// the minutes past them in two digits; shorter ones show their whole
/// minutes. Read back, hours and minutes give the whole minutes of `seconds`.
pub proof fn lemma_humanise_hours(seconds: u64)
    ensures
        seconds >= 3600 ==> spec_humanise(seconds) == decimal_chars((seconds / 3600) as nat)
            + "h "@ + two_digits(((seconds / 60) % 60) as nat) + "m"@,
        seconds >= 3600 ==> (seconds / 3600) * 60 + (seconds / 60) % 60 == seconds / 60,
        seconds < 3600 ==> spec_humanise(seconds) == decimal_chars((seconds / 60) as nat) + "m"@,
{
    let m = seconds / 60;
    assert(m / 60 == seconds / 3600) by (nonlinear_arith)
        requires
            m == seconds / 60,
    ;
    assert((seconds / 3600) * 60 + m % 60 == m) by (nonlinear_arith)
        requires
            m / 60 == seconds / 3600,
    ;
    assert(seconds >= 3600 <==> m >= 60) by (nonlinear_arith)
        requires
            m == seconds / 60,
    ;
}

} // verus!
