//! The three kinds of session a pomodoro cycle alternates between.

use vstd::prelude::*;

verus! {

#[derive(Clone, Copy, PartialEq, Eq, Debug, Structural)]
pub enum Session {
    Work,
    ShortBreak,
    LongBreak,
}

impl Session {
    pub const ALL: [Session; 3] = [Session::Work, Session::ShortBreak, Session::LongBreak];

    /// Position of the session in the mode switch: work, short break, long break.
    pub open spec fn spec_index(self) -> nat {
        match self {
            Session::Work => 0,
            Session::ShortBreak => 1,
            Session::LongBreak => 2,
        }
    }

    pub open spec fn spec_is_break(self) -> bool {
        !(self is Work)
    }

    pub open spec fn label_view(self) -> Seq<char> {
        match self {
            Session::Work => "Focus"@,
            Session::ShortBreak => "Short Break"@,
            Session::LongBreak => "Long Break"@,
        }
    }

    pub fn label(self) -> (s: &'static str)
        ensures
            s@ == self.label_view(),
    {
        match self {
            Session::Work => "Focus",
            Session::ShortBreak => "Short Break",
            Session::LongBreak => "Long Break",
        }
    }

    pub fn short_label(self) -> (s: &'static str)
        ensures
            s@ == (match self {
                Session::Work => "Focus"@,
                Session::ShortBreak => "Short"@,
                Session::LongBreak => "Long"@,
            }),
    {
        match self {
            Session::Work => "Focus",
            Session::ShortBreak => "Short",
            Session::LongBreak => "Long",
        }
    }

    pub fn index(self) -> (i: usize)
        ensures
            i == self.spec_index(),
    {
        match self {
            Session::Work => 0,
            Session::ShortBreak => 1,
            Session::LongBreak => 2,
        }
    }

    pub fn is_break(self) -> (b: bool)
        ensures
            b == self.spec_is_break(),
    {
        !matches!(self, Session::Work)
    }

    pub fn completion_message(self) -> (s: &'static str)
        ensures
            s@ == (if self is Work {
                "Focus session complete. Time for a break."@
            } else {
                "Break is over. Ready to focus?"@
            }),
    {
        match self {
            Session::Work => "Focus session complete. Time for a break.",
            Session::ShortBreak | Session::LongBreak => "Break is over. Ready to focus?",
        }
    }
}

} // verus!
