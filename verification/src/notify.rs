//! Desktop notifications and the completion chime: which program to start
//! with which arguments on each platform. Starting them is left to the
//! caller.

use crate::text::push_char;
use vstd::prelude::*;
use vstd::string::StrSliceExecFns;

verus! {

/// The platforms that notifications are written for.
#[derive(Clone, Copy, PartialEq, Eq, Debug, Structural)]
pub enum Platform {
    MacOs,
    Linux,
    Windows,
    Other,
}

/// A program to start, with its arguments.
pub struct Launch {
    pub program: String,
    pub args: Vec<String>,
}

pub struct LaunchView {
    pub program: Seq<char>,
    pub args: Seq<Seq<char>>,
}

impl View for Launch {
    type V = LaunchView;

    open spec fn view(&self) -> LaunchView {
        LaunchView { program: self.program@, args: self.args@.map_values(|a: String| a@) }
    }
}

pub open spec fn launch_view(program: Seq<char>, args: Seq<Seq<char>>) -> LaunchView {
    LaunchView { program, args }
}

/// One way of sounding the chime. The caller tries them in order and stops at
/// the first that starts.
pub enum ChimeStep {
    /// Start this program.
    Run(Launch),
    /// Start this program if the file at this path exists.
    RunIfExists(String, Launch),
    /// Ring the terminal bell.
    Bell,
}

pub enum ChimeStepView {
    Run(LaunchView),
    RunIfExists(Seq<char>, LaunchView),
    Bell,
}

impl View for ChimeStep {
    type V = ChimeStepView;

    open spec fn view(&self) -> ChimeStepView {
        match self {
            ChimeStep::Run(l) => ChimeStepView::Run(l@),
            ChimeStep::RunIfExists(p, l) => ChimeStepView::RunIfExists(p@, l@),
            ChimeStep::Bell => ChimeStepView::Bell,
        }
    }
}

/// The application name that notifications carry.
pub open spec fn app_title() -> Seq<char> {
    "Pomodoro"@
}

/// `s` with each `from` replaced by `to`.
pub open spec fn replace_char(s: Seq<char>, from: char, to: Seq<char>) -> Seq<char>
    decreases s.len(),
{
    if s.len() == 0 {
        s
    } else {
        replace_char(s.drop_last(), from, to) + (if s.last() == from {
            to
        } else {
            seq![s.last()]
        })
    }
}

/// The AppleScript escapes: a backslash doubled, a double quote after a backslash.
pub open spec fn applescript_escaped(s: Seq<char>) -> Seq<char>
    decreases s.len(),
{
    if s.len() == 0 {
        s
    } else {
        applescript_escaped(s.drop_last()) + (if s.last() == '\\' {
            seq!['\\', '\\']
        } else if s.last() == '"' {
            seq!['\\', '"']
        } else {
            seq![s.last()]
        })
    }
}

/// `value` as an AppleScript string literal: in double quotes, with
/// backslashes and double quotes escaped.
pub fn applescript_string(value: &str) -> (r: String)
    ensures
        r@ == seq!['"'] + applescript_escaped(value@) + seq!['"'],
{
    let n = value.unicode_len();
    let mut s = String::new();
    push_char(&mut s, '"');
    let mut i: usize = 0;
    while i < n
        invariant
            i <= n,
            n == value@.len(),
            s@ == seq!['"'] + applescript_escaped(value@.subrange(0, i as int)),
        decreases n - i,
    {
        let c = value.get_char(i);
        let ghost before = value@.subrange(0, i as int);
        let ghost after = value@.subrange(0, i + 1);
        assert(after.drop_last() =~= before);
        assert(after.last() == c);
        if c == '\\' {
            push_char(&mut s, '\\');
            push_char(&mut s, '\\');
        } else if c == '"' {
            push_char(&mut s, '\\');
            push_char(&mut s, '"');
        } else {
            push_char(&mut s, c);
        }
        assert(s@ =~= seq!['"'] + applescript_escaped(after));
        i = i + 1;
    }
    assert(value@.subrange(0, n as int) =~= value@);
    push_char(&mut s, '"');
    assert(s@ =~= seq!['"'] + applescript_escaped(value@) + seq!['"']);
    s
}

/// `value` with each single quote doubled, as a PowerShell single-quoted
/// string has it.
pub fn powershell_quoted(value: &str) -> (r: String)
    ensures
        r@ == replace_char(value@, '\'', seq!['\'', '\'']),
{
    let n = value.unicode_len();
    let mut s = String::new();
    let mut i: usize = 0;
    while i < n
        invariant
            i <= n,
            n == value@.len(),
            s@ == replace_char(value@.subrange(0, i as int), '\'', seq!['\'', '\'']),
        decreases n - i,
    {
        let c = value.get_char(i);
        let ghost before = value@.subrange(0, i as int);
        let ghost after = value@.subrange(0, i + 1);
        assert(after.drop_last() =~= before);
        assert(after.last() == c);
        if c == '\'' {
            push_char(&mut s, '\'');
            push_char(&mut s, '\'');
        } else {
            push_char(&mut s, c);
        }
        assert(s@ =~= replace_char(after, '\'', seq!['\'', '\'']));
        i = i + 1;
    }
    assert(value@.subrange(0, n as int) =~= value@);
    s
}

pub open spec fn windows_banner_script(message: Seq<char>) -> Seq<char> {
    "[reflection.assembly]::loadwithpartialname('System.Windows.Forms') | Out-Null; $n = New-Object System.Windows.Forms.NotifyIcon; $n.Icon = [System.Drawing.SystemIcons]::Information; $n.BalloonTipTitle = '"@
        + app_title() + "'; $n.BalloonTipText = '"@ + replace_char(message, '\'', seq!['\'', '\''])
        + "'; $n.Visible = $true; $n.ShowBalloonTip(5000); Start-Sleep -Seconds 6"@
}

pub open spec fn macos_banner_script(message: Seq<char>) -> Seq<char> {
    "display notification "@ + (seq!['"'] + applescript_escaped(message) + seq!['"'])
        + " with title "@ + (seq!['"'] + applescript_escaped(app_title()) + seq!['"'])
}

/// The program that shows `message` as a desktop notification on `platform`.
pub open spec fn spec_banner(platform: Platform, message: Seq<char>) -> Option<LaunchView> {
    match platform {
        Platform::MacOs => Some(
            launch_view("osascript"@, seq!["-e"@, macos_banner_script(message)]),
        ),
        Platform::Linux => Some(
            launch_view(
                "notify-send"@,
                seq!["--app-name=Pomodoro"@, "--icon=alarm-symbolic"@, app_title(), message],
            ),
        ),
        Platform::Windows => Some(
            launch_view(
                "powershell"@,
                seq![
                    "-NoProfile"@,
                    "-WindowStyle"@,
                    "Hidden"@,
                    "-Command"@,
                    windows_banner_script(message),
                ],
            ),
        ),
        Platform::Other => None,
    }
}

pub open spec fn opt_launch_view(l: Option<Launch>) -> Option<LaunchView> {
    match l {
        Some(l) => Some(l@),
        None => None,
    }
}

fn string_of(s: &str) -> (r: String)
    ensures
        r@ == s@,
{
    String::from_str(s)
}

/// What to start to show `message` as a desktop notification on `platform`;
/// `None` where there is none.
pub fn banner(platform: Platform, message: &str) -> (r: Option<Launch>)
    ensures
        opt_launch_view(r) == spec_banner(platform, message@),
{
    match platform {
        Platform::MacOs => {
            let mut script = string_of("display notification ");
            let quoted = applescript_string(message);
            script.append(quoted.as_str());
            script.append(" with title ");
            let title = applescript_string("Pomodoro");
            script.append(title.as_str());
            let mut args: Vec<String> = Vec::new();
            args.push(string_of("-e"));
            args.push(script);
            let l = Launch { program: string_of("osascript"), args };
            assert(l@.args =~= seq!["-e"@, macos_banner_script(message@)]);
            Some(l)
        },
        Platform::Linux => {
            let mut args: Vec<String> = Vec::new();
            args.push(string_of("--app-name=Pomodoro"));
            args.push(string_of("--icon=alarm-symbolic"));
            args.push(string_of("Pomodoro"));
            args.push(string_of(message));
            let l = Launch { program: string_of("notify-send"), args };
            assert(l@.args =~= seq![
                "--app-name=Pomodoro"@,
                "--icon=alarm-symbolic"@,
                app_title(),
                message@,
            ]);
            Some(l)
        },
        Platform::Windows => {
            let mut script = string_of(
                "[reflection.assembly]::loadwithpartialname('System.Windows.Forms') | Out-Null; $n = New-Object System.Windows.Forms.NotifyIcon; $n.Icon = [System.Drawing.SystemIcons]::Information; $n.BalloonTipTitle = '",
            );
            script.append("Pomodoro");
            script.append("'; $n.BalloonTipText = '");
            let quoted = powershell_quoted(message);
            script.append(quoted.as_str());
            script.append("'; $n.Visible = $true; $n.ShowBalloonTip(5000); Start-Sleep -Seconds 6");
            let mut args: Vec<String> = Vec::new();
            args.push(string_of("-NoProfile"));
            args.push(string_of("-WindowStyle"));
            args.push(string_of("Hidden"));
            args.push(string_of("-Command"));
            args.push(script);
            let l = Launch { program: string_of("powershell"), args };
            assert(l@.args =~= seq![
                "-NoProfile"@,
                "-WindowStyle"@,
                "Hidden"@,
                "-Command"@,
                windows_banner_script(message@),
            ]);
            Some(l)
        },
        Platform::Other => None,
    }
}

pub open spec fn sound_file(i: int) -> Seq<char> {
    if i == 0 {
        "/usr/share/sounds/freedesktop/stereo/complete.oga"@
    } else if i == 1 {
        "/usr/share/sounds/freedesktop/stereo/bell.oga"@
    } else {
        "/usr/share/sounds/freedesktop/stereo/message.oga"@
    }
}

/// The ways of sounding the chime on `platform`, in the order to try them.
pub open spec fn spec_chime(platform: Platform) -> Seq<ChimeStepView> {
    match platform {
        Platform::MacOs => seq![
            ChimeStepView::Run(
                launch_view("afplay"@, seq!["/System/Library/Sounds/Glass.aiff"@]),
            ),
        ],
        Platform::Linux => seq![
            ChimeStepView::Run(launch_view("canberra-gtk-play"@, seq!["-i"@, "complete"@])),
            ChimeStepView::RunIfExists(sound_file(0), launch_view("paplay"@, seq![sound_file(0)])),
            ChimeStepView::RunIfExists(sound_file(1), launch_view("paplay"@, seq![sound_file(1)])),
            ChimeStepView::RunIfExists(sound_file(2), launch_view("paplay"@, seq![sound_file(2)])),
            ChimeStepView::Bell,
        ],
        Platform::Windows => seq![
            ChimeStepView::Run(
                launch_view(
                    "powershell"@,
                    seq![
                        "-NoProfile"@,
                        "-Command"@,
                        "[console]::beep(880,220); [console]::beep(1320,260)"@,
                    ],
                ),
            ),
        ],
        Platform::Other => seq![],
    }
}

fn launch1(program: &str, arg: &str) -> (l: Launch)
    ensures
        l@ == launch_view(program@, seq![arg@]),
{
    let mut args: Vec<String> = Vec::new();
    args.push(string_of(arg));
    let l = Launch { program: string_of(program), args };
    assert(l@.args =~= seq![arg@]);
    l
}

fn play_file(path: &str) -> (step: ChimeStep)
    ensures
        step@ == ChimeStepView::RunIfExists(path@, launch_view("paplay"@, seq![path@])),
{
    ChimeStep::RunIfExists(string_of(path), launch1("paplay", path))
}

/// The ways of sounding the chime on `platform`; see `spec_chime`.
pub fn chime(platform: Platform) -> (plan: Vec<ChimeStep>)
    ensures
        plan@.map_values(|s: ChimeStep| s@) == spec_chime(platform),
{
    let mut plan: Vec<ChimeStep> = Vec::new();
    match platform {
        Platform::MacOs => {
            plan.push(ChimeStep::Run(launch1("afplay", "/System/Library/Sounds/Glass.aiff")));
        },
        Platform::Linux => {
            let mut args: Vec<String> = Vec::new();
            args.push(string_of("-i"));
            args.push(string_of("complete"));
            let l = Launch { program: string_of("canberra-gtk-play"), args };
            assert(l@.args =~= seq!["-i"@, "complete"@]);
            plan.push(ChimeStep::Run(l));
            plan.push(play_file("/usr/share/sounds/freedesktop/stereo/complete.oga"));
            plan.push(play_file("/usr/share/sounds/freedesktop/stereo/bell.oga"));
            plan.push(play_file("/usr/share/sounds/freedesktop/stereo/message.oga"));
            plan.push(ChimeStep::Bell);
        },
        Platform::Windows => {
            let mut args: Vec<String> = Vec::new();
            args.push(string_of("-NoProfile"));
            args.push(string_of("-Command"));
            args.push(string_of("[console]::beep(880,220); [console]::beep(1320,260)"));
            let l = Launch { program: string_of("powershell"), args };
            assert(l@.args =~= seq![
                "-NoProfile"@,
                "-Command"@,
                "[console]::beep(880,220); [console]::beep(1320,260)"@,
            ]);
            plan.push(ChimeStep::Run(l));
        },
        Platform::Other => {},
    }
    assert(plan@.map_values(|s: ChimeStep| s@) =~= spec_chime(platform));
    plan
}


/// The terminal bell is the last resort: wherever it is planned it is the
/// final step. On Linux the chime is tried with `canberra-gtk-play` first,
/// then each freedesktop sound with `paplay`, the completion sound before the
/// bell sound before the message sound, and the bell only after all of them.
pub proof fn lemma_chime_order(platform: Platform)
    ensures
        forall|i: int|
            0 <= i < spec_chime(platform).len() && #[trigger] spec_chime(platform)[i]
                is Bell ==> i == spec_chime(platform).len() - 1,
        platform is Linux ==> {
            let plan = spec_chime(platform);
            &&& plan.len() == 5
            &&& plan[0] == ChimeStepView::Run(
                launch_view("canberra-gtk-play"@, seq!["-i"@, "complete"@]),
            )
            &&& plan[1] == ChimeStepView::RunIfExists(
                "/usr/share/sounds/freedesktop/stereo/complete.oga"@,
                launch_view("paplay"@, seq!["/usr/share/sounds/freedesktop/stereo/complete.oga"@]),
            )
            &&& plan[2] == ChimeStepView::RunIfExists(
                "/usr/share/sounds/freedesktop/stereo/bell.oga"@,
                launch_view("paplay"@, seq!["/usr/share/sounds/freedesktop/stereo/bell.oga"@]),
            )
            &&& plan[3] == ChimeStepView::RunIfExists(
                "/usr/share/sounds/freedesktop/stereo/message.oga"@,
                launch_view("paplay"@, seq!["/usr/share/sounds/freedesktop/stereo/message.oga"@]),
            )
            &&& plan[4] is Bell
        },
{
}

} // verus!
