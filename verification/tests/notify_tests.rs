use pomo::notify::{applescript_string, banner, chime, powershell_quoted, ChimeStep, Platform};

#[test]
fn applescript_strings_are_escaped() {
    assert_eq!(applescript_string("Pomodoro"), "\"Pomodoro\"");
    assert_eq!(applescript_string("say \"hi\" \\ bye"), "\"say \\\"hi\\\" \\\\ bye\"");
    assert_eq!(applescript_string(""), "\"\"");
}

#[test]
fn powershell_quotes_are_doubled() {
    assert_eq!(powershell_quoted("it's"), "it''s");
    assert_eq!(powershell_quoted("none"), "none");
}

#[test]
fn banner_on_linux() {
    let l = banner(Platform::Linux, "Break is over. Ready to focus?").unwrap();
    assert_eq!(l.program, "notify-send");
    assert_eq!(
        l.args,
        vec!["--app-name=Pomodoro", "--icon=alarm-symbolic", "Pomodoro", "Break is over. Ready to focus?"]
    );
}

#[test]
fn banner_on_macos() {
    let l = banner(Platform::MacOs, "a \"b\"").unwrap();
    assert_eq!(l.program, "osascript");
    assert_eq!(
        l.args,
        vec!["-e", "display notification \"a \\\"b\\\"\" with title \"Pomodoro\""]
    );
}

#[test]
fn banner_on_windows() {
    let l = banner(Platform::Windows, "it's done").unwrap();
    assert_eq!(l.program, "powershell");
    let script = format!(
        "[reflection.assembly]::loadwithpartialname('System.Windows.Forms') | Out-Null; \
         $n = New-Object System.Windows.Forms.NotifyIcon; \
         $n.Icon = [System.Drawing.SystemIcons]::Information; \
         $n.BalloonTipTitle = '{}'; $n.BalloonTipText = '{}'; \
         $n.Visible = $true; $n.ShowBalloonTip(5000); Start-Sleep -Seconds 6",
        "Pomodoro",
        "it''s done",
    );
    assert_eq!(l.args, vec!["-NoProfile".to_string(), "-WindowStyle".into(), "Hidden".into(), "-Command".into(), script]);
}

#[test]
fn no_banner_elsewhere() {
    assert!(banner(Platform::Other, "x").is_none());
}

#[test]
fn chime_plans() {
    let plan = chime(Platform::Linux);
    assert_eq!(plan.len(), 5);
    match &plan[0] {
        ChimeStep::Run(l) => {
            assert_eq!(l.program, "canberra-gtk-play");
            assert_eq!(l.args, vec!["-i", "complete"]);
        }
        _ => panic!("expected a program"),
    }
    match &plan[2] {
        ChimeStep::RunIfExists(path, l) => {
            assert_eq!(path, "/usr/share/sounds/freedesktop/stereo/bell.oga");
            assert_eq!(l.program, "paplay");
            assert_eq!(l.args, vec!["/usr/share/sounds/freedesktop/stereo/bell.oga"]);
        }
        _ => panic!("expected a sound file"),
    }
    assert!(matches!(plan[4], ChimeStep::Bell));
    let mac = chime(Platform::MacOs);
    assert_eq!(mac.len(), 1);
    match &mac[0] {
        ChimeStep::Run(l) => {
            assert_eq!(l.program, "afplay");
            assert_eq!(l.args, vec!["/System/Library/Sounds/Glass.aiff"]);
        }
        _ => panic!("expected a program"),
    }
    let win = chime(Platform::Windows);
    match &win[0] {
        ChimeStep::Run(l) => {
            assert_eq!(l.program, "powershell");
            assert_eq!(l.args[2], "[console]::beep(880,220); [console]::beep(1320,260)");
        }
        _ => panic!("expected a program"),
    }
    assert!(chime(Platform::Other).is_empty());
}
