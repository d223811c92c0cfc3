# pomo

A pomodoro timer whose logic is verified with Verus.

- `src/` is the verified library:
  - `session.rs`: the three kinds of session and their labels;
  - `config.rs`: settings (lengths, rounds, switches) and the daily and
    all-time focus statistics;
  - `state_file.rs`: reading and writing the `key=value` state file, with a
    proof that a written file reads back to the state it was written from
    whenever its lengths lie within their bounds (reading brings them into
    bounds), and that each length is the last value of its key that reads;
  - `timer.rs`: the session cycle as a state machine driven by elapsed time,
    with its laws (pausing, ticking, completing, skipping, new settings);
  - `text.rs`: the clock, durations, captions and summaries the window shows;
  - `notify.rs`: which program to start for a notification or the chime on
    each platform.
- `app/` is the desktop program around it: the `gpui_kit` window, springs
  and drawing in floating point, file access and starting processes.
- `tests/` exercises the library on concrete values.
