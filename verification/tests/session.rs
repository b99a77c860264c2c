use hwc_core::session::clamp_terminal_cols;
use hwc_core::session::clamp_terminal_rows;
use hwc_core::session::default_pty_request;
use hwc_core::session::exec_command_payload;
use hwc_core::session::interactive_inactivity_timeout_secs;
use hwc_core::session::one_shot_inactivity_timeout_secs;
use hwc_core::session::one_shot_teardown_plan;
use hwc_core::session::reader_should_stop;
use hwc_core::session::rfc3339_timestamp_now;
use hwc_core::session::stream_event_for;
use hwc_core::session::ChannelEvent;
use hwc_core::session::ChannelPurpose;
use hwc_core::session::interactive_exec_result;
use hwc_core::session::OneShotOutcome;
use hwc_core::session::TeardownStep;

#[test]
fn resize_clamps_to_the_documented_ranges() {
    assert_eq!(clamp_terminal_cols(10), 40);
    assert_eq!(clamp_terminal_cols(120), 120);
    assert_eq!(clamp_terminal_cols(1000), 400);
    assert_eq!(clamp_terminal_rows(1), 10);
    assert_eq!(clamp_terminal_rows(50), 50);
    assert_eq!(clamp_terminal_rows(999), 180);
}

#[test]
fn exec_writes_the_command_and_a_newline() {
    assert_eq!(exec_command_payload("ls -la"), b"ls -la\n");
    assert_eq!(exec_command_payload(""), b"\n");
}

#[test]
fn data_chunks_become_stdout_events() {
    let event = ChannelEvent::Data(b"hello".to_vec());
    let out = stream_event_for("s1", "t0", &ChannelPurpose::InteractiveShell, &event).unwrap();
    assert_eq!(out.session_id, "s1");
    assert_eq!(out.kind, "stdout");
    assert_eq!(out.text, "hello");
    assert_eq!(out.at, "t0");
}

#[test]
fn extended_data_chunks_become_stderr_events() {
    let event = ChannelEvent::ExtendedData(b"oops".to_vec());
    let out = stream_event_for("s1", "t0", &ChannelPurpose::OneShotCommand, &event).unwrap();
    assert_eq!(out.kind, "stderr");
    assert_eq!(out.text, "oops");
}

#[test]
fn empty_chunks_publish_nothing() {
    let event = ChannelEvent::Data(Vec::new());
    assert!(stream_event_for("s1", "t0", &ChannelPurpose::InteractiveShell, &event).is_none());
    let event = ChannelEvent::Other;
    assert!(stream_event_for("s1", "t0", &ChannelPurpose::InteractiveShell, &event).is_none());
}

#[test]
fn invalid_utf8_is_decoded_lossily_not_dropped() {
    let event = ChannelEvent::Data(vec![0xff, b'o', b'k']);
    let out = stream_event_for("s1", "t0", &ChannelPurpose::InteractiveShell, &event).unwrap();
    assert_eq!(out.text, "\u{FFFD}ok");
}

#[test]
fn lifecycle_notifications_become_meta_events() {
    let shell = ChannelPurpose::InteractiveShell;
    let command = ChannelPurpose::OneShotCommand;

    let exit = ChannelEvent::ExitStatus(127);
    let out = stream_event_for("s1", "t0", &shell, &exit).unwrap();
    assert_eq!(out.kind, "meta");
    assert_eq!(out.text, "Exit status: 127");

    let eof = ChannelEvent::Eof;
    assert_eq!(
        stream_event_for("s1", "t0", &shell, &eof).unwrap().text,
        "Remote shell sent EOF."
    );
    assert_eq!(
        stream_event_for("s1", "t0", &command, &eof).unwrap().text,
        "Remote command sent EOF."
    );

    let close = ChannelEvent::Close;
    assert_eq!(
        stream_event_for("s1", "t0", &shell, &close).unwrap().text,
        "Remote shell closed."
    );
    assert_eq!(
        stream_event_for("s1", "t0", &command, &close).unwrap().text,
        "Remote command channel closed."
    );
}

#[test]
fn the_reader_stops_only_at_close() {
    assert!(reader_should_stop(&ChannelEvent::Close));
    assert!(!reader_should_stop(&ChannelEvent::Eof));
    assert!(!reader_should_stop(&ChannelEvent::Data(b"x".to_vec())));
    assert!(!reader_should_stop(&ChannelEvent::ExitStatus(0)));
    assert!(!reader_should_stop(&ChannelEvent::Other));
}

#[test]
fn interactive_exec_reports_no_synchronous_output() {
    let result = interactive_exec_result("s1".to_string(), "ls".to_string());
    assert_eq!(result.session_id, "s1");
    assert_eq!(result.command, "ls");
    assert_eq!(result.stdout, "");
    assert_eq!(result.stderr, "");
    assert_eq!(result.exit_status, None);
}

#[test]
fn one_shot_outcome_accumulates_output_in_order() {
    let mut outcome = OneShotOutcome::new();
    outcome.absorb(&ChannelEvent::Data(b"a".to_vec()));
    outcome.absorb(&ChannelEvent::ExtendedData(b"warn".to_vec()));
    outcome.absorb(&ChannelEvent::Data(b"b".to_vec()));
    outcome.absorb(&ChannelEvent::ExitStatus(2));
    outcome.absorb(&ChannelEvent::Eof);
    outcome.absorb(&ChannelEvent::Close);
    assert_eq!(outcome.stdout, "ab");
    assert_eq!(outcome.stderr, "warn");
    assert_eq!(outcome.exit_status, Some(2));
}

#[test]
fn one_shot_teardown_runs_whatever_happened() {
    // The same three steps in the same order whether the command loop ended
    // cleanly or failed mid-stream.
    let after_success = one_shot_teardown_plan(false);
    let after_failure = one_shot_teardown_plan(true);
    assert_eq!(after_success, after_failure);
    assert_eq!(
        after_failure,
        vec![
            TeardownStep::SendEof,
            TeardownStep::CloseChannel,
            TeardownStep::Disconnect,
        ]
    );
}

#[test]
fn one_shot_timeout_exceeds_the_interactive_default() {
    assert_eq!(interactive_inactivity_timeout_secs(), 30);
    assert_eq!(one_shot_inactivity_timeout_secs(), 60);
    assert!(one_shot_inactivity_timeout_secs() > interactive_inactivity_timeout_secs());
}

#[test]
fn the_default_pty_is_xterm_220_by_64() {
    let pty = default_pty_request();
    assert_eq!(pty.term, "xterm-256color");
    assert_eq!(pty.cols, 220);
    assert_eq!(pty.rows, 64);
    assert_eq!(pty.pixel_width, 0);
    assert_eq!(pty.pixel_height, 0);
}

#[test]
fn stream_timestamps_are_rfc3339() {
    let at = rfc3339_timestamp_now();
    assert!(at.contains('T'));
    assert!(at.len() >= 20);
}
