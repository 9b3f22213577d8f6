use ps3dec_gui::relay::apply_message;
use ps3dec_gui::relay::drain_messages;
use ps3dec_gui::relay::exit_status_message;
use ps3dec_gui::relay::sentinel_message;
use ps3dec_gui::relay::spawn_failure_message;
use ps3dec_gui::relay::stderr_error_message;
use ps3dec_gui::relay::stdout_error_message;
use ps3dec_gui::relay::tag_stderr_line;
use ps3dec_gui::relay::RunLog;

#[test]
fn sentinel_messages_are_prefixed_codes() {
    assert_eq!(sentinel_message(0), "__EXIT_CODE__0");
    assert_eq!(sentinel_message(-1), "__EXIT_CODE__-1");
    assert_eq!(sentinel_message(137), "__EXIT_CODE__137");
}

#[test]
fn stderr_lines_are_tagged() {
    assert_eq!(tag_stderr_line("boom"), "ERR: boom");
    assert_eq!(tag_stderr_line(""), "ERR: ");
}

#[test]
fn failure_messages_carry_their_detail() {
    assert_eq!(
        spawn_failure_message("No such file or directory (os error 2)"),
        "Failed to start ps3dec: No such file or directory (os error 2)"
    );
    assert_eq!(stdout_error_message("bad read"), "Error reading stdout: bad read");
    assert_eq!(stderr_error_message("bad read"), "Error reading stderr: bad read");
}

#[test]
fn starting_a_run_seeds_the_log() {
    let log = RunLog::start("Running command: tool --iso a --auto --tc 1 --skip");
    assert_eq!(log.output, "Running command: tool --iso a --auto --tc 1 --skip\n");
    assert_eq!(log.status, "Running ps3dec...");
}

#[test]
fn ordinary_lines_append_with_newline() {
    let mut log = RunLog::new();
    apply_message(&mut log, "hello");
    apply_message(&mut log, "world");
    assert_eq!(log.output, "hello\nworld\n");
    assert_eq!(log.status, "");
}

#[test]
fn sentinel_sets_status_and_keeps_output() {
    let mut log = RunLog::new();
    apply_message(&mut log, "line");
    apply_message(&mut log, "__EXIT_CODE__0");
    assert_eq!(log.output, "line\n");
    assert_eq!(log.status, "ps3dec exited with code 0");
}

#[test]
fn sentinel_with_garbage_reports_unknown_code() {
    let mut log = RunLog::new();
    apply_message(&mut log, "__EXIT_CODE__zz");
    assert_eq!(log.status, "ps3dec exited with unknown code");
    apply_message(&mut log, "__EXIT_CODE__");
    assert_eq!(log.status, "ps3dec exited with unknown code");
}

#[test]
fn both_streams_reach_the_log_either_order() {
    // One line on each stream, then exit code 0: whichever way the two
    // reader threads interleave, both lines stand in the log and the status
    // reports the code.
    let first = vec!["A".to_string(), tag_stderr_line("B"), sentinel_message(0)];
    let second = vec![tag_stderr_line("B"), "A".to_string(), sentinel_message(0)];
    for msgs in [first, second] {
        let mut log = RunLog::new();
        drain_messages(&mut log, &msgs);
        assert!(log.output.contains("A\n"));
        assert!(log.output.contains("ERR: B\n"));
        assert_eq!(log.status, "ps3dec exited with code 0");
    }
}

#[test]
fn negative_and_extreme_exit_codes_round_trip() {
    let mut log = RunLog::new();
    apply_message(&mut log, &sentinel_message(-1));
    assert_eq!(log.status, "ps3dec exited with code -1");
    apply_message(&mut log, &sentinel_message(i32::MIN));
    assert_eq!(log.status, "ps3dec exited with code -2147483648");
    apply_message(&mut log, &sentinel_message(i32::MAX));
    assert_eq!(log.status, "ps3dec exited with code 2147483647");
}

#[test]
fn exit_status_message_formats_code() {
    assert_eq!(exit_status_message(3), "ps3dec exited with code 3");
}

#[test]
fn spawn_failure_then_sentinel_completes_a_session() {
    // A spawn failure is reported through the relay and followed by the
    // synthetic exit code -1.
    let msgs = vec![
        spawn_failure_message("No such file or directory (os error 2)"),
        sentinel_message(-1),
    ];
    let mut log = RunLog::start("Running command: missing --iso a --auto --tc 1 --skip");
    drain_messages(&mut log, &msgs);
    assert!(log
        .output
        .contains("Failed to start ps3dec: No such file or directory (os error 2)\n"));
    assert_eq!(log.status, "ps3dec exited with code -1");
}
