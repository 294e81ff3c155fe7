use qualify_path::log_line::{format_log_line, log_action, LogAction};

#[test]
fn log_line_shows_level_module_and_message() {
    assert_eq!(
        format_log_line("INFO", Some("rust_analyzer::main_loop"), "started"),
        "[INFO rust_analyzer::main_loop] started"
    );
}

#[test]
fn log_line_without_module_leaves_it_empty() {
    assert_eq!(format_log_line("WARN", None, "x = 1"), "[WARN ] x = 1");
}

#[test]
fn filtered_out_record_is_skipped() {
    assert_eq!(log_action(false, true, true), LogAction::Skip);
    assert_eq!(log_action(false, false, false), LogAction::Skip);
}

#[test]
fn record_goes_to_the_file_and_is_flushed_only_when_unbuffered() {
    assert_eq!(log_action(true, true, false), LogAction::WriteFile { flush: false });
    assert_eq!(log_action(true, true, true), LogAction::WriteFile { flush: true });
}

#[test]
fn record_goes_to_stderr_without_a_file() {
    assert_eq!(log_action(true, false, true), LogAction::WriteStderr);
}
