use file_watcher::report::{
    clear_screen_sequence, error_handler, notice_line, strip_error_prefix, RunReport,
};
use file_watcher::watch::Notice;

#[test]
fn the_error_prefix_is_taken_off() {
    assert_eq!(strip_error_prefix("error: boom"), "boom");
    assert_eq!(strip_error_prefix("boom"), "boom");
    assert_eq!(strip_error_prefix(""), "");
    assert_eq!(strip_error_prefix("error: "), "");
}

#[test]
fn a_repeated_error_prefix_is_taken_off_whole() {
    assert_eq!(strip_error_prefix("error: error: error: Uncaught"), "Uncaught");
    assert_eq!(strip_error_prefix("error: error:x"), "error:x");
}

#[test]
fn only_a_leading_prefix_is_taken_off() {
    assert_eq!(strip_error_prefix("an error: here"), "an error: here");
    assert_eq!(strip_error_prefix("Error: upper"), "Error: upper");
    assert_eq!(strip_error_prefix("error:no space"), "error:no space");
    assert_eq!(strip_error_prefix("error"), "error");
    assert_eq!(strip_error_prefix("error: tail error: "), "tail error: ");
}

#[test]
fn text_beyond_ascii_is_kept() {
    assert_eq!(strip_error_prefix("error: d\u{e9}j\u{e0} vu \u{2603}"), "d\u{e9}j\u{e0} vu \u{2603}");
    assert_eq!(strip_error_prefix("\u{2603}error: x"), "\u{2603}error: x");
}

#[test]
fn a_successful_run_reports_nothing() {
    assert_eq!(error_handler(Ok(())), RunReport { success: true, error: None });
}

#[test]
fn a_failed_run_is_reported_and_not_passed_on() {
    assert_eq!(
        error_handler(Err("error: Module not found".to_string())),
        RunReport { success: false, error: Some("Module not found".to_string()) }
    );
    assert_eq!(
        error_handler(Err("boom".to_string())),
        RunReport { success: false, error: Some("boom".to_string()) }
    );
}

#[test]
fn status_lines_name_the_job() {
    assert_eq!(notice_line(Notice::Started, "Test"), "Test started.");
    assert_eq!(notice_line(Notice::ChangeDetected, "Test"), "File change detected! Restarting!");
    assert_eq!(
        notice_line(Notice::Finished, "Process"),
        "Process finished. Restarting on file change..."
    );
    assert_eq!(
        notice_line(Notice::Failed, "Process"),
        "Process failed. Restarting on file change..."
    );
    assert_eq!(notice_line(Notice::Started, ""), " started.");
}

#[test]
fn the_clear_screen_sequence_clears_and_homes() {
    assert_eq!(clear_screen_sequence(), "\u{1b}[2J\u{1b}[1;1H");
}
