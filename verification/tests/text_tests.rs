use watchhound::fetch::{
    diff_display_text, diff_error_message, file_list_error_message, loading_message,
    parse_changed_files, status_display_text, status_error_message,
};
use watchhound::numfmt::{decimal_string, format_hms};
use watchhound::text::{file_name_of, is_blank, split_lines, trim_whitespace};

#[test]
fn split_lines_handles_terminators() {
    assert_eq!(split_lines("a\nb\n"), vec!["a", "b"]);
    assert_eq!(split_lines("a\nb"), vec!["a", "b"]);
    assert_eq!(split_lines("a\r\nb\n"), vec!["a", "b"]);
    assert_eq!(split_lines("\n"), vec![""]);
    assert_eq!(split_lines("a\n\nb\n"), vec!["a", "", "b"]);
    assert!(split_lines("").is_empty());
    // a bare final carriage return is part of the line, as str::lines has it
    assert_eq!(split_lines("a\nb\r"), vec!["a", "b\r"]);
    assert_eq!(split_lines("b\r"), vec!["b\r"]);
}

#[test]
fn trim_whitespace_strips_both_ends() {
    assert_eq!(trim_whitespace("  a b \n"), "a b");
    assert_eq!(trim_whitespace("\t\r\n "), "");
    assert_eq!(trim_whitespace("x"), "x");
}

#[test]
fn is_blank_sees_only_whitespace() {
    assert!(is_blank(""));
    assert!(is_blank(" \t\r\n"));
    assert!(!is_blank(" x "));
}

#[test]
fn file_name_takes_the_last_path_component() {
    assert_eq!(file_name_of("src/dir/x.rs"), "x.rs");
    assert_eq!(file_name_of("x.rs"), "x.rs");
    assert_eq!(file_name_of("src/"), "");
    assert_eq!(file_name_of("/abs/path/b.txt"), "b.txt");
}

#[test]
fn parse_changed_files_splits_and_trims() {
    assert_eq!(parse_changed_files("a.txt\nsrc/b.rs\n"), vec!["a.txt", "src/b.rs"]);
    assert_eq!(parse_changed_files("a.txt\nsrc/b.rs\n\n"), vec!["a.txt", "src/b.rs"]);
    assert!(parse_changed_files("").is_empty());
    assert!(parse_changed_files("  \n \n").is_empty());
}

#[test]
fn decimal_string_renders_exactly() {
    assert_eq!(decimal_string(0), "0");
    assert_eq!(decimal_string(7), "7");
    assert_eq!(decimal_string(42), "42");
    assert_eq!(decimal_string(100), "100");
    assert_eq!(decimal_string(50), "50");
}

#[test]
fn format_hms_renders_the_time_of_day() {
    assert_eq!(format_hms(0), "00:00:00");
    assert_eq!(format_hms(3661), "01:01:01");
    assert_eq!(format_hms(86399), "23:59:59");
    assert_eq!(format_hms(86400), "00:00:00");
    assert_eq!(format_hms(86400 + 3600 * 13 + 60 * 5 + 9), "13:05:09");
}

#[test]
fn status_display_cans_blank_output() {
    assert_eq!(
        status_display_text(String::from(" \n")),
        "No changes detected in the repository.\n\nEdit a tracked file and its diff will appear here."
    );
    assert_eq!(status_display_text(String::from("a.txt | 1 +\n")), "a.txt | 1 +\n");
}

#[test]
fn diff_display_cans_blank_diffs_only() {
    assert_eq!(diff_display_text("a.txt", String::from("+x\n")), "+x\n");
    assert_eq!(
        diff_display_text("a.txt", String::from("  \n")),
        "No changes in a.txt\n\nThe file may have been staged, or its changes may be minimal."
    );
}

#[test]
fn failed_diff_queries_render_for_the_overlay() {
    assert_eq!(
        diff_error_message("a.txt", "boom"),
        "Error getting diff for a.txt: boom\n\nTry refreshing, or check whether the file still exists."
    );
}

#[test]
fn canned_messages_name_their_subject() {
    assert_eq!(loading_message("a.txt"), "Loading diff for a.txt...");
    assert_eq!(status_error_message("exit 128"), "Status query failed: exit 128");
    assert_eq!(
        file_list_error_message("exit 128"),
        "Could not list changed files: exit 128"
    );
}
