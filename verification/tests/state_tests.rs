use watchhound::fetch::diff_error_message;
use watchhound::state::{is_recently_modified, SessionState, ViewMode};

fn ready_state() -> SessionState {
    let mut s = SessionState::new();
    s.begin_refresh();
    s.apply_refresh(
        String::from("a.txt | 2 +-\n"),
        vec![String::from("a.txt"), String::from("b.txt")],
        100,
    );
    s
}

#[test]
fn end_to_end_first_fetch_lands_at_the_top() {
    let mut s = ready_state();
    assert_eq!(s.changed_files, vec!["a.txt", "b.txt"]);
    assert_eq!(s.current_file_index, 0);
    let file = s.current_file().unwrap();
    assert_eq!(file, "a.txt");
    let diff = "@@ -1,1 +1,2 @@\n-old\n+new\n+line2\n";
    s.record_fetched_diff(file, String::from(diff), 101);
    assert_eq!(s.scroll_offset, 0);
    assert_eq!(s.current_diff, diff);
    assert_eq!(s.history.len(), 1);
    assert_eq!(s.history.entry(0).previous_diff, None);
}

#[test]
fn navigation_clamps_at_bounds_and_resets_scroll() {
    let mut s = ready_state();
    s.navigate_to_previous_file();
    assert_eq!(s.current_file_index, 0);
    s.scroll_down_fast();
    s.navigate_to_next_file();
    assert_eq!(s.current_file_index, 1);
    assert_eq!(s.scroll_offset, 0);
    s.navigate_to_next_file();
    assert_eq!(s.current_file_index, 1);
    s.navigate_to_previous_file();
    assert_eq!(s.current_file_index, 0);
}

#[test]
fn navigation_on_empty_list_stays_at_zero() {
    let mut s = SessionState::new();
    s.navigate_to_next_file();
    assert_eq!(s.current_file_index, 0);
    s.navigate_to_previous_file();
    assert_eq!(s.current_file_index, 0);
    assert_eq!(s.current_file(), None);
}

#[test]
fn scrolling_saturates_at_the_top() {
    let mut s = SessionState::new();
    s.scroll_up();
    assert_eq!(s.scroll_offset, 0);
    s.scroll_down();
    s.scroll_down_fast();
    assert_eq!(s.scroll_offset, 6);
    s.scroll_up();
    assert_eq!(s.scroll_offset, 5);
    s.scroll_up_fast();
    assert_eq!(s.scroll_offset, 0);
    s.scroll_up_fast();
    assert_eq!(s.scroll_offset, 0);
}

#[test]
fn vcs_failure_preserves_everything_but_the_error() {
    let mut s = ready_state();
    s.record_fetched_diff(String::from("a.txt"), String::from("+a\n"), 101);
    let files_before = s.changed_files.clone();
    let index_before = s.current_file_index;
    let diff_before = s.current_diff.clone();
    let update_before = s.last_update;
    s.begin_refresh();
    assert_eq!(s.error_message, None);
    s.record_failure(String::from("Status query failed: boom"));
    assert_eq!(s.changed_files, files_before);
    assert_eq!(s.current_file_index, index_before);
    assert_eq!(s.current_diff, diff_before);
    assert_eq!(s.last_update, update_before);
    assert_eq!(s.error_message, Some(String::from("Status query failed: boom")));
}

#[test]
fn failed_diff_query_sets_only_the_error_overlay() {
    let mut s = ready_state();
    s.record_fetched_diff(String::from("a.txt"), String::from("+a\n"), 101);
    let files_before = s.changed_files.clone();
    let index_before = s.current_file_index;
    let scroll_before = s.scroll_offset;
    let history_before = s.history.len();
    // a refresh begins, the diff query fails: the outcome goes to the
    // overlay and nowhere else — no pane text, no history entry
    s.begin_refresh();
    s.record_failure(diff_error_message("a.txt", "exit 128"));
    assert_eq!(s.changed_files, files_before);
    assert_eq!(s.current_file_index, index_before);
    assert_eq!(s.current_diff, "+a\n");
    assert_eq!(s.scroll_offset, scroll_before);
    assert_eq!(s.history.len(), history_before);
    assert_eq!(
        s.error_message,
        Some(String::from(
            "Error getting diff for a.txt: exit 128\n\nTry refreshing, or check whether the file still exists."
        ))
    );
}

#[test]
fn toggle_clear_toggle_shows_the_fresh_diff() {
    let mut s = ready_state();
    s.record_fetched_diff(String::from("a.txt"), String::from("+one\n"), 101);
    s.toggle_history_view();
    assert_eq!(s.view_mode, ViewMode::AccumulatedHistory);
    s.refresh_history_display();
    assert_eq!(s.current_diff, "+one\n");
    s.clear_diff_history();
    assert_eq!(
        s.current_diff,
        "Diff history cleared.\n\nEdit files to record new diffs here."
    );
    assert_eq!(s.history.len(), 0);
    s.toggle_history_view();
    assert_eq!(s.view_mode, ViewMode::SingleFile);
    s.show_fetched_diff(String::from("+two\n"));
    assert_eq!(s.current_diff, "+two\n");
}

#[test]
fn history_view_rebuild_with_empty_history_shows_canned_note() {
    let mut s = SessionState::new();
    s.toggle_history_view();
    s.refresh_history_display();
    assert_eq!(
        s.current_diff,
        "No diff history available.\n\nEdit files to record diffs here."
    );
}

#[test]
fn accumulated_mode_scrolls_to_the_newest_entry() {
    let mut s = ready_state();
    s.record_fetched_diff(String::from("a.txt"), String::from("+1\n+2\n"), 101);
    s.toggle_history_view();
    s.record_fetched_diff(String::from("b.txt"), String::from("+3\n"), 102);
    // the pane shows the accumulated view, landed past the 2-line first entry
    assert_eq!(s.scroll_offset, 2);
    assert_eq!(
        s.current_diff,
        format!("+1\n+2\n\n\n=== Update 2 at {} (File: b.txt) ===\n+3\n", "00:01:42")
    );
}

#[test]
fn file_change_matches_the_triggering_path_exactly() {
    let mut s = ready_state();
    s.apply_file_change(
        "b.txt",
        String::from("stat"),
        vec![String::from("a.txt"), String::from("b.txt")],
        200,
    );
    assert_eq!(s.current_file_index, 1);
    assert_eq!(s.status_summary, "stat");
    assert_eq!(s.last_update, Some(200));
}

#[test]
fn file_change_falls_back_to_file_name_match() {
    let mut s = ready_state();
    s.apply_file_change(
        "/watched/tree/b.txt",
        String::from("stat"),
        vec![String::from("a.txt"), String::from("dir/b.txt")],
        200,
    );
    assert_eq!(s.current_file_index, 1);
}

#[test]
fn file_change_with_no_match_selects_the_first_file() {
    let mut s = ready_state();
    s.apply_file_change(
        "zzz.rs",
        String::from("stat"),
        vec![String::from("a.txt"), String::from("b.txt")],
        200,
    );
    assert_eq!(s.current_file_index, 0);
}

#[test]
fn file_change_with_empty_list_resets_the_index() {
    let mut s = ready_state();
    s.navigate_to_next_file();
    assert_eq!(s.current_file_index, 1);
    s.apply_file_change("a.txt", String::from("stat"), Vec::new(), 200);
    assert_eq!(s.current_file_index, 0);
    assert!(s.changed_files.is_empty());
}

#[test]
fn startup_without_changes_records_one_canned_entry() {
    let mut s = SessionState::new();
    s.apply_refresh(String::from(""), Vec::new(), 50);
    assert!(s.status_summary.starts_with("No changes detected"));
    s.apply_no_changed_files(50);
    assert!(s.current_diff.starts_with("No changes to display."));
    assert_eq!(s.history.len(), 1);
    assert_eq!(s.history.entry(0).file_name, "Initial State");
}

#[test]
fn loading_placeholders_appear_before_fetches() {
    let mut s = SessionState::new();
    s.mark_loading();
    assert!(s.status_summary.contains("Loading repository status"));
    s.show_diff_loading("a.txt");
    assert_eq!(s.current_diff, "Loading diff for a.txt...");
}

#[test]
fn recently_modified_window_is_sixty_seconds() {
    assert!(is_recently_modified(100, 100));
    assert!(is_recently_modified(100, 159));
    assert!(!is_recently_modified(100, 160));
    assert!(!is_recently_modified(200, 100));
}

#[test]
fn file_times_record_and_lookup() {
    let mut s = SessionState::new();
    s.record_file_time(String::from("a.txt"), 1000);
    s.record_file_time(String::from("b.txt"), 2000);
    s.record_file_time(String::from("a.txt"), 3000);
    assert_eq!(s.file_times.lookup("a.txt"), Some(3000));
    assert_eq!(s.file_times.lookup("b.txt"), Some(2000));
    assert_eq!(s.file_times.lookup("c.txt"), None);
}
