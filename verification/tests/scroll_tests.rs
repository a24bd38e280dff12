use watchhound::scroll::{diff_against_previous, smart_scroll, smart_scroll_lines};

#[test]
fn smart_scroll_clamps_to_top_for_early_addition() {
    let diff = "@@ -1,1 +1,2 @@\n-old\n+new\n+line2\n";
    assert_eq!(smart_scroll(diff), 0);
}

#[test]
fn smart_scroll_gives_context_above_first_addition() {
    let diff = "@@ -1,6 +1,7 @@\n ctx1\n ctx2\n ctx3\n ctx4\n ctx5\n+new\n ctx6\n";
    // the first addition sits at line index 6; three lines of context above it
    assert_eq!(smart_scroll(diff), 3);
}

#[test]
fn smart_scroll_skips_file_headers() {
    let diff = "--- a/f.txt\n+++ b/f.txt\n@@ -1 +1 @@\n-x\n+y\n";
    // "+++ b/f.txt" is a header, not an addition; the first addition is index 4
    assert_eq!(smart_scroll(diff), 1);
}

#[test]
fn no_additions_short_diff_scrolls_to_top() {
    assert_eq!(smart_scroll("ctx\n-removed\n ctx\n"), 0);
    assert_eq!(smart_scroll(""), 0);
}

#[test]
fn no_additions_long_diff_shows_tail() {
    let diff = "ctx\n".repeat(15);
    assert_eq!(smart_scroll(&diff), 7);
}

#[test]
fn identical_diffs_fall_back_to_smart_scroll() {
    let d = "@@ -1,4 +1,5 @@\n ctx\n ctx\n ctx\n ctx\n+new\n";
    assert_eq!(diff_against_previous(d, d), smart_scroll(d));
    assert_eq!(diff_against_previous(d, d), 2);
    let short = "ctx\n";
    assert_eq!(diff_against_previous(short, short), smart_scroll(short));
    assert_eq!(diff_against_previous(short, short), 0);
}

#[test]
fn divergence_scrolls_to_first_content_change() {
    let prev = " a\n b\n c\n d\n e\n f\n g\n";
    let cur = " a\n b\n c\n d\n e\n-f\n+F\n g\n";
    // first divergence at index 5, which is itself a change line
    assert_eq!(diff_against_previous(cur, prev), 2);
}

#[test]
fn divergence_without_content_change_backs_up_two() {
    let prev = " a\n b\n c\n d\n e\n";
    let cur = " a\n b\n c\n d\n e\n tail1\n tail2\n";
    // divergence where prev is exhausted (index 5); no +/- line follows
    assert_eq!(diff_against_previous(cur, prev), 3);
}

#[test]
fn current_prefix_of_previous_backs_up_from_its_end() {
    let prev = " a\n b\n c\n d\n";
    let cur = " a\n b\n";
    // divergence where the current diff is exhausted (index 2)
    assert_eq!(diff_against_previous(cur, prev), 0);
}

#[test]
fn smart_scroll_lines_matches_text_form() {
    let parts = vec![
        String::from("@@ -1 +1 @@"),
        String::from("-x"),
        String::from("+y"),
    ];
    assert_eq!(smart_scroll_lines(&parts), 0);
    assert_eq!(smart_scroll("@@ -1 +1 @@\n-x\n+y\n"), 0);
}
