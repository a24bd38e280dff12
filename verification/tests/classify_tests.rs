use watchhound::classify::{
    classify_diff_line, classify_stat_line, contains_char, contains_text, split_at_char,
    starts_with, DiffLineKind, StatLine,
};
use watchhound::state::SessionState;

#[test]
fn diff_lines_fall_into_their_categories() {
    assert_eq!(classify_diff_line("@@ -1,2 +1,3 @@"), DiffLineKind::HunkHeader);
    assert_eq!(classify_diff_line("+++ b/file.rs"), DiffLineKind::FileHeader);
    assert_eq!(classify_diff_line("--- a/file.rs"), DiffLineKind::FileHeader);
    assert_eq!(classify_diff_line("+added"), DiffLineKind::Addition);
    assert_eq!(classify_diff_line("-removed"), DiffLineKind::Removal);
    assert_eq!(classify_diff_line("index 1a2b3c4..5d6e7f8 100644"), DiffLineKind::Metadata);
    assert_eq!(classify_diff_line("diff --git a/x b/x"), DiffLineKind::Metadata);
    assert_eq!(classify_diff_line(" unchanged"), DiffLineKind::Context);
    assert_eq!(classify_diff_line(""), DiffLineKind::Context);
}

#[test]
fn stat_file_entries_are_split_and_trimmed() {
    let entry = classify_stat_line(" src/main.rs | 10 ++++++----");
    match entry {
        StatLine::FileEntry { file, stats, has_plus, has_minus } => {
            assert_eq!(file, "src/main.rs");
            assert_eq!(stats, "10 ++++++----");
            assert!(has_plus);
            assert!(has_minus);
        }
        _ => panic!("expected a file entry"),
    }
}

#[test]
fn stat_entries_report_pure_additions_and_removals() {
    match classify_stat_line("a.txt | 2 ++") {
        StatLine::FileEntry { has_plus, has_minus, .. } => {
            assert!(has_plus);
            assert!(!has_minus);
        }
        _ => panic!("expected a file entry"),
    }
    match classify_stat_line("a.txt | 2 --") {
        StatLine::FileEntry { has_plus, has_minus, .. } => {
            assert!(!has_plus);
            assert!(has_minus);
        }
        _ => panic!("expected a file entry"),
    }
}

#[test]
fn stat_summary_and_plain_lines_are_recognized() {
    assert!(matches!(
        classify_stat_line(" 2 files changed, 3 insertions(+), 1 deletion(-)"),
        StatLine::Summary
    ));
    assert!(matches!(classify_stat_line("plain text"), StatLine::Plain));
    assert!(matches!(classify_stat_line(""), StatLine::Plain));
}

#[test]
fn text_helpers_behave_like_their_specs() {
    assert!(starts_with("+++ b/x", "+++"));
    assert!(!starts_with("+", "+++"));
    assert!(contains_char("1 +-", '+'));
    assert!(!contains_char("1", '+'));
    assert!(contains_text("2 files changed", "changed"));
    assert!(!contains_text("nothing here", "changed"));
    assert!(contains_text("abc", ""));
    assert_eq!(split_at_char("a|b|c", '|'), vec!["a", "b", "c"]);
    assert_eq!(split_at_char("a|", '|'), vec!["a", ""]);
    assert_eq!(split_at_char("abc", '|'), vec!["abc"]);
    assert_eq!(split_at_char("", '|'), vec![""]);
}

#[test]
fn diff_pane_title_reflects_file_and_position() {
    let mut s = SessionState::new();
    assert_eq!(s.diff_pane_title(false), "Git Diff");
    s.apply_refresh(
        String::from("stat"),
        vec![String::from("a.txt"), String::from("b.txt")],
        7,
    );
    assert_eq!(s.diff_pane_title(false), "Git Diff - a.txt (1/2)");
    s.navigate_to_next_file();
    assert_eq!(s.diff_pane_title(true), "Git Diff - b.txt [RECENT] (2/2)");
}
