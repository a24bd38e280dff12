use watchhound::history::DiffHistory;
use watchhound::scroll::diff_against_previous;

#[test]
fn history_bound_keeps_the_fifty_most_recent() {
    let mut h = DiffHistory::new();
    for i in 0..55u64 {
        h.append(format!("file{}.txt", i), format!("+line{}\n", i), i);
    }
    assert_eq!(h.len(), 50);
    // the five oldest were evicted; what remains is oldest-first
    assert_eq!(h.entry(0).file_name, "file5.txt");
    assert_eq!(h.entry(0).timestamp, 5);
    assert_eq!(h.entry(49).file_name, "file54.txt");
    assert_eq!(h.entry(49).timestamp, 54);
}

#[test]
fn history_under_capacity_keeps_everything() {
    let mut h = DiffHistory::new();
    for i in 0..50u64 {
        h.append(format!("f{}", i), String::from("+x\n"), i);
    }
    assert_eq!(h.len(), 50);
    assert_eq!(h.entry(0).file_name, "f0");
}

#[test]
fn append_links_previous_diff_for_same_file() {
    let mut h = DiffHistory::new();
    assert_eq!(h.append(String::from("a.txt"), String::from("+x\n"), 1000), None);
    let prev = h.append(String::from("a.txt"), String::from("+x\n+y\n"), 1001);
    assert_eq!(prev, Some(String::from("+x\n")));
    assert_eq!(h.entry(1).previous_diff, Some(String::from("+x\n")));
    // and the divergence from that previous diff lands at the top
    assert_eq!(diff_against_previous("+x\n+y\n", "+x\n"), 0);
}

#[test]
fn append_ignores_other_files_when_linking() {
    let mut h = DiffHistory::new();
    h.append(String::from("a.txt"), String::from("+a\n"), 1);
    h.append(String::from("b.txt"), String::from("+b\n"), 2);
    let prev = h.append(String::from("a.txt"), String::from("+a2\n"), 3);
    assert_eq!(prev, Some(String::from("+a\n")));
    let none = h.append(String::from("c.txt"), String::from("+c\n"), 4);
    assert_eq!(none, None);
}

#[test]
fn accumulated_view_single_entry_is_its_diff() {
    let mut h = DiffHistory::new();
    h.append(String::from("a.txt"), String::from("+a\n"), 3600);
    assert_eq!(h.build_accumulated_view(), "+a\n");
}

#[test]
fn accumulated_view_separates_later_entries() {
    let mut h = DiffHistory::new();
    h.append(String::from("a.txt"), String::from("+a\n"), 3600);
    h.append(String::from("b.txt"), String::from("+b\n"), 3661);
    assert_eq!(
        h.build_accumulated_view(),
        "+a\n\n\n=== Update 2 at 01:01:01 (File: b.txt) ===\n+b\n"
    );
}

#[test]
fn accumulated_view_of_empty_history_is_empty() {
    let h = DiffHistory::new();
    assert_eq!(h.build_accumulated_view(), "");
}

#[test]
fn accumulated_offset_counts_lines_before_newest() {
    let mut h = DiffHistory::new();
    assert_eq!(h.accumulated_offset(), 0);
    h.append(String::from("a"), String::from("+1\n+2\n"), 10);
    assert_eq!(h.accumulated_offset(), 0);
    h.append(String::from("b"), String::from("+1\n+2\n+3\n"), 11);
    // one predecessor of two lines
    assert_eq!(h.accumulated_offset(), 2);
    h.append(String::from("c"), String::from("+1\n"), 12);
    // 2 lines, then 3 separator lines + 3 lines
    assert_eq!(h.accumulated_offset(), 8);
}

#[test]
fn clear_empties_the_store() {
    let mut h = DiffHistory::new();
    h.append(String::from("a"), String::from("+1\n"), 10);
    h.clear();
    assert_eq!(h.len(), 0);
    assert_eq!(h.build_accumulated_view(), "");
}

#[test]
fn find_previous_reads_most_recent_entry() {
    let mut h = DiffHistory::new();
    h.append(String::from("a"), String::from("v1"), 1);
    h.append(String::from("a"), String::from("v2"), 2);
    assert_eq!(h.find_previous(&String::from("a")), Some(String::from("v2")));
    assert_eq!(h.find_previous(&String::from("zz")), None);
}
