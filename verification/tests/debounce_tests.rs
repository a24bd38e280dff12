use watchhound::clock::current_time_seconds;
use watchhound::debounce::Debouncer;

#[test]
fn events_inside_the_window_are_dropped() {
    let mut d = Debouncer::new(1000);
    assert!(d.process_event(String::from("src/a.rs"), 5000));
    assert!(!d.process_event(String::from("src/a.rs"), 5001));
    assert!(!d.process_event(String::from("src/a.rs"), 5999));
    assert!(d.process_event(String::from("src/a.rs"), 6000));
}

#[test]
fn rejected_events_leave_no_trace() {
    let mut d = Debouncer::new(1000);
    assert!(d.process_event(String::from("a"), 5000));
    // a rejected event does not restart the window
    assert!(!d.process_event(String::from("a"), 5900));
    assert!(d.process_event(String::from("a"), 6000));
}

#[test]
fn paths_are_debounced_independently() {
    let mut d = Debouncer::new(1000);
    assert!(d.process_event(String::from("a"), 5000));
    assert!(d.process_event(String::from("b"), 5001));
    assert!(!d.process_event(String::from("a"), 5500));
    assert!(!d.process_event(String::from("b"), 5500));
}

#[test]
fn should_process_and_record_compose_like_process_event() {
    let mut d = Debouncer::new(500);
    assert!(d.should_process("x", 100));
    d.record(String::from("x"), 100);
    assert!(!d.should_process("x", 400));
    assert!(d.should_process("x", 600));
}

#[test]
fn first_event_for_a_path_is_always_accepted() {
    let d = Debouncer::new(1000);
    assert!(d.should_process("never/seen.rs", 0));
}

#[test]
fn wall_clock_reads_a_plausible_time() {
    let t1 = current_time_seconds();
    let t2 = current_time_seconds();
    // seconds since the Unix epoch: past 2020, and the clock reads do
    // not run backwards across two adjacent calls by a whole second
    assert!(t1 > 1_577_836_800);
    assert!(t2 + 1 >= t1);
}
