use hostbridge::tracker::KeyTracker;

fn keys(names: &[&str]) -> Vec<String> {
    names.iter().map(|n| n.to_string()).collect()
}

fn same_key_set(a: &[String], b: &[&str]) -> bool {
    a.len() == b.len() && b.iter().all(|n| a.iter().any(|m| m == n))
}

#[test]
fn scenario_a_first_poll_reports_held_key() {
    let mut t = KeyTracker::new();
    let delta = t.poll(&keys(&["A"]));
    assert_eq!(delta, keys(&["A"]));
}

#[test]
fn scenario_b_only_new_key_reported() {
    let mut t = KeyTracker::new();
    t.poll(&keys(&["A"]));
    let delta = t.poll(&keys(&["A", "B"]));
    assert_eq!(delta, keys(&["B"]));
}

#[test]
fn scenario_c_release_reports_nothing() {
    let mut t = KeyTracker::new();
    t.poll(&keys(&["A", "B"]));
    let delta = t.poll(&keys(&["B"]));
    assert!(delta.is_empty());
}

#[test]
fn scenario_d_re_press_reported_again() {
    let mut t = KeyTracker::new();
    t.poll(&keys(&["A", "B"]));
    t.poll(&keys(&["B"]));
    let delta = t.poll(&keys(&["A", "B"]));
    assert_eq!(delta, keys(&["A"]));
}

#[test]
fn first_poll_with_empty_sample_reports_nothing() {
    let mut t = KeyTracker::new();
    let delta = t.poll(&keys(&[]));
    assert!(delta.is_empty());
}

#[test]
fn unchanged_sample_reports_nothing() {
    let mut t = KeyTracker::new();
    t.poll(&keys(&["Space", "LShift"]));
    let delta = t.poll(&keys(&["Space", "LShift"]));
    assert!(delta.is_empty());
}

#[test]
fn first_poll_reports_sample_exactly() {
    let mut t = KeyTracker::new();
    let delta = t.poll(&keys(&["Q", "W", "E"]));
    assert!(same_key_set(&delta, &["Q", "W", "E"]));
}

#[test]
fn reported_keys_come_from_sample() {
    let mut t = KeyTracker::new();
    t.poll(&keys(&["A", "B"]));
    let delta = t.poll(&keys(&["B", "C", "D"]));
    assert!(delta.iter().all(|k| ["B", "C", "D"].contains(&k.as_str())));
}

#[test]
fn duplicate_sample_entries_reported_once() {
    let mut t = KeyTracker::new();
    let delta = t.poll(&keys(&["A", "A", "B"]));
    assert!(same_key_set(&delta, &["A", "B"]));
}

#[test]
fn released_keys_drop_out_of_snapshot() {
    let mut t = KeyTracker::new();
    t.poll(&keys(&["A", "B", "C"]));
    t.poll(&keys(&[]));
    let delta = t.poll(&keys(&["A", "C"]));
    assert!(same_key_set(&delta, &["A", "C"]));
}
