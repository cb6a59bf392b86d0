use pc_audio_mixer::reconciler::{sessions_equal, SessionReconciler};
use pc_audio_mixer::types::AudioSession;

fn session(pid: u32, name: &str, volume: u32) -> AudioSession {
    AudioSession {
        process_id: pid,
        process_name: name.to_string(),
        display_name: name.to_string(),
        volume,
        is_muted: false,
    }
}

#[test]
fn equal_lists_in_different_order_are_the_same() {
    let a = vec![session(1, "a", 10), session(2, "b", 20), session(2, "b", 20)];
    let b = vec![session(2, "b", 20), session(1, "a", 10), session(2, "b", 20)];
    assert!(sessions_equal(&a, &b));
}

#[test]
fn one_changed_field_makes_lists_differ() {
    let a = vec![session(1, "a", 10), session(2, "b", 20)];
    let b = vec![session(1, "a", 10), session(2, "b", 21)];
    assert!(!sessions_equal(&a, &b));
}

#[test]
fn multiplicity_matters() {
    let a = vec![session(1, "a", 10), session(1, "a", 10)];
    let b = vec![session(1, "a", 10), session(2, "b", 20)];
    assert!(!sessions_equal(&a, &b));
    let c = vec![session(1, "a", 10)];
    assert!(!sessions_equal(&a, &c));
}

#[test]
fn refetched_equal_list_emits_nothing() {
    let mut rec = SessionReconciler::new();
    let first = vec![session(1, "a", 10), session(2, "b", 20)];
    assert!(rec.tick(Ok(first)).is_some());
    // The same sessions again, in another order: no notification.
    let refetched = vec![session(2, "b", 20), session(1, "a", 10)];
    assert!(rec.tick(Ok(refetched)).is_none());
    assert_eq!(rec.snapshot().len(), 2);
}

#[test]
fn changed_list_emits_exactly_the_new_list() {
    let mut rec = SessionReconciler::new();
    rec.tick(Ok(vec![session(1, "a", 10)]));
    let changed = vec![session(1, "a", 55)];
    let note = rec.tick(Ok(changed)).expect("a change must notify");
    assert_eq!(note.len(), 1);
    assert_eq!(note[0].volume, 55);
    assert_eq!(rec.snapshot()[0].volume, 55);
}

#[test]
fn fetch_failure_keeps_the_snapshot_and_emits_nothing() {
    let mut rec = SessionReconciler::new();
    rec.tick(Ok(vec![session(1, "a", 10)]));
    assert!(rec.tick(Err("backend down".to_string())).is_none());
    assert_eq!(rec.snapshot().len(), 1);
    assert_eq!(rec.snapshot()[0].process_id, 1);
}

#[test]
fn first_nonempty_fetch_notifies() {
    let mut rec = SessionReconciler::new();
    let note = rec.tick(Ok(vec![session(7, "x", 1)])).expect("must notify");
    assert_eq!(note[0].process_id, 7);
}

#[test]
fn empty_fetch_after_empty_snapshot_is_quiet() {
    let mut rec = SessionReconciler::new();
    assert!(rec.tick(Ok(Vec::new())).is_none());
}
