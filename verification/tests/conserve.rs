use lau_agent_organism::conserve::{NoetherTracker, MAX_SNAPSHOTS};
use nalgebra::DVector;
use std::collections::HashMap;

type Tracker = NoetherTracker<f64, DVector<f64>, HashMap<String, f64>>;

#[test]
fn test_noether_tracker_creation() {
    let tracker: Tracker = NoetherTracker::new();
    assert_eq!(tracker.symmetries.len(), 0);
}

#[test]
fn test_register_symmetry() {
    let mut tracker: Tracker = NoetherTracker::new();
    tracker.register_symmetry("energy", DVector::zeros(3), 100.0, 0.01);
    assert_eq!(tracker.num_symmetries(), 1);
}

#[test]
fn test_snapshot_history() {
    let mut tracker: Tracker = NoetherTracker::new();
    let mut values = HashMap::new();
    values.insert("energy".to_string(), 100.0);
    tracker.snapshot(values);
    assert_eq!(tracker.history.len(), 1);
}

#[test]
fn test_update_value() {
    let mut tracker: Tracker = NoetherTracker::new();
    tracker.register_symmetry("energy", DVector::zeros(2), 100.0, 0.1);
    tracker.update_value("energy", 99.5);
    assert!((tracker.symmetries[0].conserved_value - 99.5).abs() < 1e-10);
}

#[test]
fn update_value_touches_only_the_first_match() {
    let mut tracker: NoetherTracker<i64, (), ()> = NoetherTracker::new();
    tracker.register_symmetry("a", (), 1, 0);
    tracker.register_symmetry("b", (), 2, 0);
    tracker.register_symmetry("a", (), 3, 0);
    tracker.update_value("a", 10);
    tracker.update_value("missing", 99);
    let values: Vec<i64> = tracker.symmetries.iter().map(|s| s.conserved_value).collect();
    assert_eq!(values, vec![10, 2, 3]);
}

#[test]
fn snapshot_history_is_bounded() {
    let mut tracker: NoetherTracker<i64, (), usize> = NoetherTracker::new();
    for i in 0..MAX_SNAPSHOTS + 5 {
        tracker.snapshot(i);
    }
    assert_eq!(tracker.history.len(), MAX_SNAPSHOTS);
    assert_eq!(tracker.history[0], 5);
    assert_eq!(*tracker.history.last().unwrap(), MAX_SNAPSHOTS + 4);
}
