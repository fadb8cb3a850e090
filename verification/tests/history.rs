use lau_agent_organism::history::push_bounded;

#[test]
fn history_keeps_the_most_recent_entries() {
    let mut h: Vec<u32> = Vec::new();
    for i in 0..5 {
        push_bounded(&mut h, i, 3);
    }
    assert_eq!(h, vec![2, 3, 4]);
}

#[test]
fn history_below_bound_only_grows() {
    let mut h = vec![1.5f64];
    push_bounded(&mut h, 2.5, 100);
    assert_eq!(h, vec![1.5, 2.5]);
}

#[test]
fn history_with_zero_bound_stays_empty() {
    let mut h: Vec<u8> = Vec::new();
    push_bounded(&mut h, 1, 0);
    assert!(h.is_empty());
}

#[test]
fn overfull_history_drops_one_entry_per_push() {
    let mut h = vec![1, 2, 3, 4, 5];
    push_bounded(&mut h, 6, 2);
    assert_eq!(h, vec![2, 3, 4, 5, 6]);
}
