use freecaster_grid::tracker::{DeadConfirmation, NodeState};

fn fresh(name: &str) -> NodeState {
    NodeState::new(name.to_string())
}

#[test]
fn new_entry_is_alive_and_empty() {
    let ns = fresh("a");
    assert_eq!(ns.name, "a");
    assert_eq!(ns.fail_count, 0);
    assert!(!ns.is_dead());
    assert!(ns.last_poll.is_none());
    assert!(ns.last_fail.is_none());
    assert!(ns.local_announcement_roll.is_none());
    assert!(ns.announced.is_none());
    assert!(ns.confirmations.is_empty());
}

#[test]
fn flap_two_failures_then_success_resets_counter() {
    // A fails twice then answers: counts 1, 2, 0 and no roll is ever drawn.
    let me = "c".to_string();
    let mut ns = fresh("a");
    ns.record_failure(10, 7);
    assert_eq!(ns.fail_count, 1);
    assert!(ns.local_announcement_roll.is_none());
    ns.record_failure(11, 7);
    assert_eq!(ns.fail_count, 2);
    assert!(ns.local_announcement_roll.is_none());
    let recovered = ns.record_success(12, &me);
    assert!(!recovered);
    assert_eq!(ns.fail_count, 0);
    assert!(ns.local_announcement_roll.is_none());
    assert_eq!(ns.last_poll, Some(12));
    assert!(ns.last_fail.is_none());
}

#[test]
fn third_failure_crosses_threshold_and_keeps_the_roll() {
    let mut ns = fresh("a");
    ns.record_failure(1, 41);
    ns.record_failure(2, 42);
    assert!(!ns.is_dead());
    ns.record_failure(3, 43);
    assert!(ns.is_dead());
    assert_eq!(ns.local_announcement_roll, Some(43));
    assert_eq!(ns.last_fail, Some(3));
    // Further failures neither advance the counter nor redraw the roll.
    ns.record_failure(4, 99);
    assert_eq!(ns.fail_count, 3);
    assert_eq!(ns.local_announcement_roll, Some(43));
}

#[test]
fn failing_probe_never_sets_announced() {
    let mut ns = fresh("a");
    for t in 0..5 {
        ns.record_failure(t, 7);
        assert!(ns.announced.is_none());
    }
}

#[test]
fn successful_probe_clears_announced_and_everything_else() {
    let me = "c".to_string();
    let mut ns = fresh("a");
    ns.record_failure(1, 10);
    ns.record_failure(2, 10);
    ns.record_failure(3, 10);
    ns.set_confirmation(&"b".to_string(), DeadConfirmation { confirmed_roll: Some(5) });
    ns.announced = Some("b".to_string());
    let recovered = ns.record_success(9, &me);
    // Announced by b, not by this node: reset, but nothing to announce.
    assert!(!recovered);
    assert!(ns.announced.is_none());
    assert_eq!(ns.fail_count, 0);
    assert!(ns.confirmations.is_empty());
    assert!(ns.local_announcement_roll.is_none());
    assert_eq!(ns.last_poll, Some(9));
}

#[test]
fn recovery_of_a_death_this_node_announced_is_reported() {
    let me = "c".to_string();
    let mut ns = fresh("a");
    ns.record_failure(1, 10);
    ns.record_failure(2, 10);
    ns.record_failure(3, 10);
    ns.announced = Some("c".to_string());
    let recovered = ns.record_success(4, &me);
    assert!(recovered);
    assert!(ns.announced.is_none());
    assert_eq!(ns.fail_count, 0);
}

#[test]
fn record_probe_draws_a_roll_at_the_crossing() {
    let me = "c".to_string();
    let mut ns = fresh("a");
    assert!(!ns.record_probe(true, 1, &me));
    assert!(!ns.record_probe(true, 2, &me));
    assert!(ns.local_announcement_roll.is_none());
    assert!(!ns.record_probe(true, 3, &me));
    assert!(ns.is_dead());
    assert!(ns.local_announcement_roll.is_some());
    assert!(ns.announced.is_none());
}

#[test]
fn set_confirmation_overwrites_by_name() {
    let mut ns = fresh("a");
    ns.set_confirmation(&"b".to_string(), DeadConfirmation { confirmed_roll: None });
    ns.set_confirmation(&"d".to_string(), DeadConfirmation { confirmed_roll: Some(1) });
    ns.set_confirmation(&"b".to_string(), DeadConfirmation { confirmed_roll: Some(8) });
    assert_eq!(ns.confirmations.len(), 2);
    let b = ns.confirmations.iter().find(|(n, _)| n == "b").unwrap();
    assert_eq!(b.1.confirmed_roll, Some(8));
    let d = ns.confirmations.iter().find(|(n, _)| n == "d").unwrap();
    assert_eq!(d.1.confirmed_roll, Some(1));
}

#[test]
fn reset_clears_counter_and_roll_together() {
    let mut ns = fresh("a");
    ns.record_failure(1, 3);
    ns.record_failure(2, 3);
    ns.record_failure(3, 3);
    assert!(ns.is_dead() && ns.local_announcement_roll.is_some());
    ns.reset();
    assert!(!ns.is_dead() && ns.local_announcement_roll.is_none());
}
