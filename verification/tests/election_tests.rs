use freecaster_grid::election::{count_votes, elect, run_election};
use freecaster_grid::tracker::{DeadConfirmation, NodeState};

fn votes(v: &[(&str, Option<usize>)]) -> Vec<(String, DeadConfirmation)> {
    v.iter()
        .map(|(n, r)| (n.to_string(), DeadConfirmation { confirmed_roll: *r }))
        .collect()
}

#[test]
fn count_votes_splits_confirming_and_denying() {
    let c = votes(&[("b", Some(3)), ("d", None), ("e", Some(9)), ("f", None)]);
    let (t, f) = count_votes(&c);
    assert_eq!(t, 2);
    assert_eq!(f, 2);
}

#[test]
fn highest_roll_wins() {
    let c = votes(&[("b", Some(10)), ("d", Some(90))]);
    let w = elect(&c, &"c".to_string(), 50);
    assert_eq!(w.0, "d");
    assert_eq!(w.1, 90);
}

#[test]
fn local_candidacy_can_win() {
    let c = votes(&[("b", Some(10)), ("d", Some(20))]);
    let w = elect(&c, &"c".to_string(), 50);
    assert_eq!(w.0, "c");
    assert_eq!(w.1, 50);
}

#[test]
fn equal_rolls_resolve_to_the_greater_name() {
    // Both roll exactly 42: the lexicographically greater name announces.
    let c = votes(&[("b", Some(42))]);
    let w = elect(&c, &"c".to_string(), 42);
    assert_eq!(w.0, "c");
    assert_eq!(w.1, 42);
    // Seen from b's side with the same inputs the winner is the same.
    let c2 = votes(&[("c", Some(42))]);
    let w2 = elect(&c2, &"b".to_string(), 42);
    assert_eq!(w2.0, "c");
    assert_eq!(w2.1, 42);
}

#[test]
fn election_is_deterministic_across_runs() {
    let c = votes(&[("b", Some(7)), ("d", Some(7)), ("e", None)]);
    let w1 = elect(&c, &"c".to_string(), 7);
    let w2 = elect(&c, &"c".to_string(), 7);
    assert_eq!(w1, w2);
}

fn dying(name: &str, roll: usize, v: &[(&str, Option<usize>)]) -> NodeState {
    let mut ns = NodeState::new(name.to_string());
    ns.record_failure(1, roll);
    ns.record_failure(2, roll);
    ns.record_failure(3, roll);
    for (n, r) in v {
        ns.set_confirmation(&n.to_string(), DeadConfirmation { confirmed_roll: *r });
    }
    ns
}

#[test]
fn quorum_denied_on_a_tie() {
    // One denier against the local voter alone: one to one is no quorum.
    let mut ns = dying("a", 50, &[("b", None)]);
    let announce = run_election(&mut ns, &"c".to_string());
    assert!(!announce);
    assert!(ns.announced.is_none());
}

#[test]
fn quorum_reached_elects_and_announces_here() {
    // b confirms with a lesser roll: two confirming against none.
    let mut ns = dying("a", 50, &[("b", Some(10))]);
    let announce = run_election(&mut ns, &"c".to_string());
    assert!(announce);
    assert_eq!(ns.announced.as_deref(), Some("c"));
}

#[test]
fn quorum_reached_with_a_greater_peer_roll_stays_silent() {
    let mut ns = dying("a", 50, &[("b", Some(90))]);
    let announce = run_election(&mut ns, &"c".to_string());
    assert!(!announce);
    assert_eq!(ns.announced.as_deref(), Some("b"));
}

#[test]
fn election_is_idempotent_once_announced() {
    let mut ns = dying("a", 50, &[("b", Some(10))]);
    assert!(run_election(&mut ns, &"c".to_string()));
    // The announcer is picked; a second cycle leaves it alone.
    assert!(!run_election(&mut ns, &"c".to_string()));
    assert_eq!(ns.announced.as_deref(), Some("c"));
}

#[test]
fn an_alive_entry_is_not_elected() {
    let mut ns = NodeState::new("a".to_string());
    ns.record_failure(1, 5);
    let announce = run_election(&mut ns, &"c".to_string());
    assert!(!announce);
    assert!(ns.announced.is_none());
}
