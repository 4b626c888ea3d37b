use freecaster_grid::announce::announcement_message;
use freecaster_grid::config::NodeConfig;
use freecaster_grid::grid::{SilenceError, StateInner, probe_targets, secret_matches};
use freecaster_grid::wire::{
    DeadNodeResponse, GridNodeStatus, ObituaryResponse, ProbeVerdict, SilenceBroadcastRequest,
    classify_probe, internet_gate_passed, obituary_response,
};

fn node(name: &str) -> NodeConfig {
    NodeConfig {
        name: name.to_string(),
        telegram_handle: None,
        address: format!("https://{name}.example"),
    }
}

fn seeded(roster: &[&str]) -> StateInner {
    let peers: Vec<NodeConfig> = roster.iter().map(|n| node(n)).collect();
    let mut st = StateInner::new();
    st.init_nodes(&peers);
    st
}

fn fail_times(st: &mut StateInner, name: &str, times: usize, from_t: i64, me: &str) {
    for k in 0..times {
        st.apply_probe(&name.to_string(), true, from_t + k as i64, &me.to_string());
    }
}

#[test]
fn init_seeds_one_entry_per_peer() {
    let st = seeded(&["a", "b"]);
    assert_eq!(st.node_state.len(), 2);
    assert_eq!(st.node_state[0].name, "a");
    assert_eq!(st.node_state[1].name, "b");
    assert!(st.silences.is_empty());
}

#[test]
fn silenced_peers_are_not_probed() {
    let me = "c".to_string();
    let secret = "s3".to_string();
    let mut st = seeded(&["a", "b"]);
    let r = st.handle_silence(&me, &secret, &secret, &"1h".to_string(), Some("a".to_string()), 100);
    assert!(r.is_ok());
    let roster = vec![node("a"), node("b")];
    let targets = probe_targets(&roster, &st.silences, 100);
    let names: Vec<&str> = targets.iter().map(|n| n.name.as_str()).collect();
    assert_eq!(names, vec!["b"]);
    // The silence does not advance a's failure counter either: a is
    // simply never probed, so its entry stays as it was.
    assert_eq!(st.node_state[0].fail_count, 0);
}

#[test]
fn simple_death_elects_this_node_on_the_greater_roll() {
    // Three peers; this node is c; a stops answering.
    let me = "c".to_string();
    let mut st = seeded(&["a", "b"]);
    fail_times(&mut st, "a", 3, 0, "c");
    assert!(st.node_state[0].is_dead());
    let my_roll = st.node_state[0].local_announcement_roll.unwrap();
    // b's obituary also lists a, with a roll on the far side of ours.
    let b_roll = if my_roll > 0 { my_roll - 1 } else { 1 };
    let resp = ObituaryResponse {
        dead_nodes: vec![DeadNodeResponse { name: "a".to_string(), roll: b_roll }],
    };
    st.apply_obituary(&"b".to_string(), &resp);
    let announce = st.run_elections(&me);
    let expect_here = my_roll > b_roll;
    if expect_here {
        assert_eq!(announce, vec!["a".to_string()]);
        assert_eq!(st.node_state[0].announced.as_deref(), Some("c"));
    } else {
        assert!(announce.is_empty());
        assert_eq!(st.node_state[0].announced.as_deref(), Some("b"));
    }
    // No further announcements while a stays down.
    fail_times(&mut st, "a", 2, 10, "c");
    let resp2 = ObituaryResponse {
        dead_nodes: vec![DeadNodeResponse { name: "a".to_string(), roll: b_roll }],
    };
    st.apply_obituary(&"b".to_string(), &resp2);
    assert!(st.run_elections(&me).is_empty());
}

#[test]
fn quorum_denied_when_the_peer_does_not_confirm() {
    let me = "c".to_string();
    let mut st = seeded(&["a", "b"]);
    fail_times(&mut st, "a", 3, 0, "c");
    // b's obituary lists nothing: b votes "alive".
    let resp = ObituaryResponse { dead_nodes: vec![] };
    st.apply_obituary(&"b".to_string(), &resp);
    let bc = st.node_state[0]
        .confirmations
        .iter()
        .find(|(n, _)| n == "b")
        .expect("b voted")
        .1
        .confirmed_roll;
    assert_eq!(bc, None);
    assert!(st.run_elections(&me).is_empty());
    assert!(st.node_state[0].announced.is_none());
}

#[test]
fn recovery_after_an_announced_death_is_reported_once() {
    let me = "c".to_string();
    let mut st = seeded(&["a", "b"]);
    fail_times(&mut st, "a", 3, 0, "c");
    st.node_state[0].announced = Some("c".to_string());
    let recovered = st.apply_probe(&"a".to_string(), false, 50, &me);
    assert!(recovered);
    assert_eq!(st.node_state[0].fail_count, 0);
    assert!(st.node_state[0].announced.is_none());
    assert!(st.node_state[0].confirmations.is_empty());
    // Subsequent failures start over from zero.
    st.apply_probe(&"a".to_string(), true, 60, &me);
    assert_eq!(st.node_state[0].fail_count, 1);
}

#[test]
fn obituary_lists_the_dead_with_their_rolls() {
    let mut st = seeded(&["a", "b", "d"]);
    fail_times(&mut st, "a", 3, 0, "c");
    let roll = st.node_state[0].local_announcement_roll.unwrap();
    // An entry can be dead without a roll only through the fallback; force
    // the shape to check the maximum stands in for it.
    st.node_state[2].fail_count = 3;
    let o = obituary_response(&st.node_state);
    assert_eq!(o.dead_nodes.len(), 2);
    assert_eq!(o.dead_nodes[0].name, "a");
    assert_eq!(o.dead_nodes[0].roll, roll);
    assert_eq!(o.dead_nodes[1].name, "d");
    assert_eq!(o.dead_nodes[1].roll, usize::MAX);
}

#[test]
fn obituary_exchange_skips_our_dead() {
    let mut st = seeded(&["a", "b"]);
    fail_times(&mut st, "a", 3, 0, "c");
    assert!(st.any_dying());
    let roster = vec![node("a"), node("b")];
    let targets = st.obituary_targets(&roster);
    let names: Vec<&str> = targets.iter().map(|n| n.name.as_str()).collect();
    assert_eq!(names, vec!["b"]);
}

#[test]
fn grid_snapshot_sorts_and_counts() {
    let me = "c".to_string();
    let mut st = seeded(&["d", "a", "b"]);
    fail_times(&mut st, "d", 3, 0, "c");
    st.node_state[2].fail_count = 3;
    st.node_state[2].local_announcement_roll = Some(1);
    st.node_state[2].announced = Some("c".to_string());
    let g = st.grid_response(&me);
    let names: Vec<&str> = g.nodes.iter().map(|n| n.name.as_str()).collect();
    assert_eq!(names, vec!["a", "b", "c", "d"]);
    assert_eq!(g.total_nodes, 4);
    assert_eq!(g.alive_nodes, 2);
    assert_eq!(g.dying_nodes, 1);
    assert_eq!(g.dead_nodes, 1);
    let c_row = g.nodes.iter().find(|n| n.name == "c").unwrap();
    assert_eq!(c_row.status, GridNodeStatus::Alive);
    assert!(c_row.last_poll.is_none());
    let d_row = g.nodes.iter().find(|n| n.name == "d").unwrap();
    assert_eq!(d_row.status, GridNodeStatus::Dying);
    let b_row = g.nodes.iter().find(|n| n.name == "b").unwrap();
    assert_eq!(b_row.status, GridNodeStatus::Dead);
}

#[test]
fn silence_endpoint_answers_and_stores() {
    let me = "c".to_string();
    let secret = "s3".to_string();
    let mut st = seeded(&["a", "b"]);
    let r = st
        .handle_silence(&me, &secret, &secret, &"1h".to_string(), Some("a".to_string()), 1000)
        .unwrap();
    assert_eq!(r.name, "a");
    assert_eq!(r.silent_until, 1000 + 3600);
    assert_eq!(st.silences.len(), 1);
    assert_eq!(st.silences[0].node_name, "a");
    assert_eq!(st.silences[0].silent_until, 4600);
    assert!(!st.silences[0].broadcasted);
}

#[test]
fn silence_endpoint_defaults_to_self_and_takes_timestamps() {
    let me = "c".to_string();
    let secret = "s3".to_string();
    let mut st = seeded(&["a", "b"]);
    let r = st.handle_silence(&me, &secret, &secret, &"1431648000".to_string(), None, 0).unwrap();
    assert_eq!(r.name, "c");
    assert_eq!(r.silent_until, 1431648000);
}

#[test]
fn silence_endpoint_refusals() {
    let me = "c".to_string();
    let secret = "s3".to_string();
    let mut st = seeded(&["a", "b"]);
    let r = st.handle_silence(&me, &secret, &"wrong".to_string(), &"1h".to_string(), None, 0);
    assert_eq!(r.unwrap_err(), SilenceError::InvalidSecret);
    let r = st.handle_silence(&me, &secret, &secret, &"soon".to_string(), None, 0);
    assert_eq!(r.unwrap_err(), SilenceError::MalformedTime);
    let r =
        st.handle_silence(&me, &secret, &secret, &"1h".to_string(), Some("z".to_string()), 0);
    assert_eq!(r.unwrap_err(), SilenceError::UnknownTarget);
    assert!(st.silences.is_empty());
}

#[test]
fn gossiped_silences_are_idempotent_by_id() {
    let mut st = seeded(&["a", "b"]);
    st.receive_silence_broadcast(SilenceBroadcastRequest {
        id: 9,
        node_name: "a".to_string(),
        silent_until: 100,
    });
    st.receive_silence_broadcast(SilenceBroadcastRequest {
        id: 9,
        node_name: "a".to_string(),
        silent_until: 100,
    });
    assert_eq!(st.silences.len(), 1);
    assert!(st.silences[0].broadcasted);
}

#[test]
fn expired_silences_fall_at_cycle_start() {
    let mut st = seeded(&["a"]);
    st.receive_silence_broadcast(SilenceBroadcastRequest {
        id: 9,
        node_name: "a".to_string(),
        silent_until: 100,
    });
    st.reap_silences(100);
    assert!(st.silences.is_empty());
}

#[test]
fn announcement_texts() {
    let mut a = node("alpha");
    let me = "c".to_string();
    assert_eq!(
        announcement_message(&a, &me, true),
        "Grid announcement, `alpha` has unfortunately died, announced by: `c`"
    );
    assert_eq!(
        announcement_message(&a, &me, false),
        "Grid announcement, `alpha` has fortunately RETURNED, announced by: `c`"
    );
    a.telegram_handle = Some("al".to_string());
    assert_eq!(
        announcement_message(&a, &me, true),
        "Grid announcement, `alpha` has unfortunately died, announced by: `c` - @al"
    );
    a.telegram_handle = Some(String::new());
    assert_eq!(
        announcement_message(&a, &me, true),
        "Grid announcement, `alpha` has unfortunately died, announced by: `c`"
    );
}

#[test]
fn gate_and_secret() {
    assert!(internet_gate_passed(204));
    assert!(!internet_gate_passed(200));
    assert!(!internet_gate_passed(404));
    assert!(secret_matches(&"s3".to_string(), &"s3".to_string()));
    assert!(!secret_matches(&"s4".to_string(), &"s3".to_string()));
}

#[test]
fn grid_snapshot_of_an_empty_roster_is_just_this_node() {
    let me = "c".to_string();
    let st = StateInner::new();
    let g = st.grid_response(&me);
    assert_eq!(g.total_nodes, 1);
    assert_eq!(g.alive_nodes, 1);
    assert_eq!(g.dying_nodes, 0);
    assert_eq!(g.dead_nodes, 0);
    assert_eq!(g.nodes.len(), 1);
    assert_eq!(g.nodes[0].name, "c");
}

#[test]
fn grid_snapshot_sorts_lexicographically_not_numerically() {
    let me = "b".to_string();
    let st = seeded(&["a2", "a10"]);
    let g = st.grid_response(&me);
    let names: Vec<&str> = g.nodes.iter().map(|n| n.name.as_str()).collect();
    assert_eq!(names, vec!["a10", "a2", "b"]);
}

#[test]
fn probe_classification() {
    // Up: reached, 2xx, body well-formed.
    assert_eq!(classify_probe(true, true), ProbeVerdict::Up);
    assert!(!classify_probe(true, true).failing());
    // A reachable peer whose body does not decode is up, not failing.
    assert_eq!(classify_probe(true, false), ProbeVerdict::UpButWeird);
    assert!(!classify_probe(true, false).failing());
    // Anything short of a 2xx answer is one failure.
    assert_eq!(classify_probe(false, false), ProbeVerdict::Down);
    assert!(classify_probe(false, false).failing());
    assert_eq!(classify_probe(false, true), ProbeVerdict::Down);
}
