use freecaster_grid::silence::{
    NodeSilence, is_silenced, mark_broadcasted, pending_broadcasts, reap, receive_broadcast,
};

fn rec(id: usize, name: &str, until: i64, broadcasted: bool) -> NodeSilence {
    NodeSilence { id, node_name: name.to_string(), silent_until: until, broadcasted }
}

#[test]
fn reap_drops_expired_and_keeps_order() {
    let mut v = vec![rec(1, "a", 100, false), rec(2, "b", 50, true), rec(3, "d", 200, false)];
    reap(&mut v, 60);
    assert_eq!(v.len(), 2);
    assert_eq!(v[0].id, 1);
    assert_eq!(v[1].id, 3);
}

#[test]
fn reap_expiry_is_strict() {
    // A record whose expiry equals now is already expired.
    let mut v = vec![rec(1, "a", 100, false)];
    reap(&mut v, 100);
    assert!(v.is_empty());
}

#[test]
fn is_silenced_honors_expiry() {
    let v = vec![rec(1, "a", 100, false)];
    assert!(is_silenced(&v, &"a".to_string(), 99));
    assert!(!is_silenced(&v, &"a".to_string(), 100));
    assert!(!is_silenced(&v, &"b".to_string(), 0));
}

#[test]
fn receiving_the_same_id_twice_leaves_the_store_unchanged() {
    let mut v: Vec<NodeSilence> = Vec::new();
    receive_broadcast(&mut v, 7, "a".to_string(), 100);
    assert_eq!(v.len(), 1);
    assert!(v[0].broadcasted);
    let before: Vec<(usize, String, i64, bool)> = v
        .iter()
        .map(|s| (s.id, s.node_name.clone(), s.silent_until, s.broadcasted))
        .collect();
    receive_broadcast(&mut v, 7, "other".to_string(), 999);
    let after: Vec<(usize, String, i64, bool)> = v
        .iter()
        .map(|s| (s.id, s.node_name.clone(), s.silent_until, s.broadcasted))
        .collect();
    assert_eq!(before, after);
}

#[test]
fn received_records_count_as_already_gossiped() {
    let mut v: Vec<NodeSilence> = Vec::new();
    receive_broadcast(&mut v, 7, "a".to_string(), 100);
    assert!(pending_broadcasts(&v).is_empty());
}

#[test]
fn pending_and_marking() {
    let mut v = vec![rec(1, "a", 100, false), rec(2, "b", 100, true), rec(3, "d", 100, false)];
    let pending = pending_broadcasts(&v);
    assert_eq!(pending.len(), 2);
    assert_eq!(pending[0].id, 1);
    assert_eq!(pending[1].id, 3);
    // One peer accepted the first record only.
    mark_broadcasted(&mut v, &vec![1]);
    assert!(v[0].broadcasted);
    assert!(v[1].broadcasted);
    assert!(!v[2].broadcasted);
    let left = pending_broadcasts(&v);
    assert_eq!(left.len(), 1);
    assert_eq!(left[0].id, 3);
}
