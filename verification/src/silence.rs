//! The silence store.
//!
//! A silence suppresses outbound probing of one named node until a given
//! time. Silences carry a random identifier as idempotency key, and a
//! `broadcasted` flag that is false until this process has handed the
//! record to at least one peer (records that arrive by broadcast count as
//! already gossiped). Expired records are reaped at the top of every poll
//! cycle; expiry is strict, a record whose `silent_until` equals the
//! current time is already expired.
//!
//! Timestamps are Unix seconds (UTC).

use vstd::prelude::*;
use vstd::pervasive::VecAdditionalExecFns;

verus! {

/// A timed suppression of probing for one node.
#[derive(Debug)]
pub struct NodeSilence {
    pub id: usize,
    pub node_name: String,
    pub silent_until: i64,
    pub broadcasted: bool,
}

impl Clone for NodeSilence {
    /// A clone is the same record.
    fn clone(&self) -> (r: Self)
        ensures
            r == *self,
    {
        NodeSilence {
            id: self.id,
            node_name: self.node_name.clone(),
            silent_until: self.silent_until,
            broadcasted: self.broadcasted,
        }
    }
}

/// The records still active at `now`, in store order.
pub open spec fn active_silences(s: Seq<NodeSilence>, now: i64) -> Seq<NodeSilence>
    decreases s.len(),
{
    if s.len() == 0 {
        Seq::empty()
    } else {
        let prefix = active_silences(s.drop_last(), now);
        if s.last().silent_until > now {
            prefix.push(s.last())
        } else {
            prefix
        }
    }
}

/// What reaping keeps, record by record: everything it returns is a
/// still-active record of the store, and every still-active record of
/// the store survives it.
pub proof fn lemma_active_silences_iff(s: Seq<NodeSilence>, now: i64)
    ensures
        forall|i: int|
            0 <= i < active_silences(s, now).len() ==> (#[trigger] active_silences(s, now)[i])
                .silent_until > now && s.contains(active_silences(s, now)[i]),
        forall|i: int|
            0 <= i < s.len() && (#[trigger] s[i]).silent_until > now ==> active_silences(
                s,
                now,
            ).contains(s[i]),
    decreases s.len(),
{
    if s.len() > 0 {
        lemma_active_silences_iff(s.drop_last(), now);
        let a = active_silences(s, now);
        let ap = active_silences(s.drop_last(), now);
        assert forall|i: int|
            0 <= i < a.len() implies (#[trigger] a[i]).silent_until > now && s.contains(
            a[i],
        ) by {
            if i < ap.len() {
                let j = choose|j: int| 0 <= j < s.drop_last().len() && s.drop_last()[j] == ap[i];
                assert(s[j] == ap[i]);
            } else {
                assert(s[s.len() - 1] == a[i]);
            }
        }
        assert forall|i: int|
            0 <= i < s.len() && (#[trigger] s[i]).silent_until > now implies a.contains(
            s[i],
        ) by {
            if i < s.len() - 1 {
                assert(s.drop_last()[i] == s[i]);
                assert(ap.contains(s[i]));
                let j = choose|j: int| 0 <= j < ap.len() && ap[j] == s[i];
                if s.last().silent_until > now {
                    assert(a[j] == s[i]);
                } else {
                    assert(a[j] == s[i]);
                }
            } else {
                assert(a.last() == s[i]);
            }
        }
    }
}

/// Whether some record carries the identifier `id`.
pub open spec fn has_id(s: Seq<NodeSilence>, id: usize) -> bool {
    exists|i: int| 0 <= i < s.len() && s[i].id == id
}

/// Whether `name` is silenced at `now`: some non-expired record names it.
pub open spec fn spec_is_silenced(s: Seq<NodeSilence>, name: Seq<char>, now: i64) -> bool {
    exists|i: int| 0 <= i < s.len() && s[i].node_name@ == name && s[i].silent_until > now
}

/// The records not yet gossiped to any peer, in store order.
pub open spec fn spec_pending(s: Seq<NodeSilence>) -> Seq<NodeSilence>
    decreases s.len(),
{
    if s.len() == 0 {
        Seq::empty()
    } else {
        let prefix = spec_pending(s.drop_last());
        if !s.last().broadcasted {
            prefix.push(s.last())
        } else {
            prefix
        }
    }
}

/// What receiving a gossiped record does to the store: nothing when its
/// identifier is already present, otherwise the record is appended.
pub open spec fn receive_applied(s: Seq<NodeSilence>, rec: NodeSilence) -> Seq<NodeSilence> {
    if has_id(s, rec.id) {
        s
    } else {
        s.push(rec)
    }
}

/// Silence idempotency: receiving the same record twice leaves the store
/// as the first receipt left it.
pub proof fn lemma_receive_idempotent(s: Seq<NodeSilence>, rec: NodeSilence)
    ensures
        receive_applied(receive_applied(s, rec), rec) == receive_applied(s, rec),
{
    if !has_id(s, rec.id) {
        assert(s.push(rec)[s.len() as int].id == rec.id);
    }
}

/// Removes every expired record, keeping the store order.
pub fn reap(silences: &mut Vec<NodeSilence>, now: i64)
    ensures
        final(silences)@ =~= active_silences(old(silences)@, now),
{
    let mut kept: Vec<NodeSilence> = Vec::new();
    let mut i: usize = 0;
    while i < silences.len()
        invariant
            i <= silences@.len(),
            *silences == *old(silences),
            kept@ =~= active_silences(silences@.subrange(0, i as int), now),
        decreases silences@.len() - i,
    {
        proof {
            assert(silences@.subrange(0, i + 1).drop_last() =~= silences@.subrange(0, i as int));
            assert(silences@.subrange(0, i + 1).last() == silences@[i as int]);
        }
        if silences[i].silent_until > now {
            let s = silences[i].clone();
            kept.push(s);
        }
        i = i + 1;
    }
    proof {
        assert(silences@.subrange(0, silences@.len() as int) =~= silences@);
    }
    *silences = kept;
}

/// Whether `name` is silenced at `now`.
pub fn is_silenced(silences: &Vec<NodeSilence>, name: &String, now: i64) -> (r: bool)
    ensures
        r == spec_is_silenced(silences@, name@, now),
{
    let mut i: usize = 0;
    while i < silences.len()
        invariant
            i <= silences@.len(),
            forall|j: int|
                0 <= j < i ==> !((#[trigger] silences@[j]).node_name@ == name@
                    && silences@[j].silent_until > now),
        decreases silences@.len() - i,
    {
        if silences[i].node_name == *name && silences[i].silent_until > now {
            return true;
        }
        i = i + 1;
    }
    false
}

/// Snapshot of the records still waiting to be gossiped.
pub fn pending_broadcasts(silences: &Vec<NodeSilence>) -> (r: Vec<NodeSilence>)
    ensures
        r@ =~= spec_pending(silences@),
{
    let mut out: Vec<NodeSilence> = Vec::new();
    let mut i: usize = 0;
    while i < silences.len()
        invariant
            i <= silences@.len(),
            out@ =~= spec_pending(silences@.subrange(0, i as int)),
        decreases silences@.len() - i,
    {
        proof {
            assert(silences@.subrange(0, i + 1).drop_last() =~= silences@.subrange(0, i as int));
            assert(silences@.subrange(0, i + 1).last() == silences@[i as int]);
        }
        if !silences[i].broadcasted {
            let s = silences[i].clone();
            out.push(s);
        }
        i = i + 1;
    }
    proof {
        assert(silences@.subrange(0, silences@.len() as int) =~= silences@);
    }
    out
}

/// Whether `ids` holds `id`.
fn ids_contain(ids: &Vec<usize>, id: usize) -> (r: bool)
    ensures
        r == ids@.contains(id),
{
    let mut i: usize = 0;
    while i < ids.len()
        invariant
            i <= ids@.len(),
            forall|j: int| 0 <= j < i ==> ids@[j] != id,
        decreases ids@.len() - i,
    {
        if ids[i] == id {
            return true;
        }
        i = i + 1;
    }
    false
}

/// Flips `broadcasted` on every record whose identifier is listed; the
/// gossip loop calls this with the records one peer accepted.
pub fn mark_broadcasted(silences: &mut Vec<NodeSilence>, ids: &Vec<usize>)
    ensures
        final(silences)@.len() == old(silences)@.len(),
        forall|i: int|
            0 <= i < old(silences)@.len() ==> final(silences)@[i] == (if ids@.contains(
                (#[trigger] old(silences)@[i]).id,
            ) {
                (NodeSilence { broadcasted: true, ..old(silences)@[i] })
            } else {
                old(silences)@[i]
            }),
{
    let mut i: usize = 0;
    while i < silences.len()
        invariant
            i <= silences@.len(),
            silences@.len() == old(silences)@.len(),
            forall|j: int| i <= j < silences@.len() ==> silences@[j] == old(silences)@[j],
            forall|j: int|
                0 <= j < i ==> silences@[j] == (if ids@.contains(
                    (#[trigger] old(silences)@[j]).id,
                ) {
                    (NodeSilence { broadcasted: true, ..old(silences)@[j] })
                } else {
                    old(silences)@[j]
                }),
        decreases silences@.len() - i,
    {
        if ids_contain(ids, silences[i].id) {
            let mut rec = silences[i].clone();
            rec.broadcasted = true;
            silences.set(i, rec);
        }
        i = i + 1;
    }
}

/// Receives a gossiped record: a no-op when the identifier is already
/// present, otherwise stored with `broadcasted` already set — the record
/// reached this node, so it has been gossiped.
pub fn receive_broadcast(silences: &mut Vec<NodeSilence>, id: usize, node_name: String,
    silent_until: i64)
    ensures
        final(silences)@ == receive_applied(
            old(silences)@,
            (NodeSilence { id, node_name, silent_until, broadcasted: true }),
        ),
{
    let mut i: usize = 0;
    while i < silences.len()
        invariant
            i <= silences@.len(),
            *silences == *old(silences),
            forall|j: int| 0 <= j < i ==> (#[trigger] silences@[j]).id != id,
        decreases silences@.len() - i,
    {
        if silences[i].id == id {
            proof {
                assert(has_id(silences@, id)) by {
                    assert(silences@[i as int].id == id);
                }
            }
            return ;
        }
        i = i + 1;
    }
    silences.push(NodeSilence { id, node_name, silent_until, broadcasted: true });
}

} // verus!
