//! Per-peer failure tracking.
//!
//! Every peer of the roster has one [`NodeState`]. Probes drive a small
//! state machine: Alive (`fail_count < 3`), Dying (`fail_count >= 3`, no
//! announcer yet) and Dead (`fail_count >= 3` with `announced` set). The
//! invariant [`NodeState::wf`] ties the threshold crossing to the local
//! announcement roll: the roll is set exactly while the counter stands at
//! the threshold, and a full reset clears both together.

use vstd::prelude::*;
use vstd::pervasive::VecAdditionalExecFns;

use crate::DEAD_AFTER;
use crate::entropy::random_below_max;

verus! {

/// What a peer answered when asked whether it also holds a node for dead:
/// the roll it announced for that death, or `None` when its obituary did
/// not list the node.
#[derive(Clone, Debug)]
pub struct DeadConfirmation {
    pub confirmed_roll: Option<usize>,
}

/// Everything this node records about one peer of the roster.
///
/// Timestamps are Unix seconds (UTC). `confirmations` maps a peer name to
/// its vote on this peer's death; the well-formedness predicate keeps the
/// names unique, so the pair vector behaves as a map.
#[derive(Clone, Debug)]
pub struct NodeState {
    pub name: String,
    pub last_poll: Option<i64>,
    pub last_fail: Option<i64>,
    pub fail_count: usize,
    pub confirmations: Vec<(String, DeadConfirmation)>,
    pub announcement_rolls: Vec<(String, usize)>,
    pub local_announcement_roll: Option<usize>,
    pub announced: Option<String>,
}

/// Confirmation keys are unique: at most one vote per peer name.
pub open spec fn confs_wf(c: Seq<(String, DeadConfirmation)>) -> bool {
    forall|i: int, j: int| 0 <= i < j < c.len() ==> c[i].0@ != c[j].0@
}

/// First-match lookup of a vote by peer name.
pub open spec fn conf_lookup(c: Seq<(String, DeadConfirmation)>, from: Seq<char>) -> Option<
    DeadConfirmation,
>
    decreases c.len(),
{
    if c.len() == 0 {
        None
    } else if c[0].0@ == from {
        Some(c[0].1)
    } else {
        conf_lookup(c.drop_first(), from)
    }
}

/// Whether some vote is recorded under `from`.
pub open spec fn conf_has(c: Seq<(String, DeadConfirmation)>, from: Seq<char>) -> bool {
    exists|i: int| 0 <= i < c.len() && c[i].0@ == from
}

/// A missing vote and a `None` lookup are the same thing.
pub proof fn lemma_conf_lookup_none(c: Seq<(String, DeadConfirmation)>, n: Seq<char>)
    ensures
        conf_lookup(c, n) is None <==> !conf_has(c, n),
    decreases c.len(),
{
    if c.len() > 0 {
        lemma_conf_lookup_none(c.drop_first(), n);
        if c[0].0@ != n {
            if conf_has(c, n) {
                let i = choose|i: int| 0 <= i < c.len() && c[i].0@ == n;
                assert(c.drop_first()[i - 1].0@ == n);
            }
            if conf_has(c.drop_first(), n) {
                let i = choose|i: int| 0 <= i < c.drop_first().len() && c.drop_first()[i].0@ == n;
                assert(c[i + 1].0@ == n);
            }
        }
    }
}

/// Overwriting the vote at a unique key changes that key's lookup and no
/// other.
pub proof fn lemma_conf_lookup_update(
    c: Seq<(String, DeadConfirmation)>,
    i: int,
    v: DeadConfirmation,
)
    requires
        confs_wf(c),
        0 <= i < c.len(),
    ensures
        conf_lookup(c.update(i, (c[i].0, v)), c[i].0@) == Some(v),
        forall|n: Seq<char>|
            n != c[i].0@ ==> conf_lookup(c.update(i, (c[i].0, v)), n) == conf_lookup(c, n),
    decreases c.len(),
{
    let c2 = c.update(i, (c[i].0, v));
    if i == 0 {
        assert(c2.drop_first() =~= c.drop_first());
    } else {
        assert(c2[0] == c[0]);
        assert(confs_wf(c.drop_first())) by {
            assert forall|p: int, q: int|
                0 <= p < q < c.drop_first().len() implies c.drop_first()[p].0@
                != c.drop_first()[q].0@ by {
                assert(c[p + 1].0@ != c[q + 1].0@);
            }
        }
        assert(c2.drop_first() =~= c.drop_first().update(i - 1, (c.drop_first()[i - 1].0, v)));
        lemma_conf_lookup_update(c.drop_first(), i - 1, v);
        assert(c[i].0@ != c[0].0@);
        assert forall|n: Seq<char>| n != c[i].0@ implies conf_lookup(c2, n) == conf_lookup(
            c,
            n,
        ) by {
            if c[0].0@ != n {
                assert(conf_lookup(c2.drop_first(), n) == conf_lookup(c.drop_first(), n));
            }
        }
    }
}

/// Appending a vote under a fresh key changes that key's lookup and no
/// other.
pub proof fn lemma_conf_lookup_push(c: Seq<(String, DeadConfirmation)>, f: String,
    v: DeadConfirmation)
    requires
        !conf_has(c, f@),
    ensures
        conf_lookup(c.push((f, v)), f@) == Some(v),
        forall|n: Seq<char>| n != f@ ==> conf_lookup(c.push((f, v)), n) == conf_lookup(c, n),
    decreases c.len(),
{
    let c2 = c.push((f, v));
    if c.len() == 0 {
        assert(c2[0].0@ == f@);
        assert(c2.drop_first() =~= Seq::<(String, DeadConfirmation)>::empty());
        assert forall|n: Seq<char>| n != f@ implies conf_lookup(c2, n) == conf_lookup(c, n) by {
            assert(conf_lookup(c2.drop_first(), n) is None);
        }
    } else {
        assert(c2[0] == c[0]);
        assert(c[0].0@ != f@);
        assert(!conf_has(c.drop_first(), f@)) by {
            if conf_has(c.drop_first(), f@) {
                let i = choose|i: int| 0 <= i < c.drop_first().len() && c.drop_first()[i].0@ == f@;
                assert(c[i + 1].0@ == f@);
            }
        }
        assert(c2.drop_first() =~= c.drop_first().push((f, v)));
        lemma_conf_lookup_push(c.drop_first(), f, v);
        assert forall|n: Seq<char>| n != f@ implies conf_lookup(c2, n) == conf_lookup(c, n) by {
            if c[0].0@ != n {
                assert(conf_lookup(c2.drop_first(), n) == conf_lookup(c.drop_first(), n));
            }
        }
    }
}

impl NodeState {
    /// Dying and Dead both count as "dead" for the obituary exchange.
    pub open spec fn spec_is_dead(&self) -> bool {
        self.fail_count >= DEAD_AFTER
    }

    /// The state invariant. Besides unique confirmation keys it carries
    /// the coupling of counter and roll: the local announcement roll is
    /// set exactly while the failure counter stands at the threshold.
    pub open spec fn wf(&self) -> bool {
        &&& confs_wf(self.confirmations@)
        &&& (self.fail_count >= DEAD_AFTER <==> self.local_announcement_roll is Some)
        &&& self.fail_count <= DEAD_AFTER
        &&& (self.local_announcement_roll matches Some(r) ==> r < usize::MAX)
    }

    /// A fresh entry for a peer that has not been probed yet.
    pub fn new(name: String) -> (r: NodeState)
        ensures
            r.name == name,
            r.last_poll is None,
            r.last_fail is None,
            r.fail_count == 0,
            r.confirmations@ =~= Seq::<(String, DeadConfirmation)>::empty(),
            r.announcement_rolls@ =~= Seq::<(String, usize)>::empty(),
            r.local_announcement_roll is None,
            r.announced is None,
            r.wf(),
    {
        NodeState {
            name,
            last_poll: None,
            last_fail: None,
            fail_count: 0,
            confirmations: Vec::new(),
            announcement_rolls: Vec::new(),
            local_announcement_roll: None,
            announced: None,
        }
    }

    #[verifier::when_used_as_spec(spec_is_dead)]
    pub fn is_dead(&self) -> (r: bool)
        ensures
            r == self.spec_is_dead(),
    {
        self.fail_count >= DEAD_AFTER
    }

    /// Forget everything recorded about the peer except its identity and
    /// the time of the last probe: counter, votes, rolls and announcer all
    /// fall together.
    pub fn reset(&mut self)
        ensures
            final(self).name == old(self).name,
            final(self).last_poll == old(self).last_poll,
            final(self).last_fail is None,
            final(self).fail_count == 0,
            final(self).confirmations@ =~= Seq::<(String, DeadConfirmation)>::empty(),
            final(self).announcement_rolls@ =~= Seq::<(String, usize)>::empty(),
            final(self).local_announcement_roll is None,
            final(self).announced is None,
            final(self).wf(),
    {
        self.fail_count = 0;
        self.confirmations.clear();
        self.announcement_rolls.clear();
        self.local_announcement_roll = None;
        self.last_fail = None;
        self.announced = None;
    }
}

/// How one failed probe at time `at` with candidate roll `roll` transforms
/// a peer entry: the counter advances while below the threshold, the roll
/// is kept exactly when this failure crosses it, and nothing else moves.
pub open spec fn failed_probe_applied(o: NodeState, n: NodeState, at: i64, roll: usize) -> bool {
    &&& n.name == o.name
    &&& n.last_poll == Some(at)
    &&& n.last_fail == Some(at)
    &&& n.fail_count == if o.fail_count < DEAD_AFTER {
        o.fail_count + 1
    } else {
        o.fail_count as int
    }
    &&& n.local_announcement_roll == if o.fail_count + 1 == DEAD_AFTER {
        Some(roll)
    } else {
        o.local_announcement_roll
    }
    &&& n.announced == o.announced
    &&& n.confirmations == o.confirmations
    &&& n.announcement_rolls == o.announcement_rolls
}

/// Like [`failed_probe_applied`], for a roll whose value is not pinned
/// down: all the caller may know of a freshly drawn roll is that it lies
/// below the maximum.
pub open spec fn failed_probe_recorded(o: NodeState, n: NodeState, at: i64) -> bool {
    &&& n.name == o.name
    &&& n.last_poll == Some(at)
    &&& n.last_fail == Some(at)
    &&& n.fail_count == if o.fail_count < DEAD_AFTER {
        o.fail_count + 1
    } else {
        o.fail_count as int
    }
    &&& (o.fail_count + 1 == DEAD_AFTER ==> (n.local_announcement_roll matches Some(r) && r
        < usize::MAX))
    &&& (o.fail_count + 1 != DEAD_AFTER ==> n.local_announcement_roll
        == o.local_announcement_roll)
    &&& n.announced == o.announced
    &&& n.confirmations == o.confirmations
    &&& n.announcement_rolls == o.announcement_rolls
}

/// How one successful probe at time `at` transforms a peer entry: the poll
/// time is noted and the entry is fully reset.
pub open spec fn successful_probe_applied(o: NodeState, n: NodeState, at: i64) -> bool {
    &&& n.name == o.name
    &&& n.last_poll == Some(at)
    &&& n.last_fail is None
    &&& n.fail_count == 0
    &&& n.confirmations@ =~= Seq::<(String, DeadConfirmation)>::empty()
    &&& n.announcement_rolls@ =~= Seq::<(String, usize)>::empty()
    &&& n.local_announcement_roll is None
    &&& n.announced is None
}

/// Whether a successful probe of this entry is a recovery this node owes
/// an announcement for: the peer was dead and this node took the death's
/// announcement on itself.
pub open spec fn recovery_to_announce(o: NodeState, me: Seq<char>) -> bool {
    o.spec_is_dead() && (o.announced matches Some(a) && a@ == me)
}

impl NodeState {
    /// One failed probe, with the roll to keep if this failure crosses the
    /// threshold. A failing probe never touches `announced`.
    pub fn record_failure(&mut self, at: i64, roll: usize)
        requires
            old(self).wf(),
            roll < usize::MAX,
        ensures
            failed_probe_applied(*old(self), *final(self), at, roll),
            final(self).wf(),
    {
        self.last_poll = Some(at);
        self.last_fail = Some(at);
        if self.fail_count < DEAD_AFTER {
            self.fail_count = self.fail_count + 1;
            if self.fail_count >= DEAD_AFTER {
                self.local_announcement_roll = Some(roll);
            }
        }
    }

    /// One successful probe: notes the poll time, reports whether this
    /// node owes a recovery announcement, and resets the entry.
    pub fn record_success(&mut self, at: i64, me: &String) -> (recovered: bool)
        requires
            old(self).wf(),
        ensures
            recovered == recovery_to_announce(*old(self), me@),
            successful_probe_applied(*old(self), *final(self), at),
            final(self).wf(),
    {
        let recovered = self.is_dead() && match &self.announced {
            Some(a) => *a == *me,
            None => false,
        };
        self.reset();
        self.last_poll = Some(at);
        recovered
    }

    /// Applies one probe outcome, drawing the roll from the process's
    /// entropy source at the moment the threshold is crossed. Whatever the
    /// roll came out as, a failing probe never sets `announced`, and a
    /// successful probe always clears it.
    pub fn record_probe(&mut self, failing: bool, at: i64, me: &String) -> (recovered: bool)
        requires
            old(self).wf(),
        ensures
            failing ==> !recovered && failed_probe_recorded(*old(self), *final(self), at),
            !failing ==> recovered == recovery_to_announce(*old(self), me@)
                && successful_probe_applied(*old(self), *final(self), at),
            final(self).wf(),
    {
        if failing {
            let roll = random_below_max();
            self.record_failure(at, roll);
            false
        } else {
            self.record_success(at, me)
        }
    }

    /// Stores or overwrites the vote of peer `from` on this death. Keys
    /// stay unique; every other vote is untouched.
    pub fn set_confirmation(&mut self, from: &String, v: DeadConfirmation)
        requires
            confs_wf(old(self).confirmations@),
        ensures
            confs_wf(final(self).confirmations@),
            conf_lookup(final(self).confirmations@, from@) == Some(v),
            forall|n: Seq<char>|
                n != from@ ==> conf_lookup(final(self).confirmations@, n) == conf_lookup(
                    old(self).confirmations@,
                    n,
                ),
            final(self).name == old(self).name,
            final(self).last_poll == old(self).last_poll,
            final(self).last_fail == old(self).last_fail,
            final(self).fail_count == old(self).fail_count,
            final(self).announcement_rolls == old(self).announcement_rolls,
            final(self).local_announcement_roll == old(self).local_announcement_roll,
            final(self).announced == old(self).announced,
            conf_has(old(self).confirmations@, from@) ==> exists|i: int|
                0 <= i < old(self).confirmations@.len()
                && old(self).confirmations@[i].0@ == from@
                && final(self).confirmations@ =~= old(self).confirmations@.update(
                    i,
                    (old(self).confirmations@[i].0, v),
                ),
            !conf_has(old(self).confirmations@, from@) ==> final(self).confirmations@
                =~= old(self).confirmations@.push((*from, v)),
    {
        let n = self.confirmations.len();
        let mut i: usize = 0;
        while i < n
            invariant
                n == self.confirmations@.len(),
                i <= n,
                confs_wf(self.confirmations@),
                forall|j: int| 0 <= j < i ==> self.confirmations@[j].0@ != from@,
                *self == *old(self),
            decreases n - i,
        {
            if self.confirmations[i].0 == *from {
                let name = self.confirmations[i].0.clone();
                let ghost cpre = self.confirmations@;
                self.confirmations.set(i, (name, v));
                proof {
                    assert(self.confirmations@ =~= cpre.update(i as int, (cpre[i as int].0, v)));
                    lemma_conf_lookup_update(cpre, i as int, v);
                    assert(cpre[i as int].0@ == from@);
                    assert(confs_wf(self.confirmations@)) by {
                        assert forall|p: int, q: int|
                            0 <= p < q < self.confirmations@.len() implies self.confirmations@[p].0@
                            != self.confirmations@[q].0@ by {
                            assert(cpre[p].0@ != cpre[q].0@);
                        }
                    }
                }
                return ;
            }
            i = i + 1;
        }
        let fresh = (*from).clone();
        self.confirmations.push((fresh, v));
        proof {
            assert(!conf_has(old(self).confirmations@, from@));
            lemma_conf_lookup_push(old(self).confirmations@, fresh, v);
            assert(confs_wf(self.confirmations@)) by {
                assert forall|p: int, q: int|
                    0 <= p < q < self.confirmations@.len() implies self.confirmations@[p].0@
                    != self.confirmations@[q].0@ by {
                    if q < self.confirmations@.len() - 1 {
                        assert(old(self).confirmations@[p].0@ != old(self).confirmations@[q].0@);
                    }
                }
            }
        }
    }
}

} // verus!
