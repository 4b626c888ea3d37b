//! The process-wide grid state and the per-cycle decisions.
//!
//! One structure holds everything mutable the protocol owns: the peer
//! entries and the silence store. The scheduler and the endpoint handlers
//! share it behind one lock; every decision they take — whom to probe,
//! how to book a probe's outcome, how to merge obituaries, whom to
//! elect — is a function here, so the surrounding process only moves
//! bytes and performs the chosen actions.

use vstd::prelude::*;

use crate::config::NodeConfig;
use crate::election::{election_due, election_winner, quorum_reached, run_election};
use crate::entropy::random_below_max;
use crate::order::{lemma_lex_asym, lemma_lex_trans, lemma_lex_trichotomy, lex_less, str_lt};
use crate::timeparse::{spec_until_time, try_parse_until_time};
use crate::silence::{
    NodeSilence, active_silences, is_silenced, reap, receive_applied, receive_broadcast,
    spec_is_silenced,
};
use crate::tracker::{
    DeadConfirmation, NodeState, conf_has, conf_lookup, confs_wf, failed_probe_recorded,
    recovery_to_announce, successful_probe_applied,
};
use crate::wire::{
    DeadNodeResponse, GridNodeResponse, GridNodeStatus, GridResponse, ObituaryResponse,
    SilenceBroadcastRequest, SilenceResponse, api_row, spec_status,
};

verus! {

/// The process-wide mutable state: one entry per roster peer, and the
/// silence store.
pub struct StateInner {
    pub node_state: Vec<NodeState>,
    pub silences: Vec<NodeSilence>,
}

impl StateInner {
    /// Every peer entry is well-formed.
    pub open spec fn wf(&self) -> bool {
        forall|i: int|
            0 <= i < self.node_state@.len() ==> (#[trigger] self.node_state@[i]).wf()
    }

    /// An empty state: no peers seeded yet, no silences.
    pub fn new() -> (r: StateInner)
        ensures
            r.node_state@.len() == 0,
            r.silences@.len() == 0,
            r.wf(),
    {
        StateInner { node_state: Vec::new(), silences: Vec::new() }
    }

    /// Seeds one fresh entry per roster peer.
    pub fn init_nodes(&mut self, roster: &Vec<NodeConfig>)
        requires
            old(self).node_state@.len() == 0,
        ensures
            final(self).wf(),
            final(self).silences == old(self).silences,
            final(self).node_state@.len() == roster@.len(),
            forall|i: int|
                0 <= i < roster@.len() ==> {
                    let ns = #[trigger] final(self).node_state@[i];
                    &&& ns.name@ == roster@[i].name@
                    &&& ns.fail_count == 0
                    &&& ns.last_poll is None
                    &&& ns.last_fail is None
                    &&& ns.local_announcement_roll is None
                    &&& ns.announced is None
                    &&& ns.confirmations@.len() == 0
                },
    {
        let mut i: usize = 0;
        while i < roster.len()
            invariant
                i <= roster@.len(),
                self.silences == old(self).silences,
                self.node_state@.len() == i,
                forall|j: int|
                    0 <= j < i ==> {
                        let ns = #[trigger] self.node_state@[j];
                        &&& ns.wf()
                        &&& ns.name@ == roster@[j].name@
                        &&& ns.fail_count == 0
                        &&& ns.last_poll is None
                        &&& ns.last_fail is None
                        &&& ns.local_announcement_roll is None
                        &&& ns.announced is None
                        &&& ns.confirmations@.len() == 0
                    },
            decreases roster@.len() - i,
        {
            let name = roster[i].name.clone();
            self.node_state.push(NodeState::new(name));
            i = i + 1;
        }
    }

    /// Reaps the expired silences; the top of every poll cycle.
    pub fn reap_silences(&mut self, now: i64)
        ensures
            final(self).node_state == old(self).node_state,
            final(self).silences@ =~= active_silences(old(self).silences@, now),
    {
        reap(&mut self.silences, now);
    }

    /// Books a gossiped silence: a no-op when its identifier is already
    /// known, otherwise stored as already broadcast.
    pub fn receive_silence_broadcast(&mut self, req: SilenceBroadcastRequest)
        ensures
            final(self).node_state == old(self).node_state,
            final(self).silences@ == receive_applied(
                old(self).silences@,
                (NodeSilence {
                    id: req.id,
                    node_name: req.node_name,
                    silent_until: req.silent_until,
                    broadcasted: true,
                }),
            ),
    {
        receive_broadcast(&mut self.silences, req.id, req.node_name, req.silent_until);
    }
}

/// The roster entries to probe this cycle: every peer not silenced now,
/// in roster order.
pub open spec fn spec_probe_list(
    roster: Seq<NodeConfig>,
    sil: Seq<NodeSilence>,
    now: i64,
) -> Seq<NodeConfig>
    decreases roster.len(),
{
    if roster.len() == 0 {
        Seq::empty()
    } else {
        let prefix = spec_probe_list(roster.drop_last(), sil, now);
        if spec_is_silenced(sil, roster.last().name@, now) {
            prefix
        } else {
            prefix.push(roster.last())
        }
    }
}

/// A silenced peer is never on the probe list.
pub proof fn lemma_probe_list_unsilenced(roster: Seq<NodeConfig>, sil: Seq<NodeSilence>, now: i64)
    ensures
        forall|i: int|
            0 <= i < spec_probe_list(roster, sil, now).len() ==> !spec_is_silenced(
                sil,
                (#[trigger] spec_probe_list(roster, sil, now)[i]).name@,
                now,
            ),
    decreases roster.len(),
{
    if roster.len() > 0 {
        lemma_probe_list_unsilenced(roster.drop_last(), sil, now);
    }
}

/// Silences suppress probes and nothing else does: every roster peer
/// that is not silenced is on the probe list.
pub proof fn lemma_probe_list_complete(roster: Seq<NodeConfig>, sil: Seq<NodeSilence>, now: i64)
    ensures
        forall|i: int|
            0 <= i < roster.len() && !spec_is_silenced(sil, (#[trigger] roster[i]).name@, now)
                ==> spec_probe_list(roster, sil, now).contains(roster[i]),
    decreases roster.len(),
{
    if roster.len() > 0 {
        lemma_probe_list_complete(roster.drop_last(), sil, now);
        let p = spec_probe_list(roster, sil, now);
        let pp = spec_probe_list(roster.drop_last(), sil, now);
        assert forall|i: int|
            0 <= i < roster.len() && !spec_is_silenced(sil, (#[trigger] roster[i]).name@, now)
            implies p.contains(roster[i]) by {
            if i < roster.len() - 1 {
                assert(roster.drop_last()[i] == roster[i]);
                assert(pp.contains(roster[i]));
                let j = choose|j: int| 0 <= j < pp.len() && pp[j] == roster[i];
                assert(p[j] == roster[i]);
            } else {
                assert(p.last() == roster[i]);
            }
        }
    }
}

/// Picks the peers to probe: the roster minus the silenced. No silenced
/// peer is probed this cycle.
pub fn probe_targets(roster: &Vec<NodeConfig>, silences: &Vec<NodeSilence>, now: i64) -> (r: Vec<
    NodeConfig,
>)
    ensures
        r@ =~= spec_probe_list(roster@, silences@, now),
        forall|i: int|
            0 <= i < r@.len() ==> !spec_is_silenced(silences@, (#[trigger] r@[i]).name@, now),
{
    let mut out: Vec<NodeConfig> = Vec::new();
    let mut i: usize = 0;
    while i < roster.len()
        invariant
            i <= roster@.len(),
            out@ =~= spec_probe_list(roster@.subrange(0, i as int), silences@, now),
        decreases roster@.len() - i,
    {
        proof {
            assert(roster@.subrange(0, i + 1).drop_last() =~= roster@.subrange(0, i as int));
            assert(roster@.subrange(0, i + 1).last() == roster@[i as int]);
        }
        if !is_silenced(silences, &roster[i].name, now) {
            let n = roster[i].clone();
            out.push(n);
        }
        i = i + 1;
    }
    proof {
        assert(roster@.subrange(0, roster@.len() as int) =~= roster@);
        lemma_probe_list_unsilenced(roster@, silences@, now);
    }
    out
}

/// Index of the first entry with the given name, or a negative value.
pub open spec fn find_node(s: Seq<NodeState>, name: Seq<char>) -> int
    decreases s.len(),
{
    if s.len() == 0 {
        -1
    } else if s[0].name@ == name {
        0
    } else {
        let r = find_node(s.drop_first(), name);
        if r < 0 {
            -1
        } else {
            r + 1
        }
    }
}

/// A non-negative find is a valid index and lands on the name.
pub proof fn lemma_find_node_props(s: Seq<NodeState>, name: Seq<char>)
    ensures
        find_node(s, name) >= 0 ==> 0 <= find_node(s, name) < s.len() && s[find_node(
            s,
            name,
        )].name@ == name,
    decreases s.len(),
{
    if s.len() > 0 && s[0].name@ != name {
        lemma_find_node_props(s.drop_first(), name);
    }
}

/// When the first `i` entries miss the name and the `i`-th carries it,
/// the find lands exactly there.
proof fn lemma_find_node_hit(s: Seq<NodeState>, name: Seq<char>, i: int)
    requires
        0 <= i < s.len(),
        forall|j: int| 0 <= j < i ==> (#[trigger] s[j]).name@ != name,
        s[i].name@ == name,
    ensures
        find_node(s, name) == i,
    decreases i,
{
    if i > 0 {
        lemma_find_node_hit(s.drop_first(), name, i - 1);
    }
}

/// When no entry carries the name, the find comes back negative.
proof fn lemma_find_node_miss(s: Seq<NodeState>, name: Seq<char>)
    requires
        forall|j: int| 0 <= j < s.len() ==> (#[trigger] s[j]).name@ != name,
    ensures
        find_node(s, name) < 0,
    decreases s.len(),
{
    if s.len() > 0 {
        lemma_find_node_miss(s.drop_first(), name);
    }
}

/// Finds the first entry with the given name.
fn find_node_index(nodes: &Vec<NodeState>, name: &String) -> (r: Option<usize>)
    ensures
        match r {
            Some(k) => k as int == find_node(nodes@, name@),
            None => find_node(nodes@, name@) < 0,
        },
{
    let mut i: usize = 0;
    while i < nodes.len()
        invariant
            i <= nodes@.len(),
            forall|j: int| 0 <= j < i ==> (#[trigger] nodes@[j]).name@ != name@,
        decreases nodes@.len() - i,
    {
        if nodes[i].name == *name {
            proof {
                lemma_find_node_hit(nodes@, name@, i as int);
            }
            return Some(i);
        }
        i = i + 1;
    }
    proof {
        lemma_find_node_miss(nodes@, name@);
    }
    None
}

impl StateInner {
    /// Applies one probe outcome to the entry of `name` (first match; an
    /// unknown name changes nothing). Returns whether this node owes a
    /// recovery announcement for the peer.
    #[verifier::spinoff_prover]
    pub fn apply_probe(&mut self, name: &String, failing: bool, at: i64, me: &String) -> (recovered:
        bool)
        requires
            old(self).wf(),
        ensures
            final(self).wf(),
            final(self).silences == old(self).silences,
            final(self).node_state@.len() == old(self).node_state@.len(),
            ({
                let k = find_node(old(self).node_state@, name@);
                if k < 0 {
                    final(self).node_state@ == old(self).node_state@ && !recovered
                } else {
                    &&& forall|j: int|
                        0 <= j < old(self).node_state@.len() && j != k
                            ==> final(self).node_state@[j] == old(self).node_state@[j]
                    &&& failing ==> !recovered && failed_probe_recorded(
                        old(self).node_state@[k],
                        final(self).node_state@[k],
                        at,
                    )
                    &&& !failing ==> recovered == recovery_to_announce(
                        old(self).node_state@[k],
                        me@,
                    ) && successful_probe_applied(
                        old(self).node_state@[k],
                        final(self).node_state@[k],
                        at,
                    )
                }
            }),
    {
        match find_node_index(&self.node_state, name) {
            Some(k) => {
                proof {
                    lemma_find_node_props(self.node_state@, name@);
                    assert(self.node_state@[k as int].wf());
                }
                let ns = vstd::std_specs::vec::vec_index_mut(&mut self.node_state, k);
                ns.record_probe(failing, at, me)
            },
            None => false,
        }
    }
}

/// The roll a peer's obituary lists for `name`; the first entry wins.
pub open spec fn obit_lookup(resp: Seq<DeadNodeResponse>, name: Seq<char>) -> Option<usize>
    decreases resp.len(),
{
    if resp.len() == 0 {
        None
    } else if resp[0].name@ == name {
        Some(resp[0].roll)
    } else {
        obit_lookup(resp.drop_first(), name)
    }
}

/// Looks a name up in a received obituary.
fn obit_find(resp: &ObituaryResponse, name: &String) -> (r: Option<usize>)
    ensures
        r == obit_lookup(resp.dead_nodes@, name@),
{
    let mut i: usize = 0;
    proof {
        assert(resp.dead_nodes@.skip(0) =~= resp.dead_nodes@);
    }
    while i < resp.dead_nodes.len()
        invariant
            i <= resp.dead_nodes@.len(),
            obit_lookup(resp.dead_nodes@, name@) == obit_lookup(
                resp.dead_nodes@.skip(i as int),
                name@,
            ),
        decreases resp.dead_nodes@.len() - i,
    {
        proof {
            assert(resp.dead_nodes@.skip(i as int)[0] == resp.dead_nodes@[i as int]);
            assert(resp.dead_nodes@.skip(i as int).drop_first() =~= resp.dead_nodes@.skip(
                i + 1 as int,
            ));
        }
        if resp.dead_nodes[i].name == *name {
            return Some(resp.dead_nodes[i].roll);
        }
        i = i + 1;
    }
    proof {
        assert(resp.dead_nodes@.skip(resp.dead_nodes@.len() as int).len() == 0);
    }
    None
}

/// Whether `from` already voted on this entry.
fn has_conf_from(ns: &NodeState, from: &String) -> (r: bool)
    ensures
        r == conf_has(ns.confirmations@, from@),
{
    let mut i: usize = 0;
    while i < ns.confirmations.len()
        invariant
            i <= ns.confirmations@.len(),
            forall|j: int| 0 <= j < i ==> (#[trigger] ns.confirmations@[j]).0@ != from@,
        decreases ns.confirmations@.len() - i,
    {
        if ns.confirmations[i].0 == *from {
            proof {
                assert(ns.confirmations@[i as int].0@ == from@);
            }
            return true;
        }
        i = i + 1;
    }
    false
}

/// One entry after a vote from `from` was booked: nothing but the vote
/// moved, the keys stay unique, and every other peer's vote is untouched.
pub open spec fn confirmation_set(
    o: NodeState,
    n: NodeState,
    from: Seq<char>,
    v: DeadConfirmation,
) -> bool {
    &&& n.name == o.name
    &&& n.last_poll == o.last_poll
    &&& n.last_fail == o.last_fail
    &&& n.fail_count == o.fail_count
    &&& n.announcement_rolls == o.announcement_rolls
    &&& n.local_announcement_roll == o.local_announcement_roll
    &&& n.announced == o.announced
    &&& confs_wf(n.confirmations@)
    &&& conf_lookup(n.confirmations@, from) == Some(v)
    &&& forall|nm: Seq<char>|
        nm != from ==> conf_lookup(n.confirmations@, nm) == conf_lookup(o.confirmations@, nm)
}

/// What merging the obituary of `from` does to one entry: a living peer
/// is left alone; a dead one that the obituary lists gets `from`'s roll
/// as a confirming vote; a dead one it does not list gets a denying vote,
/// unless `from` voted on it before.
pub open spec fn obituary_applied_entry(
    o: NodeState,
    n: NodeState,
    from: Seq<char>,
    resp: Seq<DeadNodeResponse>,
) -> bool {
    if !o.spec_is_dead() {
        n == o
    } else {
        match obit_lookup(resp, o.name@) {
            Some(roll) => confirmation_set(
                o,
                n,
                from,
                (DeadConfirmation { confirmed_roll: Some(roll) }),
            ),
            None => if conf_has(o.confirmations@, from) {
                n == o
            } else {
                confirmation_set(o, n, from, (DeadConfirmation { confirmed_roll: None }))
            },
        }
    }
}

impl StateInner {
    /// Merges one peer's obituary into every dead entry.
    pub fn apply_obituary(&mut self, from: &String, resp: &ObituaryResponse)
        requires
            old(self).wf(),
        ensures
            final(self).wf(),
            final(self).silences == old(self).silences,
            final(self).node_state@.len() == old(self).node_state@.len(),
            forall|i: int|
                0 <= i < old(self).node_state@.len() ==> obituary_applied_entry(
                    old(self).node_state@[i],
                    #[trigger] final(self).node_state@[i],
                    from@,
                    resp.dead_nodes@,
                ),
    {
        let n = self.node_state.len();
        let mut i: usize = 0;
        while i < n
            invariant
                i <= n,
                n == self.node_state@.len(),
                self.node_state@.len() == old(self).node_state@.len(),
                self.silences == old(self).silences,
                self.wf(),
                forall|j: int|
                    0 <= j < i ==> obituary_applied_entry(
                        old(self).node_state@[j],
                        #[trigger] self.node_state@[j],
                        from@,
                        resp.dead_nodes@,
                    ),
                forall|j: int|
                    i <= j < n ==> #[trigger] self.node_state@[j] == old(self).node_state@[j],
            decreases n - i,
        {
            if self.node_state[i].is_dead() {
                match obit_find(resp, &self.node_state[i].name) {
                    Some(roll) => {
                        let ns = vstd::std_specs::vec::vec_index_mut(&mut self.node_state, i);
                        ns.set_confirmation(from, DeadConfirmation { confirmed_roll: Some(roll) });
                    },
                    None => {
                        if !has_conf_from(&self.node_state[i], from) {
                            let ns = vstd::std_specs::vec::vec_index_mut(&mut self.node_state, i);
                            ns.set_confirmation(from, DeadConfirmation { confirmed_roll: None });
                        }
                    },
                }
            }
            i = i + 1;
        }
    }

    /// Whether any peer is dying — only then is the obituary exchange
    /// run at all.
    pub fn any_dying(&self) -> (r: bool)
        ensures
            r == exists|i: int|
                0 <= i < self.node_state@.len() && (#[trigger] self.node_state@[i]).spec_is_dead()
                    && self.node_state@[i].announced is None,
    {
        let mut i: usize = 0;
        while i < self.node_state.len()
            invariant
                i <= self.node_state@.len(),
                forall|j: int|
                    0 <= j < i ==> !((#[trigger] self.node_state@[j]).spec_is_dead()
                        && self.node_state@[j].announced is None),
            decreases self.node_state@.len() - i,
        {
            if self.node_state[i].is_dead() && self.node_state[i].announced.is_none() {
                return true;
            }
            i = i + 1;
        }
        false
    }
}

/// Whether some dead entry carries this name.
pub open spec fn spec_dead_name(s: Seq<NodeState>, name: Seq<char>) -> bool {
    exists|i: int|
        0 <= i < s.len() && (#[trigger] s[i]).name@ == name && s[i].spec_is_dead()
}

/// Whether `name` belongs to a dead entry.
fn is_dead_name(nodes: &Vec<NodeState>, name: &String) -> (r: bool)
    ensures
        r == spec_dead_name(nodes@, name@),
{
    let mut i: usize = 0;
    while i < nodes.len()
        invariant
            i <= nodes@.len(),
            forall|j: int|
                0 <= j < i ==> !((#[trigger] nodes@[j]).name@ == name@
                    && nodes@[j].spec_is_dead()),
        decreases nodes@.len() - i,
    {
        if nodes[i].name == *name && nodes[i].is_dead() {
            return true;
        }
        i = i + 1;
    }
    false
}

/// The peers asked for their obituary: every roster entry that is not
/// itself among our dead, in roster order.
pub open spec fn spec_obituary_targets(
    roster: Seq<NodeConfig>,
    s: Seq<NodeState>,
) -> Seq<NodeConfig>
    decreases roster.len(),
{
    if roster.len() == 0 {
        Seq::empty()
    } else {
        let prefix = spec_obituary_targets(roster.drop_last(), s);
        if spec_dead_name(s, roster.last().name@) {
            prefix
        } else {
            prefix.push(roster.last())
        }
    }
}

impl StateInner {
    /// Picks the peers whose obituary to fetch: a peer this node holds
    /// for dead is not asked.
    pub fn obituary_targets(&self, roster: &Vec<NodeConfig>) -> (r: Vec<NodeConfig>)
        ensures
            r@ =~= spec_obituary_targets(roster@, self.node_state@),
    {
        let mut out: Vec<NodeConfig> = Vec::new();
        let mut i: usize = 0;
        while i < roster.len()
            invariant
                i <= roster@.len(),
                out@ =~= spec_obituary_targets(roster@.subrange(0, i as int), self.node_state@),
            decreases roster@.len() - i,
        {
            proof {
                assert(roster@.subrange(0, i + 1).drop_last() =~= roster@.subrange(0, i as int));
                assert(roster@.subrange(0, i + 1).last() == roster@[i as int]);
            }
            if !is_dead_name(&self.node_state, &roster[i].name) {
                let n = roster[i].clone();
                out.push(n);
            }
            i = i + 1;
        }
        proof {
            assert(roster@.subrange(0, roster@.len() as int) =~= roster@);
        }
        out
    }
}

/// Whether the election acts on this entry and crowns this very node.
pub open spec fn elects_here(o: NodeState, me: Seq<char>) -> bool {
    election_due(o) && quorum_reached(o.confirmations@) && election_winner(
        o.confirmations@,
        me,
        o.local_announcement_roll->0 as int,
    ).0 == me
}

/// One entry after its election ran: when it was dying and the votes
/// reached quorum, the winner's name stands in `announced`; otherwise the
/// entry is as it was. Nothing else moves.
pub open spec fn election_applied_entry(o: NodeState, n: NodeState, me: Seq<char>) -> bool {
    &&& n.name == o.name
    &&& n.last_poll == o.last_poll
    &&& n.last_fail == o.last_fail
    &&& n.fail_count == o.fail_count
    &&& n.confirmations == o.confirmations
    &&& n.announcement_rolls == o.announcement_rolls
    &&& n.local_announcement_roll == o.local_announcement_roll
    &&& (if election_due(o) && quorum_reached(o.confirmations@) {
        n.announced matches Some(a) && a@ == election_winner(
            o.confirmations@,
            me,
            o.local_announcement_roll->0 as int,
        ).0
    } else {
        n.announced == o.announced
    })
}

/// Announcement pedigree: when an election step writes this node's own
/// name as a peer's announcer, the election over the entry's recorded
/// votes did crown this node. Probes never set `announced` and a
/// successful probe clears it, so a standing `announced == me` always
/// traces back to such a step.
pub proof fn lemma_announced_means_winner(o: NodeState, n: NodeState, me: Seq<char>)
    requires
        election_applied_entry(o, n, me),
        o.announced is None,
        n.announced matches Some(a) && a@ == me,
    ensures
        election_due(o),
        quorum_reached(o.confirmations@),
        election_winner(o.confirmations@, me, o.local_announcement_roll->0 as int).0 == me,
{
}

/// The names this node owes a death announcement for, in entry order:
/// one per entry whose election it won this cycle.
pub open spec fn spec_announcements(s: Seq<NodeState>, me: Seq<char>) -> Seq<Seq<char>>
    decreases s.len(),
{
    if s.len() == 0 {
        Seq::empty()
    } else {
        let prefix = spec_announcements(s.drop_last(), me);
        if elects_here(s.last(), me) {
            prefix.push(s.last().name@)
        } else {
            prefix
        }
    }
}

impl StateInner {
    /// Runs the election over every entry and returns the names of the
    /// peers whose death this node is to announce.
    pub fn run_elections(&mut self, me: &String) -> (announce: Vec<String>)
        requires
            old(self).wf(),
        ensures
            final(self).wf(),
            final(self).silences == old(self).silences,
            final(self).node_state@.len() == old(self).node_state@.len(),
            forall|i: int|
                0 <= i < old(self).node_state@.len() ==> election_applied_entry(
                    old(self).node_state@[i],
                    #[trigger] final(self).node_state@[i],
                    me@,
                ),
            announce@.map_values(|s: String| s@) =~= spec_announcements(
                old(self).node_state@,
                me@,
            ),
    {
        let mut announce: Vec<String> = Vec::new();
        let n = self.node_state.len();
        let mut i: usize = 0;
        while i < n
            invariant
                i <= n,
                n == self.node_state@.len(),
                self.node_state@.len() == old(self).node_state@.len(),
                self.silences == old(self).silences,
                self.wf(),
                forall|j: int|
                    0 <= j < i ==> election_applied_entry(
                        old(self).node_state@[j],
                        #[trigger] self.node_state@[j],
                        me@,
                    ),
                forall|j: int|
                    i <= j < n ==> #[trigger] self.node_state@[j] == old(self).node_state@[j],
                announce@.map_values(|s: String| s@) =~= spec_announcements(
                    old(self).node_state@.subrange(0, i as int),
                    me@,
                ),
            decreases n - i,
        {
            proof {
                assert(old(self).node_state@.subrange(0, i + 1).drop_last() =~= old(
                    self,
                ).node_state@.subrange(0, i as int));
                assert(old(self).node_state@.subrange(0, i + 1).last() == old(
                    self,
                ).node_state@[i as int]);
            }
            let ns = vstd::std_specs::vec::vec_index_mut(&mut self.node_state, i);
            let won = run_election(ns, me);
            if won {
                let nm = self.node_state[i].name.clone();
                announce.push(nm);
            }
            i = i + 1;
        }
        proof {
            assert(old(self).node_state@.subrange(0, n as int) =~= old(self).node_state@);
        }
        announce
    }
}

/// Whether a request's secret matches the configured one.
pub fn secret_matches(key: &String, secret: &String) -> (r: bool)
    ensures
        r == (key@ == secret@),
{
    *key == *secret
}

/// Whether `tgt` is a known name: a roster peer's, or this node's own.
pub open spec fn spec_known_target(s: Seq<NodeState>, tgt: Seq<char>, me: Seq<char>) -> bool {
    tgt == me || exists|i: int| 0 <= i < s.len() && (#[trigger] s[i]).name@ == tgt
}

/// Decides [`spec_known_target`].
fn known_target(nodes: &Vec<NodeState>, tgt: &String, me: &String) -> (r: bool)
    ensures
        r == spec_known_target(nodes@, tgt@, me@),
{
    if *tgt == *me {
        return true;
    }
    let mut i: usize = 0;
    while i < nodes.len()
        invariant
            i <= nodes@.len(),
            forall|j: int| 0 <= j < i ==> (#[trigger] nodes@[j]).name@ != tgt@,
        decreases nodes@.len() - i,
    {
        if nodes[i].name == *tgt {
            return true;
        }
        i = i + 1;
    }
    false
}

/// Why the silence endpoint refuses a request.
#[derive(Debug, Clone, Copy, PartialEq, Eq, Structural)]
pub enum SilenceError {
    InvalidSecret,
    MalformedTime,
    UnknownTarget,
}

impl StateInner {
    /// Serves the silence endpoint: checks the secret, reads the expiry
    /// argument, defaults the target to this node, refuses names nobody
    /// carries, and stores the silence un-broadcast under a fresh random
    /// identifier. The stored record and the answer name the same target
    /// and expiry.
    pub fn handle_silence(
        &mut self,
        me: &String,
        secret: &String,
        key: &String,
        time: &String,
        target: Option<String>,
        now: i64,
    ) -> (r: Result<SilenceResponse, SilenceError>)
        ensures
            final(self).node_state == old(self).node_state,
            ({
                let tgt = (match target {
                    Some(t) => t,
                    None => *me,
                });
                let until = spec_until_time(time@, now);
                if key@ != secret@ {
                    (r matches Err(e) && e is InvalidSecret) && final(self).silences == old(
                        self,
                    ).silences
                } else if until is None {
                    (r matches Err(e) && e is MalformedTime) && final(self).silences == old(
                        self,
                    ).silences
                } else if !spec_known_target(old(self).node_state@, tgt@, me@) {
                    (r matches Err(e) && e is UnknownTarget) && final(self).silences == old(
                        self,
                    ).silences
                } else {
                    &&& r matches Ok(resp) && resp.name@ == tgt@ && resp.silent_until == until->0
                    &&& final(self).silences@.len() == old(self).silences@.len() + 1
                    &&& final(self).silences@.subrange(0, old(self).silences@.len() as int)
                        =~= old(self).silences@
                    &&& ({
                        let rec = final(self).silences@.last();
                        &&& rec.node_name == tgt
                        &&& rec.silent_until == until->0
                        &&& !rec.broadcasted
                        &&& rec.id < usize::MAX
                    })
                }
            }),
    {
        if !secret_matches(key, secret) {
            return Err(SilenceError::InvalidSecret);
        }
        let until = match try_parse_until_time(time.as_str(), now) {
            Some(u) => u,
            None => {
                return Err(SilenceError::MalformedTime);
            },
        };
        let tgt: String = match target {
            Some(t) => t,
            None => me.clone(),
        };
        if !known_target(&self.node_state, &tgt, me) {
            return Err(SilenceError::UnknownTarget);
        }
        let id = random_below_max();
        let resp = SilenceResponse { name: tgt.clone(), silent_until: until };
        self.silences.push(NodeSilence { id, node_name: tgt, silent_until: until,
            broadcasted: false });
        proof {
            assert(self.silences@.subrange(0, old(self).silences@.len() as int) =~= old(
                self,
            ).silences@);
        }
        Ok(resp)
    }
}

/// Rows sorted ascending by name.
pub open spec fn sorted_by_name(s: Seq<GridNodeResponse>) -> bool {
    forall|i: int, j: int| 0 <= i < j < s.len() ==> !lex_less(s[j].name@, s[i].name@)
}

/// Sorts grid rows ascending by name; the rows themselves are kept.
pub fn sort_rows_by_name(rows: &Vec<GridNodeResponse>) -> (r: Vec<GridNodeResponse>)
    ensures
        sorted_by_name(r@),
        r@.to_multiset() =~= rows@.to_multiset(),
        r@.len() == rows@.len(),
{
    let mut out: Vec<GridNodeResponse> = Vec::new();
    let mut i: usize = 0;
    proof {
        assert(rows@.subrange(0, 0) =~= Seq::<GridNodeResponse>::empty());
    }
    while i < rows.len()
        invariant
            i <= rows@.len(),
            out@.len() == i,
            sorted_by_name(out@),
            out@.to_multiset() =~= rows@.subrange(0, i as int).to_multiset(),
        decreases rows@.len() - i,
    {
        let x = rows[i].clone();
        let mut pos: usize = 0;
        while pos < out.len() && str_lt(out[pos].name.as_str(), x.name.as_str())
            invariant
                pos <= out@.len(),
                forall|j: int| 0 <= j < pos ==> lex_less((#[trigger] out@[j]).name@, x.name@),
            decreases out@.len() - pos,
        {
            pos = pos + 1;
        }
        proof {
            let o = out@;
            let t = o.insert(pos as int, x);
            assert(sorted_by_name(t)) by {
                assert forall|a: int, b: int|
                    0 <= a < b < t.len() implies !lex_less(t[b].name@, t[a].name@) by {
                    if b == pos {
                        // the new row against a lesser one before it
                        lemma_lex_asym(o[a].name@, x.name@);
                    } else if a == pos {
                        // the new row against what follows it
                        let c = o[b - 1].name@;
                        if pos < o.len() {
                            let bn = o[pos as int].name@;
                            if lex_less(c, x.name@) {
                                lemma_lex_trichotomy(x.name@, bn);
                                if lex_less(x.name@, bn) {
                                    lemma_lex_trans(c, x.name@, bn);
                                }
                            }
                        }
                    } else if a < pos && b > pos {
                        assert(!lex_less(o[b - 1].name@, o[a].name@));
                    }
                }
            }
            vstd::seq_lib::to_multiset_insert(o, pos as int, x);
            vstd::seq_lib::to_multiset_build(rows@.subrange(0, i as int), rows@[i as int]);
            assert(rows@.subrange(0, i + 1) =~= rows@.subrange(0, i as int).push(rows@[i as int]));
            assert(x == rows@[i as int]);
        }
        out.insert(pos, x);
        i = i + 1;
    }
    proof {
        assert(rows@.subrange(0, rows@.len() as int) =~= rows@);
    }
    out
}

/// How many entries derive a given status.
pub open spec fn count_status(s: Seq<NodeState>, st: GridNodeStatus) -> nat
    decreases s.len(),
{
    if s.len() == 0 {
        0
    } else {
        count_status(s.drop_last(), st) + if spec_status(s.last()) == st {
            1nat
        } else {
            0nat
        }
    }
}

/// This node's own row in the snapshot: always alive, never probed.
pub open spec fn self_row(me: String) -> GridNodeResponse {
    GridNodeResponse { name: me, last_poll: None, status: GridNodeStatus::Alive }
}

impl StateInner {
    /// Builds the grid snapshot: this node's own row and one row per
    /// peer, sorted by name, with totals per status (this node counts as
    /// alive).
    pub fn grid_response(&self, me: &String) -> (r: GridResponse)
        requires
            self.node_state@.len() < usize::MAX,
        ensures
            r.nodes@.len() == self.node_state@.len() + 1,
            r.total_nodes == self.node_state@.len() + 1,
            r.alive_nodes == 1 + count_status(self.node_state@, GridNodeStatus::Alive),
            r.dying_nodes == count_status(self.node_state@, GridNodeStatus::Dying),
            r.dead_nodes == count_status(self.node_state@, GridNodeStatus::Dead),
            sorted_by_name(r.nodes@),
            r.nodes@.to_multiset() =~= (seq![self_row(*me)] + self.node_state@.map_values(
                |ns: NodeState| api_row(ns),
            )).to_multiset(),
    {
        broadcast use vstd::seq_lib::group_to_multiset_ensures;

        let mut rows: Vec<GridNodeResponse> = Vec::new();
        rows.push(GridNodeResponse {
            name: me.clone(),
            last_poll: None,
            status: GridNodeStatus::Alive,
        });
        let mut alive: usize = 1;
        let mut dying: usize = 0;
        let mut dead: usize = 0;
        let mut i: usize = 0;
        while i < self.node_state.len()
            invariant
                i <= self.node_state@.len(),
                self.node_state@.len() < usize::MAX,
                rows@.len() == i + 1,
                rows@ =~= seq![self_row(*me)] + self.node_state@.subrange(
                    0,
                    i as int,
                ).map_values(|ns: NodeState| api_row(ns)),
                alive == 1 + count_status(
                    self.node_state@.subrange(0, i as int),
                    GridNodeStatus::Alive,
                ),
                dying == count_status(self.node_state@.subrange(0, i as int),
                    GridNodeStatus::Dying),
                dead == count_status(self.node_state@.subrange(0, i as int), GridNodeStatus::Dead),
                alive + dying + dead == i + 1,
            decreases self.node_state@.len() - i,
        {
            proof {
                assert(self.node_state@.subrange(0, i + 1).drop_last() =~= self.node_state@
                    .subrange(0, i as int));
                assert(self.node_state@.subrange(0, i + 1).last() == self.node_state@[i as int]);
            }
            let row = self.node_state[i].to_api_response();
            match row.status {
                GridNodeStatus::Alive => {
                    alive = alive + 1;
                },
                GridNodeStatus::Dying => {
                    dying = dying + 1;
                },
                GridNodeStatus::Dead => {
                    dead = dead + 1;
                },
            }
            rows.push(row);
            proof {
                assert(rows@ =~= seq![self_row(*me)] + self.node_state@.subrange(0, i + 1)
                    .map_values(|ns: NodeState| api_row(ns)));
            }
            i = i + 1;
        }
        proof {
            assert(self.node_state@.subrange(0, self.node_state@.len() as int) =~= self
                .node_state@);
        }
        let sorted = sort_rows_by_name(&rows);
        let total = self.node_state.len() + 1;
        GridResponse {
            nodes: sorted,
            alive_nodes: alive,
            dead_nodes: dead,
            dying_nodes: dying,
            total_nodes: total,
        }
    }
}

} // verus!
