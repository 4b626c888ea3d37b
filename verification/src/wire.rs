//! The wire shapes of the grid protocol.
//!
//! Every request and response body is JSON with exactly these fields; the
//! transport layer moves the values, the logic here builds them. The
//! obituary lists every dead or dying peer with the roll this node rolled
//! for it, and the grid snapshot classifies every peer as Alive, Dying or
//! Dead. Timestamps are Unix seconds (UTC).

use vstd::prelude::*;

use crate::tracker::NodeState;

verus! {

/// Answer of the status endpoint; a peer is up when it returns one.
#[derive(Debug)]
pub struct StatusResponse {
    pub version: String,
    pub name: String,
}

/// One entry of an obituary: a dead or dying peer and the answering
/// node's roll for its death.
#[derive(Debug)]
pub struct DeadNodeResponse {
    pub name: String,
    pub roll: usize,
}

/// Answer of the obituary endpoint.
#[derive(Debug)]
pub struct ObituaryResponse {
    pub dead_nodes: Vec<DeadNodeResponse>,
}

/// Status of a peer as the grid snapshot reports it.
#[derive(Debug, Copy, Clone, Eq, PartialEq, Hash, Structural)]
pub enum GridNodeStatus {
    Alive,
    Dying,
    Dead,
}

/// One row of the grid snapshot.
#[derive(Debug)]
pub struct GridNodeResponse {
    pub name: String,
    pub last_poll: Option<i64>,
    pub status: GridNodeStatus,
}

impl Clone for GridNodeResponse {
    /// A clone is the same row.
    fn clone(&self) -> (r: Self)
        ensures
            r == *self,
    {
        GridNodeResponse {
            name: self.name.clone(),
            last_poll: self.last_poll,
            status: self.status,
        }
    }
}

/// Answer of the grid endpoint: every node including this one, sorted by
/// name, with totals per status.
#[derive(Debug)]
pub struct GridResponse {
    pub nodes: Vec<GridNodeResponse>,
    pub alive_nodes: usize,
    pub dead_nodes: usize,
    pub dying_nodes: usize,
    pub total_nodes: usize,
}

/// Answer of the silence endpoint.
#[derive(Debug)]
pub struct SilenceResponse {
    pub name: String,
    pub silent_until: i64,
}

/// Body of the silence gossip call.
#[derive(Debug)]
pub struct SilenceBroadcastRequest {
    pub id: usize,
    pub node_name: String,
    pub silent_until: i64,
}

/// The derived status of a peer entry: dead and announced is Dead, dead
/// without an announcer yet is Dying, anything below the threshold is
/// Alive.
pub open spec fn spec_status(ns: NodeState) -> GridNodeStatus {
    if ns.spec_is_dead() && ns.announced is Some {
        GridNodeStatus::Dead
    } else if ns.spec_is_dead() {
        GridNodeStatus::Dying
    } else {
        GridNodeStatus::Alive
    }
}

/// The grid snapshot row a peer entry yields.
pub open spec fn api_row(ns: NodeState) -> GridNodeResponse {
    GridNodeResponse { name: ns.name, last_poll: ns.last_poll, status: spec_status(ns) }
}

impl NodeState {
    /// The grid snapshot row for this peer.
    pub fn to_api_response(&self) -> (r: GridNodeResponse)
        ensures
            r == api_row(*self),
    {
        let status = if self.is_dead() && self.announced.is_some() {
            GridNodeStatus::Dead
        } else if self.is_dead() {
            GridNodeStatus::Dying
        } else {
            GridNodeStatus::Alive
        };
        GridNodeResponse { name: self.name.clone(), last_poll: self.last_poll, status }
    }
}

/// The roll to publish for a dead peer: the local announcement roll, or
/// the maximum unsigned value as fallback while none is set.
pub open spec fn roll_or_max(ns: NodeState) -> usize {
    match ns.local_announcement_roll {
        Some(r) => r,
        None => usize::MAX,
    }
}

/// The obituary rows: one per dead or dying peer, in roster order.
pub open spec fn spec_obituary(s: Seq<NodeState>) -> Seq<DeadNodeResponse>
    decreases s.len(),
{
    if s.len() == 0 {
        Seq::empty()
    } else {
        let prefix = spec_obituary(s.drop_last());
        if s.last().spec_is_dead() {
            prefix.push((DeadNodeResponse { name: s.last().name, roll: roll_or_max(s.last()) }))
        } else {
            prefix
        }
    }
}

/// Builds the obituary: every dead or dying peer with the roll this node
/// rolled for its death.
pub fn obituary_response(nodes: &Vec<NodeState>) -> (r: ObituaryResponse)
    ensures
        r.dead_nodes@ =~= spec_obituary(nodes@),
{
    let mut out: Vec<DeadNodeResponse> = Vec::new();
    let mut i: usize = 0;
    while i < nodes.len()
        invariant
            i <= nodes@.len(),
            out@ =~= spec_obituary(nodes@.subrange(0, i as int)),
        decreases nodes@.len() - i,
    {
        proof {
            assert(nodes@.subrange(0, i + 1).drop_last() =~= nodes@.subrange(0, i as int));
            assert(nodes@.subrange(0, i + 1).last() == nodes@[i as int]);
        }
        if nodes[i].is_dead() {
            let roll = match nodes[i].local_announcement_roll {
                Some(r) => r,
                None => usize::MAX,
            };
            out.push(DeadNodeResponse { name: nodes[i].name.clone(), roll });
        }
        i = i + 1;
    }
    proof {
        assert(nodes@.subrange(0, nodes@.len() as int) =~= nodes@);
    }
    ObituaryResponse { dead_nodes: out }
}

/// Whether the internet gate lets a cycle run: the well-known probe must
/// answer with the no-content sentinel.
pub fn internet_gate_passed(status: u16) -> (r: bool)
    ensures
        r == (status == 204),
{
    status == 204
}

/// How one status probe came out.
#[derive(Debug, Copy, Clone, PartialEq, Eq, Structural)]
pub enum ProbeVerdict {
    /// Reached, 2xx answer, body well-formed.
    Up,
    /// Reached with a 2xx answer whose body did not decode: a reachable
    /// but misbehaving peer is no proof of death.
    UpButWeird,
    /// Not reached, or no 2xx answer.
    Down,
}

/// Success classification of a probe: a peer is up exactly when the
/// transport reached it and got a 2xx answer. Whether the body decoded
/// only grades the success — it never turns a reachable peer into a
/// failure.
pub fn classify_probe(answered_2xx: bool, body_decoded: bool) -> (r: ProbeVerdict)
    ensures
        r is Down <==> !answered_2xx,
        r is UpButWeird <==> answered_2xx && !body_decoded,
        r is Up <==> answered_2xx && body_decoded,
{
    if !answered_2xx {
        ProbeVerdict::Down
    } else if body_decoded {
        ProbeVerdict::Up
    } else {
        ProbeVerdict::UpButWeird
    }
}

impl ProbeVerdict {
    /// Whether this outcome counts one failure toward the death
    /// threshold.
    pub fn failing(&self) -> (r: bool)
        ensures
            r == (*self is Down),
    {
        matches!(self, ProbeVerdict::Down)
    }
}

} // verus!
