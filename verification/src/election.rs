//! The announcer election.
//!
//! When a peer is dying, every observer that raised the alarm holds a set
//! of votes: for each asked peer either the roll that peer announced for
//! the death, or `None` when its obituary did not list the node. With a
//! strict majority of confirming voters (the local observer counts as one,
//! a tie is no quorum) the election picks the announcer: the candidate
//! with the greatest roll, ties between equal rolls resolved by the
//! lexicographically greater name. The result is a pure function of the
//! votes, the local name and the local roll, so every confirming node
//! computes the same winner.

use vstd::prelude::*;

use crate::order::{lex_less, lemma_lex_irrefl, lemma_lex_trans, lemma_lex_trichotomy, str_lt};
use crate::tracker::{DeadConfirmation, NodeState};

verus! {

/// Number of votes that confirm the death.
pub open spec fn n_confirmed(c: Seq<(String, DeadConfirmation)>) -> nat
    decreases c.len(),
{
    if c.len() == 0 {
        0
    } else {
        n_confirmed(c.drop_last()) + if c.last().1.confirmed_roll is Some {
            1nat
        } else {
            0nat
        }
    }
}

/// Number of votes that deny the death.
pub open spec fn n_denied(c: Seq<(String, DeadConfirmation)>) -> nat
    decreases c.len(),
{
    if c.len() == 0 {
        0
    } else {
        n_denied(c.drop_last()) + if c.last().1.confirmed_roll is None {
            1nat
        } else {
            0nat
        }
    }
}

/// Strict majority: the confirming voters, the local observer included,
/// must outnumber the deniers; a tie goes to "not yet confirmed".
pub open spec fn quorum_reached(c: Seq<(String, DeadConfirmation)>) -> bool {
    n_confirmed(c) + 1 > n_denied(c)
}

/// The order of candidacies: lesser roll first, ties between equal rolls
/// by the lexicographic order of the names.
pub open spec fn roll_pair_less(n1: Seq<char>, r1: int, n2: Seq<char>, r2: int) -> bool {
    r1 < r2 || (r1 == r2 && lex_less(n1, n2))
}

/// The winner among the confirming votes of `c` and the local candidacy
/// `(me, my_roll)`: the maximum under [`roll_pair_less`].
pub open spec fn election_winner(
    c: Seq<(String, DeadConfirmation)>,
    me: Seq<char>,
    my_roll: int,
) -> (Seq<char>, int)
    decreases c.len(),
{
    if c.len() == 0 {
        (me, my_roll)
    } else {
        let best = election_winner(c.drop_last(), me, my_roll);
        match c.last().1.confirmed_roll {
            Some(r) => if roll_pair_less(best.0, best.1, c.last().0@, r as int) {
                (c.last().0@, r as int)
            } else {
                best
            },
            None => best,
        }
    }
}

/// The candidate order is transitive.
proof fn lemma_pair_trans(
    n1: Seq<char>,
    r1: int,
    n2: Seq<char>,
    r2: int,
    n3: Seq<char>,
    r3: int,
)
    requires
        roll_pair_less(n1, r1, n2, r2),
        roll_pair_less(n2, r2, n3, r3),
    ensures
        roll_pair_less(n1, r1, n3, r3),
{
    if r1 == r2 && r2 == r3 {
        lemma_lex_trans(n1, n2, n3);
    }
}

/// The winner is one of the candidacies, and no candidacy beats it.
pub proof fn lemma_winner_maximal(c: Seq<(String, DeadConfirmation)>, me: Seq<char>, my_roll: int)
    ensures
        ({
            let w = election_winner(c, me, my_roll);
            &&& (w.0 == me && w.1 == my_roll) || exists|i: int|
                0 <= i < c.len() && (#[trigger] c[i]).1.confirmed_roll is Some && c[i].0@ == w.0
                    && c[i].1.confirmed_roll->0 as int == w.1
            &&& !roll_pair_less(w.0, w.1, me, my_roll)
            &&& forall|i: int|
                0 <= i < c.len() && (#[trigger] c[i]).1.confirmed_roll is Some
                    ==> !roll_pair_less(w.0, w.1, c[i].0@, c[i].1.confirmed_roll->0 as int)
        }),
    decreases c.len(),
{
    let w = election_winner(c, me, my_roll);
    lemma_lex_irrefl(w.0);
    if c.len() > 0 {
        lemma_winner_maximal(c.drop_last(), me, my_roll);
        let best = election_winner(c.drop_last(), me, my_roll);
        assert forall|i: int| 0 <= i < c.len() - 1 implies c.drop_last()[i] == c[i] by {}
        if c.last().1.confirmed_roll matches Some(r) && roll_pair_less(
            best.0,
            best.1,
            c.last().0@,
            r as int,
        ) {
            // The last vote takes the lead; nothing that could not beat the
            // old leader can beat it either.
            assert(!roll_pair_less(w.0, w.1, me, my_roll)) by {
                if roll_pair_less(w.0, w.1, me, my_roll) {
                    lemma_pair_trans(best.0, best.1, w.0, w.1, me, my_roll);
                }
            }
            assert forall|i: int|
                0 <= i < c.len() && (#[trigger] c[i]).1.confirmed_roll is Some implies
                !roll_pair_less(w.0, w.1, c[i].0@, c[i].1.confirmed_roll->0 as int) by {
                if i < c.len() - 1 {
                    if roll_pair_less(w.0, w.1, c[i].0@, c[i].1.confirmed_roll->0 as int) {
                        lemma_pair_trans(
                            best.0,
                            best.1,
                            w.0,
                            w.1,
                            c[i].0@,
                            c[i].1.confirmed_roll->0 as int,
                        );
                    }
                }
            }
        } else {
            assert(w == best);
        }
    }
}

/// Election determinism: identical votes, local name and local roll give
/// the identical winner, whichever node (or run) computes it.
pub proof fn lemma_election_deterministic(
    c1: Seq<(String, DeadConfirmation)>,
    me1: Seq<char>,
    roll1: int,
    c2: Seq<(String, DeadConfirmation)>,
    me2: Seq<char>,
    roll2: int,
)
    requires
        c1 == c2,
        me1 == me2,
        roll1 == roll2,
    ensures
        election_winner(c1, me1, roll1) == election_winner(c2, me2, roll2),
{
}

/// Tie-break: a confirming candidacy that carries the winner's roll but is
/// not the winner has the lexicographically lesser name — equal rolls
/// resolve to the greater name.
pub proof fn lemma_tie_break(
    c: Seq<(String, DeadConfirmation)>,
    me: Seq<char>,
    my_roll: int,
    i: int,
)
    requires
        0 <= i < c.len(),
        c[i].1.confirmed_roll is Some,
        c[i].1.confirmed_roll->0 as int == election_winner(c, me, my_roll).1,
        c[i].0@ != election_winner(c, me, my_roll).0,
    ensures
        lex_less(c[i].0@, election_winner(c, me, my_roll).0),
{
    lemma_winner_maximal(c, me, my_roll);
    lemma_lex_trichotomy(c[i].0@, election_winner(c, me, my_roll).0);
}

/// Tie-break seen from the local candidacy: when the winner is another
/// node with the very same roll, its name is the greater one.
pub proof fn lemma_tie_break_local(c: Seq<(String, DeadConfirmation)>, me: Seq<char>, my_roll: int)
    requires
        my_roll == election_winner(c, me, my_roll).1,
        me != election_winner(c, me, my_roll).0,
    ensures
        lex_less(me, election_winner(c, me, my_roll).0),
{
    lemma_winner_maximal(c, me, my_roll);
    lemma_lex_trichotomy(me, election_winner(c, me, my_roll).0);
}

/// Counts the confirming and the denying votes.
pub fn count_votes(c: &Vec<(String, DeadConfirmation)>) -> (r: (usize, usize))
    ensures
        r.0 == n_confirmed(c@),
        r.1 == n_denied(c@),
{
    let mut t: usize = 0;
    let mut f: usize = 0;
    let mut i: usize = 0;
    while i < c.len()
        invariant
            i <= c@.len(),
            t == n_confirmed(c@.subrange(0, i as int)),
            f == n_denied(c@.subrange(0, i as int)),
            t + f <= i,
        decreases c@.len() - i,
    {
        proof {
            assert(c@.subrange(0, i + 1).drop_last() =~= c@.subrange(0, i as int));
            assert(c@.subrange(0, i + 1).last() == c@[i as int]);
        }
        match c[i].1.confirmed_roll {
            Some(_) => {
                t = t + 1;
            },
            None => {
                f = f + 1;
            },
        }
        i = i + 1;
    }
    proof {
        assert(c@.subrange(0, c@.len() as int) =~= c@);
    }
    (t, f)
}

/// Computes the election winner for one dying peer: the maximal candidacy
/// among the confirming votes and the local `(me, my_roll)`.
pub fn elect(c: &Vec<(String, DeadConfirmation)>, me: &String, my_roll: usize) -> (w: (
    String,
    usize,
))
    ensures
        w.0@ == election_winner(c@, me@, my_roll as int).0,
        w.1 as int == election_winner(c@, me@, my_roll as int).1,
{
    let mut best_name: String = me.clone();
    let mut best_roll: usize = my_roll;
    let mut i: usize = 0;
    while i < c.len()
        invariant
            i <= c@.len(),
            best_name@ == election_winner(c@.subrange(0, i as int), me@, my_roll as int).0,
            best_roll as int == election_winner(c@.subrange(0, i as int), me@, my_roll as int).1,
        decreases c@.len() - i,
    {
        proof {
            assert(c@.subrange(0, i + 1).drop_last() =~= c@.subrange(0, i as int));
            assert(c@.subrange(0, i + 1).last() == c@[i as int]);
        }
        match c[i].1.confirmed_roll {
            Some(r) => {
                if best_roll < r || (best_roll == r && str_lt(best_name.as_str(), c[i].0.as_str()))
                {
                    best_name = c[i].0.clone();
                    best_roll = r;
                }
            },
            None => {},
        }
        i = i + 1;
    }
    proof {
        assert(c@.subrange(0, c@.len() as int) =~= c@);
    }
    (best_name, best_roll)
}

/// Whether the elector is due to act on an entry this cycle: the peer is
/// dying — dead, with a local roll, and no announcer picked yet.
pub open spec fn election_due(ns: NodeState) -> bool {
    ns.spec_is_dead() && ns.announced is None && ns.local_announcement_roll is Some
}

/// Runs the election over one peer entry. When the entry is dying and the
/// votes reach quorum, the winner's name is written to `announced`, and
/// the return value says whether the winner is this node — the caller
/// then owes the death announcement. Otherwise nothing changes.
///
/// Together with the probe contracts this carries the announcement
/// pedigree: `announced` is only ever set here, and only to the winner
/// that [`election_winner`] names for the recorded votes.
pub fn run_election(ns: &mut NodeState, me: &String) -> (announce: bool)
    requires
        old(ns).wf(),
    ensures
        final(ns).wf(),
        final(ns).name == old(ns).name,
        final(ns).last_poll == old(ns).last_poll,
        final(ns).last_fail == old(ns).last_fail,
        final(ns).fail_count == old(ns).fail_count,
        final(ns).confirmations == old(ns).confirmations,
        final(ns).announcement_rolls == old(ns).announcement_rolls,
        final(ns).local_announcement_roll == old(ns).local_announcement_roll,
        ({
            let c = old(ns).confirmations@;
            if election_due(*old(ns)) && quorum_reached(c) {
                let w = election_winner(c, me@, old(ns).local_announcement_roll->0 as int);
                &&& final(ns).announced matches Some(a) && a@ == w.0
                &&& announce == (w.0 == me@)
            } else {
                &&& final(ns).announced == old(ns).announced
                &&& announce == false
            }
        }),
{
    if !self_is_dying(ns) {
        return false;
    }
    let my_roll = match ns.local_announcement_roll {
        Some(r) => r,
        None => {
            return false;
        },
    };
    let (t, f) = count_votes(&ns.confirmations);
    if t < f {
        // t + 1 <= f: the deniers hold or outnumber — no quorum.
        return false;
    }
    let w = elect(&ns.confirmations, me, my_roll);
    let announce = w.0 == *me;
    ns.announced = Some(w.0);
    announce
}

/// Dying means dead and not yet announced.
fn self_is_dying(ns: &NodeState) -> (r: bool)
    ensures
        r == (ns.spec_is_dead() && ns.announced is None),
{
    ns.is_dead() && ns.announced.is_none()
}

} // verus!
