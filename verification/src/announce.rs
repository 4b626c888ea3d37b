//! The announcement texts.
//!
//! Exactly two messages ever reach the outside sink: the death of a peer
//! and its return, each naming the announcing node, with the target's
//! chat handle appended when it has a non-empty one. Sending is the
//! sink's business; the words are fixed here.

use vstd::prelude::*;
use vstd::string::StringExecFns;

use crate::config::NodeConfig;

verus! {

/// The suffix naming the target's chat handle: present exactly when the
/// handle is set and non-empty.
pub open spec fn handle_suffix(h: Option<String>) -> Seq<char> {
    match h {
        Some(t) => if t@.len() > 0 {
            " - @"@ + t@
        } else {
            Seq::<char>::empty()
        },
        None => Seq::<char>::empty(),
    }
}

/// The death announcement for `target`, published by `me`.
pub open spec fn spec_death_message(target: NodeConfig, me: Seq<char>) -> Seq<char> {
    "Grid announcement, `"@ + target.name@ + "` has unfortunately died, announced by: `"@ + me
        + "`"@ + handle_suffix(target.telegram_handle)
}

/// The recovery announcement for `target`, published by `me`.
pub open spec fn spec_recovery_message(target: NodeConfig, me: Seq<char>) -> Seq<char> {
    "Grid announcement, `"@ + target.name@ + "` has fortunately RETURNED, announced by: `"@ + me
        + "`"@ + handle_suffix(target.telegram_handle)
}

/// Builds the announcement for `target`: the death text when `is_dead`,
/// the recovery text otherwise.
pub fn announcement_message(target: &NodeConfig, me: &String, is_dead: bool) -> (r: String)
    ensures
        is_dead ==> r@ == spec_death_message(*target, me@),
        !is_dead ==> r@ == spec_recovery_message(*target, me@),
{
    let mut msg = String::new();
    msg.append("Grid announcement, `");
    msg.append(target.name.as_str());
    if is_dead {
        msg.append("` has unfortunately died, announced by: `");
    } else {
        msg.append("` has fortunately RETURNED, announced by: `");
    }
    msg.append(me.as_str());
    msg.append("`");
    match &target.telegram_handle {
        Some(h) => {
            if !h.as_str().is_empty() {
                msg.append(" - @");
                msg.append(h.as_str());
            }
        },
        None => {},
    }
    proof {
        if is_dead {
            assert(msg@ =~= spec_death_message(*target, me@));
        } else {
            assert(msg@ =~= spec_recovery_message(*target, me@));
        }
    }
    msg
}

} // verus!
