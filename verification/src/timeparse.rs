//! Parsing of the silence expiry argument.
//!
//! The silence endpoint takes its expiry as one path segment: either a
//! plain decimal integer, read as an absolute Unix-seconds timestamp, or
//! a human duration phrase ("1hour 12min"), added to the current time.
//! Anything else is malformed and refused; so is a phrase longer than
//! [`DURATION_PHRASE_MAX_LEN`] characters, a bound that keeps the
//! outside parser on its returning path (see [`parse_duration_phrase`]).

use vstd::prelude::*;
use vstd::string::StrSliceExecFns;

use crate::numparse::{parse_i64, spec_parse_i64};

verus! {

/// Longest admissible duration phrase, in characters. Real phrases are
/// far shorter; the bound exists to keep the outside parser away from
/// its one aborting input family, which needs more characters than this
/// (the argument stands at [`duration_secs`]).
pub const DURATION_PHRASE_MAX_LEN: usize = 20;

/// The whole seconds of the duration a phrase denotes, or `None` when the
/// phrase is not a valid duration. A name for the outside parser's
/// answer: it is a function of the characters alone.
pub uninterp spec fn parsed_duration_secs(s: Seq<char>) -> Option<u64>;

/// Whether this many Unix seconds lie in the range of representable
/// calendar datetimes. A name for the outside library's answer: it is a
/// function of the value alone.
pub uninterp spec fn timestamp_representable(secs: i64) -> bool;

/// Relies on `humantime::parse_duration`: a pure parser from a duration
/// phrase to a `std::time::Duration`, depending on the characters alone.
/// The wrapper keeps the duration's whole seconds.
///
/// The length bound excludes the parser's only panic. All its
/// arithmetic is checked and turned into errors except the final carry,
/// which aborts exactly when the accumulated whole seconds equal the
/// unsigned 64-bit maximum while the nanosecond total lands on exactly
/// one billion. Reaching that seconds total at all takes at least 20
/// characters: its cheapest exact spelling over the parser's units is
/// 5124095576030431 hours plus 15 seconds, and every other
/// decomposition spends at least as many. The nanosecond spans must be
/// spelled on top of that, so no phrase within the bound reaches the
/// abort.
#[verifier::external_body]
pub(crate) fn duration_secs(s: &str) -> (r: Option<u64>)
    requires
        s@.len() <= DURATION_PHRASE_MAX_LEN,
    ensures
        r == parsed_duration_secs(s@),
{
    match humantime::parse_duration(s) {
        Ok(d) => Some(d.as_secs()),
        Err(_) => None,
    }
}

/// Relies on chrono's `DateTime::<Utc>::from_timestamp`: `Some` exactly
/// on the seconds values whose calendar date the library represents, a
/// function of the value alone.
#[verifier::external_body]
fn timestamp_in_range(secs: i64) -> (r: bool)
    ensures
        r == timestamp_representable(secs),
{
    chrono::DateTime::<chrono::Utc>::from_timestamp(secs, 0).is_some()
}

/// What a duration phrase of admissible length denotes; an over-long
/// phrase is malformed without being looked at.
pub open spec fn spec_duration_phrase(s: Seq<char>) -> Option<u64> {
    if s.len() <= DURATION_PHRASE_MAX_LEN {
        parsed_duration_secs(s)
    } else {
        None
    }
}

/// Reads a duration phrase as [`spec_duration_phrase`] defines it: the
/// length is tested first, and only an admissible phrase reaches the
/// outside parser.
pub fn parse_duration_phrase(s: &str) -> (r: Option<u64>)
    ensures
        r == spec_duration_phrase(s@),
{
    if s.unicode_len() > DURATION_PHRASE_MAX_LEN {
        return None;
    }
    duration_secs(s)
}

/// The expiry a duration phrase denotes at time `now`: that far past
/// `now`. A phrase that is no admissible duration, or one that pushes
/// the expiry beyond the timestamp type, is malformed.
pub open spec fn spec_until_from_duration(s: Seq<char>, now: i64) -> Option<i64> {
    match spec_duration_phrase(s) {
        Some(d) => if now + d <= i64::MAX {
            Some((now + d) as i64)
        } else {
            None
        },
        None => None,
    }
}

/// What the expiry argument denotes at time `now`: a decimal that names a
/// representable timestamp stands for itself; everything else is tried as
/// a duration phrase.
pub open spec fn spec_until_time(s: Seq<char>, now: i64) -> Option<i64> {
    match spec_parse_i64(s) {
        Some(t) => if timestamp_representable(t) {
            Some(t)
        } else {
            spec_until_from_duration(s, now)
        },
        None => spec_until_from_duration(s, now),
    }
}

/// Reads the expiry argument as [`spec_until_time`] defines it.
pub fn try_parse_until_time(time: &str, now: i64) -> (r: Option<i64>)
    ensures
        r == spec_until_time(time@, now),
{
    match parse_i64(time) {
        Some(t) => {
            if timestamp_in_range(t) {
                return Some(t);
            }
        },
        None => {},
    }
    match parse_duration_phrase(time) {
        Some(d) => now.checked_add_unsigned(d),
        None => None,
    }
}

} // verus!
