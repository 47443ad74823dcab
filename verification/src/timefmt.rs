//! Timestamp rendering. A timestamp read from a metadata snapshot is
//! either unavailable (the platform could not answer the query), before
//! the epoch, or a number of milliseconds since the epoch; rendered form
//! is the text `/Date(ms)/`, with `0` standing for both degenerate cases.

use vstd::prelude::*;
use vstd::string::*;
use crate::text::{dec_rep, u128_to_string};

verus! {

/// One timestamp as read from a filesystem metadata snapshot.
#[derive(Clone, Copy, PartialEq, Eq, Structural, Debug)]
pub enum TimeStamp {
    /// The platform could not answer the query for this field.
    Unavailable,
    /// The time lies before the epoch.
    BeforeEpoch,
    /// Milliseconds since the epoch.
    Millis(u128),
}

/// The milliseconds a timestamp stands for: a time before the epoch,
/// like an unavailable one, counts as zero.
pub open spec fn millis_of(t: TimeStamp) -> nat {
    match t {
        TimeStamp::Millis(ms) => ms as nat,
        _ => 0,
    }
}

/// The rendered form of a timestamp.
pub open spec fn time_text(t: TimeStamp) -> Seq<char> {
    "/Date("@ + dec_rep(millis_of(t)) + ")/"@
}

/// The milliseconds since the epoch of a known system time; a time
/// before the epoch counts as zero.
pub fn system_time_to_unix_timestamp(time: &TimeStamp) -> (r: u128)
    requires
        !(*time is Unavailable),
    ensures
        r as nat == millis_of(*time),
{
    match time {
        TimeStamp::Millis(ms) => *ms,
        _ => 0,
    }
}

/// Renders a timestamp, or reports that the query it came from failed.
pub fn format_system_time(time: &TimeStamp) -> (r: Option<String>)
    ensures
        match r {
            Some(s) => !(*time is Unavailable) && s@ == time_text(*time),
            None => *time is Unavailable,
        },
{
    match time {
        TimeStamp::Unavailable => None,
        _ => {
            let ms = system_time_to_unix_timestamp(time);
            let mut s = String::from_str("/Date(");
            let digits = u128_to_string(ms);
            s.append(digits.as_str());
            s.append(")/");
            proof {
                assert(s@ =~= time_text(*time));
            }
            Some(s)
        },
    }
}

/// The rendered timestamp with the placeholder for an unavailable one;
/// this is `time_text` for every timestamp state.
pub fn time_field(time: &TimeStamp) -> (r: String)
    ensures
        r@ == time_text(*time),
{
    match format_system_time(time) {
        Some(s) => s,
        None => {
            let r = String::from_str("/Date(0)/");
            proof {
                reveal_strlit("/Date(0)/");
                reveal_strlit("/Date(");
                reveal_strlit(")/");
                assert(r@ =~= time_text(*time));
            }
            r
        },
    }
}

} // verus!
