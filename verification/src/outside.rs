//! What the engine takes from outside the crate: the time, and how the file
//! system joins paths. Nothing here is proved; each item says what it calls
//! and what is taken on trust.

use vstd::prelude::*;
use crate::stamp::is_utc_stamp;

verus! {

/// The present moment in UTC, as RFC 3339 text.
///
/// Calls `chrono::Utc::now` and writes its result out with
/// `chrono::DateTime::to_rfc3339`. Which moment it is depends on the system
/// clock, so only the shape of the text is claimed, as chrono writes every
/// moment at or after the Unix epoch: the year in four digits, or with a
/// plus sign where it takes more; month, day, hour, minute and second in
/// two digits each; a fraction of three, six or nine digits where the
/// moment has one; and `+00:00` for the offset of UTC. chrono gives up on a
/// clock that stands before the Unix epoch; no argument can bring that
/// about, and none can rule it out.
#[verifier::external_body]
pub(crate) fn utc_now_rfc3339() -> (r: String)
    ensures
        is_utc_stamp(r@),
{
    chrono::Utc::now().to_rfc3339()
}

/// The path `dest` under the directory `root`.
///
/// Calls `std::path::Path::join`, which decides by the rules of the
/// platform where `dest` comes to stand: an absolute `dest` replaces `root`,
/// and the separator is the platform's. So nothing is claimed of the
/// result. Both arguments are text, so the joined path is text too, and
/// writing it out loses nothing.
#[verifier::external_body]
pub(crate) fn join_path(root: &str, dest: &str) -> String {
    std::path::Path::new(root).join(dest).to_string_lossy().into_owned()
}

} // verus!
