//! The local time, as the timestamp of an archive name.

use crate::archive::is_timestamp_suffix;
use vstd::prelude::*;

verus! {

/// The current local time as a timestamp suffix. This reads the clock with
/// `chrono::Local::now` and writes it with `DateTime::format`, under the
/// pattern `-%Y-%m-%d_%H-%M-%S`. The text depends on the clock; what is
/// claimed of it is its shape, which chrono's formatting fixes for every
/// instant: a dash, the year (four digits, or a sign and at least four
/// digits outside 0 to 9999), and two digits each for month, day, hour,
/// minute and second between their separators. chrono does not return
/// where the system clock reads a time before 1970 or the local time zone
/// cannot be found: it unwinds. No condition on the caller can exclude
/// that, and none is stated.
#[verifier::external_body]
pub(crate) fn local_timestamp() -> (stamp: String)
    ensures
        is_timestamp_suffix(stamp@),
{
    chrono::Local::now().format("-%Y-%m-%d_%H-%M-%S").to_string()
}

} // verus!
