use vstd::prelude::*;

verus! {

/// Relies on time::OffsetDateTime::now_utc, read as nanoseconds since the Unix
/// epoch through OffsetDateTime::unix_timestamp_nanos. Nothing is promised of
/// the reading: the system clock may be set back between two of them.
#[verifier::external_body]
pub(crate) fn now_nanos() -> i128 {
    time::OffsetDateTime::now_utc().unix_timestamp_nanos()
}

} // verus!
