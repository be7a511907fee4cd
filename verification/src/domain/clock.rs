use vstd::prelude::*;

verus! {

/// Milliseconds since the Unix epoch, read from `std::time::SystemTime::now()`;
/// a clock set before the epoch reads as zero. Nothing is promised of the value:
/// it is whatever the machine's clock says.
#[verifier::external_body]
pub(crate) fn unix_time_millis() -> u128 {
    std::time::SystemTime::now().duration_since(std::time::UNIX_EPOCH).unwrap_or_default().as_millis()
}

/// Nanoseconds since the Unix epoch, read from `std::time::SystemTime::now()`;
/// a clock set before the epoch reads as zero. Nothing is promised of the value.
#[verifier::external_body]
pub(crate) fn unix_time_nanos() -> u128 {
    std::time::SystemTime::now().duration_since(std::time::UNIX_EPOCH).unwrap_or_default().as_nanos()
}

} // verus!
