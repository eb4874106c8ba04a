use vstd::prelude::*;

verus! {

/// Relies on rand::random: one draw from the thread-local generator through
/// the standard distribution. The value is random; nothing is promised of it.
pub assume_specification<T>[ rand::random::<T> ]() -> (r: T)
    where
        rand::distributions::Standard: rand::distributions::Distribution<T>,
;

/// Relies on std::time::SystemTime::now, read as nanoseconds since the epoch
/// (truncated to 64 bits, and 0 should the clock sit before the epoch). The
/// value depends on the wall clock; nothing is promised of it.
#[verifier::external_body]
fn now_nanos() -> u64 {
    std::time::SystemTime::now()
        .duration_since(std::time::UNIX_EPOCH)
        .map(|d| d.as_nanos() as u64)
        .unwrap_or(0)
}

/// Fold the three identifier sources into one word.
pub fn combine_id(timestamp: u64, process_id: u64, random_number: u64) -> (r: u64)
    ensures
        r == (timestamp ^ process_id) ^ random_number,
{
    (timestamp ^ process_id) ^ random_number
}

/// A hard-to-collide identifier: the current wall-clock nanoseconds, the
/// process id (supplied by the embedding program, which reads it from the
/// operating system), and a random draw, folded together with `combine_id`.
/// The result inherits the unpredictability of its sources; nothing more is
/// promised of it.
pub fn generate_unique_id(process_id: u64) -> u64 {
    let timestamp = now_nanos();
    let random_number: u64 = rand::random();
    combine_id(timestamp, process_id, random_number)
}

} // verus!
