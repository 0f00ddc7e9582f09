//! Image ids for animations, taken from the clock so that animations started
//! one after another get distinct ids.

use vstd::prelude::*;
use std::time::{Duration, SystemTime};

verus! {

#[verifier::external_type_specification]
#[verifier::external_body]
pub struct ExSystemTime(std::time::SystemTime);

/// Calls `std::time::SystemTime::now`. Nothing is claimed of the reading.
#[verifier::external_body]
fn clock_now() -> SystemTime {
    SystemTime::now()
}

/// Calls `SystemTime::duration_since` with `UNIX_EPOCH`, converting the
/// error (a time before the epoch) to `None`. Nothing is claimed of the
/// duration.
#[verifier::external_body]
fn since_unix_epoch(t: &SystemTime) -> Option<Duration> {
    t.duration_since(std::time::UNIX_EPOCH).ok()
}

/// Calls `Duration::subsec_nanos`. Claimed, as its documentation says: the
/// fractional part of the second, in nanoseconds, is below one billion.
#[verifier::external_body]
fn subsec_nanos(d: &Duration) -> (n: u32)
    ensures
        n < 1_000_000_000,
{
    d.subsec_nanos()
}

/// The image id made from a clock reading's nanoseconds.
pub open spec fn image_id_spec(nanos: u32) -> u32 {
    (nanos % 0xFFFF_FFFE + 1) as u32
}

/// The image id for a clock reading whose fractional second is `nanos`
/// nanoseconds; kitty takes `u32` ids and `0` is avoided.
pub fn image_id_from_nanos(nanos: u32) -> (id: u32)
    ensures
        id == image_id_spec(nanos),
        1 <= id <= 0xFFFF_FFFE,
{
    nanos % 0xFFFF_FFFE + 1
}

/// Generates a unique image id from the current time: the fractional second
/// of the time since the Unix epoch, in nanoseconds, plus one. A clock set
/// before the epoch gives no id.
pub fn unique_image_id() -> (id: Option<u32>)
    ensures
        id matches Some(i) ==> 1 <= i <= 1_000_000_000,
        id matches Some(i) ==> exists|nanos: u32| nanos < 1_000_000_000 && i == image_id_spec(nanos),
{
    let now = clock_now();
    match since_unix_epoch(&now) {
        Some(d) => {
            let nanos = subsec_nanos(&d);
            Some(image_id_from_nanos(nanos))
        },
        None => None,
    }
}

/// Two clock readings whose fractional seconds differ give different image
/// ids, so animations started at different instants of a second never share
/// an id.
pub proof fn lemma_image_ids_distinct(a: u32, b: u32)
    requires
        a < 1_000_000_000,
        b < 1_000_000_000,
        a != b,
    ensures
        image_id_spec(a) != image_id_spec(b),
{
}

} // verus!
