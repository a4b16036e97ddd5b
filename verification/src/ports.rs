//! Drawing a port at random.

use rand::Rng;
use vstd::prelude::*;

verus! {

/// The first port of the range that is free for private use.
pub const DYNAMIC_PORTS_START: u16 = 49152;

/// The end of the range from which `get_random_port` draws; it is not
/// drawn itself.
pub const DYNAMIC_PORTS_END: u16 = 65535;

/// Calls `rand::thread_rng` and `Rng::gen_range` on `low..high`, which draws
/// a value from the half-open range and panics on an empty one. Which value
/// comes is left open.
#[verifier::external_body]
fn random_between(low: u16, high: u16) -> (r: u16)
    requires
        low < high,
    ensures
        low <= r < high,
{
    rand::thread_rng().gen_range(low..high)
}

/// Draws a port from the dynamic range.
pub fn get_random_port() -> (port: u16)
    ensures
        DYNAMIC_PORTS_START <= port < DYNAMIC_PORTS_END,
{
    random_between(DYNAMIC_PORTS_START, DYNAMIC_PORTS_END)
}

} // verus!
