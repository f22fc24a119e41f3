//! The agents of the demonstrations.

pub mod coder;
pub mod pipeline;

use vstd::prelude::*;

verus! {

/// Whether an agent that fails every third request fails this one, given how
/// many came before.
pub fn fails_this_time(requests_before: u32) -> (r: bool)
    requires
        requests_before < u32::MAX,
    ensures
        r == ((requests_before + 1) % 3 == 0),
{
    (requests_before + 1) % 3 == 0
}

} // verus!
