pub mod components;
pub mod formation;
pub mod protocol;
pub mod resources;
pub mod spawning;
pub mod world;
pub mod sync;
pub mod terrain;

use vstd::prelude::*;

verus! {

/// Whether the legacy transport should be used instead of QUIC.
pub fn use_legacy_networking() -> (r: bool)
    ensures
        !r,
{
    false
}

} // verus!
