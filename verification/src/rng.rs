use vstd::prelude::*;

verus! {

/// The host's system random number generator.  All generator state lives
/// on the host side, so the guest handle is a unit value: copying it, or
/// creating a fresh one, changes nothing about the stream of numbers the
/// host hands out.  The host-facing draw calls live with the rest of the
/// host glue, outside this library.
#[derive(Clone, Copy, PartialEq, Eq, PartialOrd, Ord, Hash, Debug)]
pub struct System;

impl Default for System {
    fn default() -> (s: System)
        ensures
            s == System,
    {
        System
    }
}

} // verus!
