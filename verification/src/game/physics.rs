//! Physics settings of a simulation.
use vstd::prelude::*;

verus! {

/// Tick rate and gravity of the simulation.
pub struct Physics {
    /// in milliseconds
    tick_rate: u64,
    gravity: glam::Vec3,
}

impl Physics {
    pub fn new(tick_rate_millis: u64, gravity: glam::Vec3) -> (res: Self)
        ensures
            res.tick_rate_spec() == tick_rate_millis,
            res.gravity_spec() == gravity,
    {
        Self { tick_rate: tick_rate_millis, gravity }
    }

    /// Milliseconds between two simulation ticks.
    pub closed spec fn tick_rate_spec(&self) -> u64 {
        self.tick_rate
    }

    /// The gravity vector the simulation was set up with.
    pub closed spec fn gravity_spec(&self) -> glam::Vec3 {
        self.gravity
    }

    /// Milliseconds between two simulation ticks.
    pub fn tick_rate(&self) -> (res: u64)
        ensures
            res == self.tick_rate_spec(),
    {
        self.tick_rate
    }
}

} // verus!
