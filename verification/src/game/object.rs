//! Objects of the game world and their liveness records.
use vstd::prelude::*;

verus! {

/// A thing in the game world.
pub struct Object {
    pub position: glam::Vec3,
    pub scale: glam::Vec3,
    /// if it's empty, then that signifies to the engine that it doesn't have a mesh
    pub mesh_path: String,
    pub rotation: glam::Quat,
}

/// Whether an object still takes part in the simulation.
pub struct ObjectInfo {
    pub is_alive: bool,
}

} // verus!
