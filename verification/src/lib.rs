//! Game-simulation core of the universe engine: the object registry, the
//! mesh registry, the per-tick bookkeeping of the game thread, and the
//! decisions of the window thread.
pub mod game;
pub mod mansel;
pub mod math;
pub mod program;
pub mod render;
pub mod state;
