//! What handling one message from the window thread tells the game loop.
use vstd::prelude::*;

verus! {

/// The game loop must stop.
pub const EXIT: i8 = -1;

/// The game loop goes on.
pub const ALL_GOOD: i8 = 0;

} // verus!
