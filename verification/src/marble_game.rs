//! The marble game's data shape. Its storage belongs to a
//! collaborating component.

use vstd::prelude::*;

verus! {

/// A player's standing: the user it belongs to and the highest level
/// cleared.
#[derive(Debug)]
pub struct GameStatus {
    pub argent_user: Vec<u8>,
    pub highest_cleared: i32,
}

} // verus!
