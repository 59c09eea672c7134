//! What the player holds and presses during one frame.

use vstd::prelude::*;

verus! {

/// The keys of one frame. `left`, `right` and `down` are true for as long as
/// the key is held; `rotate` and `hard_drop` are true only in the frame in
/// which the key goes down.
#[derive(Clone, Copy, Debug, PartialEq, Eq, Structural)]
pub struct InputState {
    pub left: bool,
    pub right: bool,
    pub down: bool,
    pub rotate: bool,
    pub hard_drop: bool,
}

} // verus!
