//! What every simulated object offers to the arena.
use vstd::prelude::*;
use crate::geometry::{Rect, rect_bounded};

verus! {

/// A simulated object with a physical footprint.
pub trait Entity {
    /// The ranges the object's values stay in.
    spec fn valid(&self) -> bool;

    /// The object's box at its current position.
    spec fn bounding_box(&self) -> Rect;

    /// The box used for overlap tests, computed from the current position.
    fn collider(&self) -> (r: Option<Rect>)
        requires
            self.valid(),
        ensures
            r == Some(self.bounding_box()),
            rect_bounded(self.bounding_box()),
    ;
}

} // verus!
