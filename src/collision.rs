use vstd::prelude::*;

use crate::geometry::Rect;

verus! {

/// Something that a moving hitbox can run into.
pub trait Collision {
    /// The obstacle keeps its own rules.
    spec fn inv(&self) -> bool;

    /// `hitbox` is a box that may be asked about: one that lies where the obstacle is
    /// defined.
    spec fn admits(&self, hitbox: Rect) -> bool;

    /// `hitbox` runs into this obstacle.
    spec fn collides(&self, hitbox: Rect) -> bool;

    fn doesCollide(&self, hitbox: Rect) -> (r: bool)
        requires
            self.inv(),
            self.admits(hitbox),
        ensures
            r == self.collides(hitbox),
    ;
}

} // verus!
