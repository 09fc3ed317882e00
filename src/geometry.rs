use vstd::prelude::*;

verus! {

/// An axis-aligned box with an integer origin and unsigned extent.
#[derive(Clone, Copy, Debug, PartialEq, Eq, Structural)]
pub struct Rect {
    pub x: i32,
    pub y: i32,
    pub w: u32,
    pub h: u32,
}

/// The spans `[a, a + aw)` and `[b, b + bw)` are both non-empty and share a stretch of
/// positive length.
pub open spec fn spans_overlap(a: int, aw: int, b: int, bw: int) -> bool {
    &&& aw > 0
    &&& bw > 0
    &&& a < b + bw
    &&& b < a + aw
}

impl Rect {
    /// The two boxes overlap on both axes by a positive amount.
    pub open spec fn intersects(self, o: Rect) -> bool {
        spans_overlap(self.x as int, self.w as int, o.x as int, o.w as int)
            && spans_overlap(self.y as int, self.h as int, o.y as int, o.h as int)
    }

    pub fn new(x: i32, y: i32, w: u32, h: u32) -> (r: Rect)
        ensures
            r == (Rect { x, y, w, h }),
    {
        Rect { x, y, w, h }
    }

    /// Whether the two boxes overlap; touching edges or an empty box give `false`.
    pub fn has_intersection(&self, o: Rect) -> (r: bool)
        ensures
            r == self.intersects(o),
    {
        let ax = self.x as i64;
        let ay = self.y as i64;
        let bx = o.x as i64;
        let by = o.y as i64;
        self.w > 0 && self.h > 0 && o.w > 0 && o.h > 0 && ax < bx + o.w as i64 && bx < ax
            + self.w as i64 && ay < by + o.h as i64 && by < ay + self.h as i64
    }
}

} // verus!

verus! {

/// How far from the origin an actor's position may lie on either axis, which leaves
/// room for the offsets of its hitboxes and drawn parts.
pub const COORD_LIMIT: i32 = 1073741823;

/// The position lies within `COORD_LIMIT` of the origin on both axes.
pub open spec fn within_limits(r: Rect) -> bool {
    &&& -COORD_LIMIT <= r.x <= COORD_LIMIT
    &&& -COORD_LIMIT <= r.y <= COORD_LIMIT
}

/// `r` moved by `dx` and `dy`.
pub open spec fn shifted(r: Rect, dx: int, dy: int) -> Rect {
    Rect { x: (r.x + dx) as i32, y: (r.y + dy) as i32, ..r }
}

} // verus!
