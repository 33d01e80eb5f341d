use vstd::prelude::*;

verus! {

/// A cell position on the grid.
#[derive(Copy, Clone, Debug, PartialEq, Eq, Structural)]
pub struct Point {
    pub x: usize,
    pub y: usize,
}

/// An axis-aligned rectangle given by two inclusive corners.
#[derive(Copy, Clone, Debug, PartialEq, Eq, Structural)]
pub struct Rect {
    pub top_left: Point,
    pub bottom_right: Point,
}

impl Rect {
    /// The corners are ordered componentwise.
    pub open spec fn wf(self) -> bool {
        self.top_left.x <= self.bottom_right.x && self.top_left.y <= self.bottom_right.y
    }

    /// Whether the point `(x, y)` lies in the rectangle, borders included.
    pub open spec fn contains_spec(self, x: int, y: int) -> bool {
        self.top_left.x <= x <= self.bottom_right.x && self.top_left.y <= y
            <= self.bottom_right.y
    }
}

/// Whether `point` lies in `rect`, borders included.
pub fn point_in_rect(point: Point, rect: Rect) -> (r: bool)
    ensures
        r == rect.contains_spec(point.x as int, point.y as int),
{
    point.x >= rect.top_left.x && point.x <= rect.bottom_right.x && point.y >= rect.top_left.y
        && point.y <= rect.bottom_right.y
}

/// One step from `from` towards `to`: the first axis rule that applies, in
/// the order decrease x, increase x, decrease y, increase y.
pub open spec fn step_toward(from: Point, to: Point) -> Point {
    if to.x < from.x {
        Point { x: (from.x - 1) as usize, y: from.y }
    } else if to.x > from.x {
        Point { x: (from.x + 1) as usize, y: from.y }
    } else if to.y < from.y {
        Point { x: from.x, y: (from.y - 1) as usize }
    } else if to.y > from.y {
        Point { x: from.x, y: (from.y + 1) as usize }
    } else {
        from
    }
}

/// Executable form of [`step_toward`].
pub fn move_towards(from: Point, to: Point) -> (r: Point)
    ensures
        r == step_toward(from, to),
{
    if to.x < from.x {
        Point { x: from.x - 1, y: from.y }
    } else if to.x > from.x {
        Point { x: from.x + 1, y: from.y }
    } else if to.y < from.y {
        Point { x: from.x, y: from.y - 1 }
    } else if to.y > from.y {
        Point { x: from.x, y: from.y + 1 }
    } else {
        from
    }
}

/// The coordinate `c + o - r` when it lies in `[0, bound)`. An offset index
/// `o` in `[0, 2r]` stands for the signed offset `o - r`.
pub fn offset_coord(c: usize, o: usize, r: usize, bound: usize) -> (res: Option<usize>)
    ensures
        res == (if 0 <= c + o - r < bound {
            Some((c + o - r) as usize)
        } else {
            None
        }),
{
    if o < r {
        let back = r - o;
        if back <= c && c - back < bound {
            Some(c - back)
        } else {
            None
        }
    } else {
        let ahead = o - r;
        if ahead < bound && c < bound - ahead {
            Some(c + ahead)
        } else {
            None
        }
    }
}

/// Whether `(x, y)` lies within Chebyshev distance `r` of `p`.
pub open spec fn within_range(p: Point, r: int, x: int, y: int) -> bool {
    p.x - r <= x <= p.x + r && p.y - r <= y <= p.y + r
}

} // verus!
