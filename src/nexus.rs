use vstd::prelude::*;
use servicepoint::{Grid, PixelGrid};

use crate::collision::{Point, Rect, point_in_rect};
use crate::pheromone_grid::lemma_index;

verus! {

/// The colony's home: a fixed rectangle and the food delivered to it.
pub struct Nexus {
    pub rect: Rect,
    pub food: usize,
}

#[verifier::external_type_specification]
#[verifier::external_body]
pub struct ExPixelGrid(PixelGrid);

/// The pixels of a `PixelGrid`, row by row: pixel `(x, y)` at
/// `x + y * width`.
pub uninterp spec fn pixel_grid_cells(g: PixelGrid) -> Seq<bool>;

/// The width a `PixelGrid` was made with.
pub uninterp spec fn pixel_grid_width(g: PixelGrid) -> nat;

/// The height a `PixelGrid` was made with.
pub uninterp spec fn pixel_grid_height(g: PixelGrid) -> nat;

/// Relies on servicepoint's `Grid::set` for `PixelGrid`: the grid holds
/// `width * height` pixels, and the call writes the one at `x + y * width`
/// and nothing else; it panics out of bounds.
#[verifier::external_body]
pub(crate) fn pixel_grid_set(g: &mut PixelGrid, x: usize, y: usize, value: bool)
    requires
        x < pixel_grid_width(*old(g)),
        y < pixel_grid_height(*old(g)),
    ensures
        pixel_grid_cells(*old(g)).len() == pixel_grid_width(*old(g)) * pixel_grid_height(*old(g)),
        pixel_grid_width(*final(g)) == pixel_grid_width(*old(g)),
        pixel_grid_height(*final(g)) == pixel_grid_height(*old(g)),
        pixel_grid_cells(*final(g)) == pixel_grid_cells(*old(g)).update(
            x + y * pixel_grid_width(*old(g)),
            value,
        ),
{
    g.set(x, y, value);
}

/// Relies on servicepoint's `Grid::width` for `PixelGrid`: the width the
/// grid was made with.
#[verifier::external_body]
pub(crate) fn pixel_grid_width_of(g: &PixelGrid) -> (r: usize)
    ensures
        r == pixel_grid_width(*g),
{
    g.width()
}

/// Relies on servicepoint's `Grid::height` for `PixelGrid`: the height the
/// grid was made with; the grid holds one pixel per cell of its
/// width × height.
#[verifier::external_body]
pub(crate) fn pixel_grid_height_of(g: &PixelGrid) -> (r: usize)
    ensures
        r == pixel_grid_height(*g) && pixel_grid_cells(*g).len() == pixel_grid_width(*g) * r,
{
    g.height()
}

/// Whether the drawing loop, column `cx` then row `cy`, has passed pixel
/// `(x, y)` of the rectangle.
pub open spec fn drawn_before(rect: Rect, cx: int, cy: int, x: int, y: int) -> bool {
    rect.contains_spec(x, y) && (x < cx || (x == cx && y < cy))
}

/// `n + 1`, held at the largest count.
pub open spec fn sat_inc(n: usize) -> usize {
    if n == usize::MAX {
        n
    } else {
        (n + 1) as usize
    }
}

impl Nexus {
    /// A nexus on `rect` that holds no food yet.
    pub fn new(rect: Rect) -> (r: Nexus)
        ensures
            r.rect == rect,
            r.food == 0,
    {
        Nexus { rect, food: 0 }
    }

    /// Whether `point` lies in the nexus, borders included.
    pub fn contains(&self, point: Point) -> (r: bool)
        ensures
            r == self.rect.contains_spec(point.x as int, point.y as int),
    {
        point_in_rect(point, self.rect)
    }

    /// Switches on every pixel of the nexus rectangle, borders included,
    /// and leaves the others as they are; the part of the rectangle off the
    /// frame is skipped.
    pub fn render(&self, pixel_grid: &mut PixelGrid)
        ensures
            pixel_grid_width(*final(pixel_grid)) == pixel_grid_width(*old(pixel_grid)),
            pixel_grid_height(*final(pixel_grid)) == pixel_grid_height(*old(pixel_grid)),
            pixel_grid_cells(*final(pixel_grid)).len() == pixel_grid_cells(*old(pixel_grid)).len(),
            pixel_grid_cells(*old(pixel_grid)).len() == pixel_grid_width(*old(pixel_grid))
                * pixel_grid_height(*old(pixel_grid)),
            forall|x: int, y: int|
                0 <= x < pixel_grid_width(*old(pixel_grid)) && 0 <= y < pixel_grid_height(
                    *old(pixel_grid),
                ) ==> #[trigger] pixel_grid_cells(*final(pixel_grid))[x + y * pixel_grid_width(
                    *old(pixel_grid),
                )] == (self.rect.contains_spec(x, y) || pixel_grid_cells(*old(pixel_grid))[x + y
                    * pixel_grid_width(*old(pixel_grid))]),
    {
        let w = pixel_grid_width_of(pixel_grid);
        let h = pixel_grid_height_of(pixel_grid);
        let ghost start = pixel_grid_cells(*pixel_grid);
        let x_end = if self.rect.bottom_right.x < w {
            self.rect.bottom_right.x + 1
        } else {
            w
        };
        let y_end = if self.rect.bottom_right.y < h {
            self.rect.bottom_right.y + 1
        } else {
            h
        };
        let mut x = self.rect.top_left.x;
        while x < x_end
            invariant
                x_end <= w,
                y_end <= h,
                x_end == (if self.rect.bottom_right.x < w {
                    self.rect.bottom_right.x + 1
                } else {
                    w as int
                }),
                y_end == (if self.rect.bottom_right.y < h {
                    self.rect.bottom_right.y + 1
                } else {
                    h as int
                }),
                start.len() == w * h,
                pixel_grid_width(*pixel_grid) == w,
                pixel_grid_height(*pixel_grid) == h,
                pixel_grid_cells(*pixel_grid).len() == start.len(),
                self.rect.top_left.x <= x,
                forall|px: int, py: int|
                    0 <= px < w && 0 <= py < h ==> #[trigger] pixel_grid_cells(*pixel_grid)[px + py
                        * w] == (drawn_before(self.rect, x as int, 0, px, py) || start[px + py * w]),
            decreases x_end - x,
        {
            let mut y = self.rect.top_left.y;
            while y < y_end
                invariant
                    x_end <= w,
                    y_end <= h,
                    y_end == (if self.rect.bottom_right.y < h {
                        self.rect.bottom_right.y + 1
                    } else {
                        h as int
                    }),
                    start.len() == w * h,
                    self.rect.top_left.x <= x < x_end,
                    x <= self.rect.bottom_right.x,
                    self.rect.top_left.y <= y,
                    pixel_grid_width(*pixel_grid) == w,
                    pixel_grid_height(*pixel_grid) == h,
                    pixel_grid_cells(*pixel_grid).len() == start.len(),
                    forall|px: int, py: int|
                        0 <= px < w && 0 <= py < h ==> #[trigger] pixel_grid_cells(*pixel_grid)[px
                            + py * w] == (drawn_before(self.rect, x as int, y as int, px, py)
                            || start[px + py * w]),
                decreases y_end - y,
            {
                let ghost before = pixel_grid_cells(*pixel_grid);
                proof {
                    lemma_index(h as int, w as int, y as int, x as int);
                    assert(h * w == w * h) by (nonlinear_arith);
                    assert(x + y * w < before.len());
                }
                pixel_grid_set(pixel_grid, x, y, true);
                proof {
                    assert forall|px: int, py: int|
                        0 <= px < w && 0 <= py < h implies #[trigger] pixel_grid_cells(
                        *pixel_grid,
                    )[px + py * w] == (drawn_before(self.rect, x as int, y + 1, px, py) || start[px
                        + py * w]) by {
                        lemma_index(h as int, w as int, py, px);
                        assert(before[px + py * w] == (drawn_before(
                            self.rect,
                            x as int,
                            y as int,
                            px,
                            py,
                        ) || start[px + py * w]));
                        if px != x || py != y {
                            assert(px + py * w != x + y * w);
                        }
                    }
                }
                y += 1;
            }
            x += 1;
        }
    }

    /// Counts one more delivered unit of food, held at the largest count.
    pub fn deposit_food(&mut self)
        ensures
            final(self).rect == old(self).rect,
            final(self).food == sat_inc(old(self).food),
    {
        self.food = self.food.saturating_add(1);
    }
}

} // verus!
