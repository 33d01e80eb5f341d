use vstd::prelude::*;
use servicepoint::{ByteGrid, Grid};

use crate::pheromone_grid::{index_of, lemma_index};

verus! {

#[verifier::external_type_specification]
#[verifier::external_body]
pub struct ExByteGrid(ByteGrid);

/// The bytes of a `ByteGrid`, row by row: cell `(x, y)` at `x + y * width`.
pub uninterp spec fn byte_grid_cells(g: ByteGrid) -> Seq<u8>;

/// The width a `ByteGrid` was made with.
pub uninterp spec fn byte_grid_width(g: ByteGrid) -> nat;

/// The height a `ByteGrid` was made with.
pub uninterp spec fn byte_grid_height(g: ByteGrid) -> nat;

/// Relies on servicepoint's `Grid::new` for `ByteGrid`: a grid of the given
/// size with every byte 0.
#[verifier::external_body]
fn byte_grid_new(width: usize, height: usize) -> (g: ByteGrid)
    requires
        width * height <= usize::MAX,
    ensures
        byte_grid_width(g) == width,
        byte_grid_height(g) == height,
        byte_grid_cells(g) == Seq::new((width * height) as nat, |k: int| 0u8),
{
    ByteGrid::new(width, height)
}

/// Relies on servicepoint's `Grid::get` for `ByteGrid`: the byte at
/// `x + y * width`; it panics out of bounds.
#[verifier::external_body]
fn byte_grid_get(g: &ByteGrid, x: usize, y: usize) -> (r: u8)
    requires
        x < byte_grid_width(*g),
        y < byte_grid_height(*g),
    ensures
        r == byte_grid_cells(*g)[x + y * byte_grid_width(*g)],
{
    g.get(x, y)
}

/// Relies on servicepoint's `Grid::set` for `ByteGrid`: writes the byte at
/// `x + y * width` and nothing else; it panics out of bounds.
#[verifier::external_body]
fn byte_grid_set(g: &mut ByteGrid, x: usize, y: usize, value: u8)
    requires
        x < byte_grid_width(*old(g)),
        y < byte_grid_height(*old(g)),
    ensures
        byte_grid_width(*final(g)) == byte_grid_width(*old(g)),
        byte_grid_height(*final(g)) == byte_grid_height(*old(g)),
        byte_grid_cells(*final(g)) == byte_grid_cells(*old(g)).update(
            x + y * byte_grid_width(*old(g)),
            value,
        ),
{
    g.set(x, y, value);
}

/// How many units of food lie on each cell of a `width` × `height` field.
pub struct FoodField {
    pub width: usize,
    pub height: usize,
    pub grid: ByteGrid,
}

impl FoodField {
    pub open spec fn wf(&self) -> bool {
        &&& self.width > 0
        &&& self.height > 0
        &&& self.width * self.height <= usize::MAX
        &&& byte_grid_width(self.grid) == self.width
        &&& byte_grid_height(self.grid) == self.height
        &&& byte_grid_cells(self.grid).len() == self.width * self.height
    }

    pub open spec fn in_bounds(&self, x: int, y: int) -> bool {
        0 <= x < self.width && 0 <= y < self.height
    }

    /// The food on cell `(x, y)`.
    pub open spec fn amount(&self, x: int, y: int) -> u8 {
        byte_grid_cells(self.grid)[index_of(self.width as int, y, x)]
    }

    /// A field of the given size without food.
    pub fn new(width: usize, height: usize) -> (r: FoodField)
        requires
            width > 0,
            height > 0,
            width * height <= usize::MAX,
        ensures
            r.wf(),
            r.width == width,
            r.height == height,
            forall|x: int, y: int| r.in_bounds(x, y) ==> #[trigger] r.amount(x, y) == 0,
    {
        let r = FoodField { width, height, grid: byte_grid_new(width, height) };
        assert(height * width == width * height) by (nonlinear_arith);
        assert forall|x: int, y: int| r.in_bounds(x, y) implies #[trigger] r.amount(x, y) == 0 by {
            lemma_index(height as int, width as int, y, x);
        }
        r
    }

    /// The food on an in-bounds cell.
    pub fn get(&self, x: usize, y: usize) -> (r: u8)
        requires
            self.wf(),
            self.in_bounds(x as int, y as int),
        ensures
            r == self.amount(x as int, y as int),
    {
        proof {
            lemma_index(self.height as int, self.width as int, y as int, x as int);
            assert(self.height * self.width == self.width * self.height) by (nonlinear_arith);
        }
        byte_grid_get(&self.grid, x, y)
    }

    /// The food on cell `(x, y)`, or `None` when it lies outside the field.
    pub fn get_optional(&self, x: isize, y: isize) -> (r: Option<u8>)
        requires
            self.wf(),
        ensures
            r == (if self.in_bounds(x as int, y as int) {
                Some(self.amount(x as int, y as int))
            } else {
                None
            }),
    {
        if x < 0 || y < 0 {
            return None;
        }
        let (ux, uy) = (x as usize, y as usize);
        if ux >= self.width || uy >= self.height {
            None
        } else {
            Some(self.get(ux, uy))
        }
    }

    /// Puts `value` units of food on cell `(x, y)`; a cell outside the
    /// field leaves the field as it is.
    pub fn set(&mut self, x: usize, y: usize, value: u8)
        requires
            old(self).wf(),
        ensures
            final(self).wf(),
            final(self).width == old(self).width,
            final(self).height == old(self).height,
            !old(self).in_bounds(x as int, y as int) ==> *final(self) == *old(self),
            forall|cx: int, cy: int|
                old(self).in_bounds(cx, cy) ==> #[trigger] final(self).amount(cx, cy) == if cx
                    == x && cy == y {
                    value
                } else {
                    old(self).amount(cx, cy)
                },
    {
        if x >= self.width || y >= self.height {
            return;
        }
        proof {
            lemma_index(self.height as int, self.width as int, y as int, x as int);
        }
        byte_grid_set(&mut self.grid, x, y, value);
        proof {
            assert(self.height * self.width == self.width * self.height) by (nonlinear_arith);
            assert forall|cx: int, cy: int| old(self).in_bounds(cx, cy) implies #[trigger] self.amount(
                cx,
                cy,
            ) == if cx == x && cy == y {
                value
            } else {
                old(self).amount(cx, cy)
            } by {
                lemma_index(self.height as int, self.width as int, cy, cx);
            }
        }
    }

    /// Removes one unit of food from cell `(x, y)`, if it holds any; a cell
    /// outside the field leaves the field as it is.
    pub fn take_one(&mut self, x: usize, y: usize)
        requires
            old(self).wf(),
        ensures
            final(self).wf(),
            final(self).width == old(self).width,
            final(self).height == old(self).height,
            !old(self).in_bounds(x as int, y as int) ==> *final(self) == *old(self),
            forall|cx: int, cy: int|
                old(self).in_bounds(cx, cy) ==> #[trigger] final(self).amount(cx, cy) == if cx
                    == x && cy == y && old(self).amount(cx, cy) > 0 {
                    (old(self).amount(cx, cy) - 1) as u8
                } else {
                    old(self).amount(cx, cy)
                },
    {
        if x >= self.width || y >= self.height {
            return;
        }
        let here = self.get(x, y);
        self.set(x, y, here.saturating_sub(1));
    }
}

} // verus!
