use vstd::prelude::*;
use vstd::arithmetic::div_mod::lemma_fundamental_div_mod;
use vstd::arithmetic::div_mod::lemma_fundamental_div_mod_converse;

use crate::collision::{Point, offset_coord, within_range};

verus! {

/// The amount of pheromone on one cell, in whole units.
pub type PheromoneLevel = u64;

/// `a + b`, held at the largest level.
pub open spec fn sat_add(a: u64, b: u64) -> u64 {
    if a + b > u64::MAX {
        u64::MAX
    } else {
        (a + b) as u64
    }
}

/// A `width` × `height` field of pheromone levels, stored column by column:
/// cell `(x, y)` sits at index `x * height + y`.
pub struct PheromoneGrid {
    pub width: usize,
    pub height: usize,
    pub cells: Vec<PheromoneLevel>,
}

/// Position of cell `(x, y)` in a column-major sequence with columns of
/// length `h`.
pub open spec fn index_of(h: int, x: int, y: int) -> int {
    x * h + y
}

/// Cells `(x, y)` and the indices below `w * h` are in one-to-one
/// correspondence.
pub proof fn lemma_index(w: int, h: int, x: int, y: int)
    requires
        0 <= x < w,
        0 <= y < h,
    ensures
        0 <= index_of(h, x, y) < w * h,
        index_of(h, x, y) / h == x,
        index_of(h, x, y) % h == y,
        x + 1 < w ==> index_of(h, x, y) + h < w * h,
        x > 0 ==> index_of(h, x, y) >= h,
{
    lemma_fundamental_div_mod_converse(x * h + y, h, x, y);
    assert(0 <= x * h) by (nonlinear_arith)
        requires
            0 <= x,
            0 < h,
    ;
    assert(x * h <= (w - 1) * h) by (nonlinear_arith)
        requires
            0 <= x < w,
            0 <= y < h,
    ;
    assert((w - 1) * h == w * h - h) by (nonlinear_arith);
    assert(x + 1 < w ==> x * h + y + h < w * h) by (nonlinear_arith)
        requires
            y < h,
            0 <= y,
    ;
    assert(x > 0 ==> x * h >= h) by (nonlinear_arith)
        requires
            0 < h,
    ;
}

/// Every index below `w * h` is the index of the cell `(k / h, k % h)`.
pub proof fn lemma_cell_of(w: int, h: int, k: int)
    requires
        0 < h,
        0 <= k < w * h,
    ensures
        0 <= k / h < w,
        0 <= k % h < h,
        index_of(h, k / h, k % h) == k,
{
    lemma_fundamental_div_mod(k, h);
    assert(h * (k / h) == (k / h) * h) by (nonlinear_arith);
    assert(k / h < w) by (nonlinear_arith)
        requires
            0 < h,
            0 <= k < w * h,
            k == (k / h) * h + k % h,
            0 <= k % h,
    ;
    assert(0 <= k / h) by (nonlinear_arith)
        requires
            0 < h,
            0 <= k,
    ;
}

/// The level of a cell at `(x, y)` with level `level` after a deposit
/// around `pos`: `center` on `pos` itself, `around` on every other cell
/// within Chebyshev distance `r`, nothing elsewhere.
pub open spec fn deposited(
    level: u64,
    pos: Point,
    r: int,
    center: u64,
    around: u64,
    x: int,
    y: int,
) -> u64 {
    if !within_range(pos, r, x, y) {
        level
    } else if x == pos.x && y == pos.y {
        sat_add(level, center)
    } else {
        sat_add(level, around)
    }
}

/// Whether the scan of offset indices, column `ox` then row `oy` in
/// lexicographic order, has reached cell `(x, y)` around `pos`.
pub open spec fn scanned(pos: Point, r: int, ox: int, oy: int, x: int, y: int) -> bool {
    within_range(pos, r, x, y) && (x - pos.x + r < ox || (x - pos.x + r == ox && y - pos.y
        + r < oy))
}

/// `s` with entry `i` raised by `v`, held at the largest level.
pub open spec fn add_at(s: Seq<u64>, i: int, v: u64) -> Seq<u64> {
    s.update(i, sat_add(s[i], v))
}

/// The share that cell level `level` hands to each of its four neighbours
/// in one diffusion move: a quarter of `level / divisor`, in whole units.
pub open spec fn share_of(level: u64, divisor: u64) -> u64 {
    ((level / divisor) / 4) as u64
}

/// One diffusion move on cell `k` of a column-major `w` × `h` field: the
/// cell gives up four shares (see [`share_of`]), and one share goes to each
/// orthogonal neighbour in the order north, south, east, west. A share whose
/// neighbour lies outside the field is lost.
pub open spec fn spread_from(s: Seq<u64>, w: int, h: int, divisor: u64, k: int) -> Seq<u64> {
    let share = share_of(s[k], divisor);
    if share == 0 {
        s
    } else {
        let x = k / h;
        let y = k % h;
        let s1 = s.update(k, (s[k] - 4 * share) as u64);
        let s2 = if y > 0 {
            add_at(s1, k - 1, share)
        } else {
            s1
        };
        let s3 = if y + 1 < h {
            add_at(s2, k + 1, share)
        } else {
            s2
        };
        let s4 = if x + 1 < w {
            add_at(s3, k + h, share)
        } else {
            s3
        };
        if x > 0 {
            add_at(s4, k - h, share)
        } else {
            s4
        }
    }
}

/// The field after the diffusion moves of cells `0 .. n`, taken one after
/// another in index order, each on the values left by the moves before it.
pub open spec fn diffused_prefix(s: Seq<u64>, w: int, h: int, divisor: u64, n: nat) -> Seq<u64>
    decreases n,
{
    if n == 0 {
        s
    } else {
        spread_from(diffused_prefix(s, w, h, divisor, (n - 1) as nat), w, h, divisor, n - 1)
    }
}

/// One full diffusion step: every cell's move, in index order.
pub open spec fn diffused(s: Seq<u64>, w: int, h: int, divisor: u64) -> Seq<u64> {
    diffused_prefix(s, w, h, divisor, s.len())
}

/// The sum of all levels.
pub open spec fn total(s: Seq<u64>) -> int
    decreases s.len(),
{
    if s.len() == 0 {
        0
    } else {
        total(s.drop_last()) + s.last()
    }
}

/// Whether `(x, y)` lies on the border of a `w` × `h` field.
pub open spec fn on_edge(w: int, h: int, x: int, y: int) -> bool {
    x == 0 || y == 0 || x + 1 == w || y + 1 == h
}

proof fn lemma_total_update(s: Seq<u64>, i: int, v: u64)
    requires
        0 <= i < s.len(),
    ensures
        total(s.update(i, v)) == total(s) - s[i] + v,
    decreases s.len(),
{
    let t = s.update(i, v);
    if i == s.len() - 1 {
        assert(t.drop_last() =~= s.drop_last());
    } else {
        assert(t.drop_last() =~= s.drop_last().update(i, v));
        lemma_total_update(s.drop_last(), i, v);
    }
}

proof fn lemma_add_at(s: Seq<u64>, i: int, v: u64)
    requires
        0 <= i < s.len(),
    ensures
        add_at(s, i, v).len() == s.len(),
        total(s) <= total(add_at(s, i, v)) <= total(s) + v,
        forall|j: int| 0 <= j < s.len() ==> #[trigger] add_at(s, i, v)[j] >= s[j],
{
    lemma_total_update(s, i, sat_add(s[i], v));
}

/// A single diffusion move never adds to the total, takes something away
/// when the moving cell lies on the border, and lowers no other cell.
proof fn lemma_spread(s: Seq<u64>, w: int, h: int, divisor: u64, k: int)
    requires
        w > 0,
        h > 0,
        s.len() == w * h,
        0 <= k < s.len(),
        divisor > 0,
    ensures
        spread_from(s, w, h, divisor, k).len() == s.len(),
        total(spread_from(s, w, h, divisor, k)) <= total(s),
        s[k] >= 4 * divisor && on_edge(w, h, k / h, k % h) ==> total(
            spread_from(s, w, h, divisor, k),
        ) < total(s),
        forall|j: int|
            0 <= j < s.len() && j != k ==> #[trigger] spread_from(s, w, h, divisor, k)[j] >= s[j],
{
    let share = share_of(s[k], divisor);
    if s[k] >= 4 * divisor {
        vstd::arithmetic::div_mod::lemma_div_is_ordered(
            4 * divisor as int,
            s[k] as int,
            divisor as int,
        );
        vstd::arithmetic::div_mod::lemma_div_multiples_vanish(4, divisor as int);
        assert(divisor * 4 == 4 * divisor);
    }
    if share != 0 {
        let x = k / h;
        let y = k % h;
        lemma_cell_of(w, h, k);
        lemma_index(w, h, x, y);
        if y + 1 < h {
            lemma_index(w, h, x, y + 1);
        }
        assert(s[k] >= 4 * share);
        let s1 = s.update(k, (s[k] - 4 * share) as u64);
        lemma_total_update(s, k, (s[k] - 4 * share) as u64);
        let s2 = if y > 0 {
            lemma_add_at(s1, k - 1, share);
            add_at(s1, k - 1, share)
        } else {
            s1
        };
        let s3 = if y + 1 < h {
            lemma_add_at(s2, k + 1, share);
            add_at(s2, k + 1, share)
        } else {
            s2
        };
        let s4 = if x + 1 < w {
            lemma_add_at(s3, k + h, share);
            add_at(s3, k + h, share)
        } else {
            s3
        };
        let s5 = if x > 0 {
            lemma_add_at(s4, k - h, share);
            add_at(s4, k - h, share)
        } else {
            s4
        };
        assert(s5 == spread_from(s, w, h, divisor, k));
    }
}

/// The moves of cells `0 .. n` keep the length, never add to the total, and
/// lower none of the cells that have not moved yet.
proof fn lemma_prefix(s: Seq<u64>, w: int, h: int, divisor: u64, n: nat)
    requires
        w > 0,
        h > 0,
        s.len() == w * h,
        n <= s.len(),
        divisor > 0,
    ensures
        diffused_prefix(s, w, h, divisor, n).len() == s.len(),
        total(diffused_prefix(s, w, h, divisor, n)) <= total(s),
        forall|j: int|
            n <= j < s.len() ==> #[trigger] diffused_prefix(s, w, h, divisor, n)[j] >= s[j],
    decreases n,
{
    if n > 0 {
        let m = (n - 1) as nat;
        lemma_prefix(s, w, h, divisor, m);
        lemma_spread(diffused_prefix(s, w, h, divisor, m), w, h, divisor, m as int);
        assert forall|j: int| n <= j < s.len() implies #[trigger] diffused_prefix(
            s,
            w,
            h,
            divisor,
            n,
        )[j] >= s[j] by {
            assert(diffused_prefix(s, w, h, divisor, m)[j] >= s[j]);
        }
    }
}

/// Later prefixes of a diffusion step hold no more than earlier ones.
proof fn lemma_prefix_between(s: Seq<u64>, w: int, h: int, divisor: u64, n: nat, m: nat)
    requires
        w > 0,
        h > 0,
        s.len() == w * h,
        n <= m <= s.len(),
        divisor > 0,
    ensures
        total(diffused_prefix(s, w, h, divisor, m)) <= total(diffused_prefix(s, w, h, divisor, n)),
    decreases m,
{
    if m > n {
        let p = (m - 1) as nat;
        lemma_prefix_between(s, w, h, divisor, n, p);
        lemma_prefix(s, w, h, divisor, p);
        lemma_spread(diffused_prefix(s, w, h, divisor, p), w, h, divisor, p as int);
    }
}

/// A diffusion step never increases the total amount of pheromone. When a
/// cell on the border holds at least `4 * divisor` units, that cell hands
/// out a non-zero share, the share of a missing neighbour is lost, and the
/// total strictly decreases.
pub proof fn diffusion_never_gains_mass(g: PheromoneGrid, divisor: u64)
    requires
        g.wf(),
        divisor > 0,
    ensures
        total(diffused(g.cells@, g.width as int, g.height as int, divisor)) <= total(g.cells@),
        (exists|x: int, y: int|
            g.in_bounds(x, y) && on_edge(g.width as int, g.height as int, x, y) && #[trigger] g.level(
                x,
                y,
            ) >= 4 * divisor) ==> total(diffused(g.cells@, g.width as int, g.height as int, divisor))
            < total(g.cells@),
{
    let (s, w, h) = (g.cells@, g.width as int, g.height as int);
    lemma_prefix(s, w, h, divisor, s.len());
    if exists|x: int, y: int|
        g.in_bounds(x, y) && on_edge(w, h, x, y) && #[trigger] g.level(x, y) >= 4 * divisor {
        let (x, y) = choose|x: int, y: int|
            g.in_bounds(x, y) && on_edge(w, h, x, y) && #[trigger] g.level(x, y) >= 4 * divisor;
        lemma_index(w, h, x, y);
        let e = index_of(h, x, y);
        lemma_prefix(s, w, h, divisor, e as nat);
        lemma_spread(diffused_prefix(s, w, h, divisor, e as nat), w, h, divisor, e);
        lemma_prefix_between(s, w, h, divisor, (e + 1) as nat, s.len());
    }
}

/// A diffusion step leaves a field with no pheromone as it is.
pub proof fn diffusion_keeps_empty_field(g: PheromoneGrid, divisor: u64)
    requires
        g.wf(),
        divisor > 0,
        forall|k: int| 0 <= k < g.cells@.len() ==> g.cells@[k] == 0,
    ensures
        diffused(g.cells@, g.width as int, g.height as int, divisor) == g.cells@,
{
    let (s, w, h) = (g.cells@, g.width as int, g.height as int);
    lemma_prefix_of_empty(s, w, h, divisor, s.len());
}

proof fn lemma_prefix_of_empty(s: Seq<u64>, w: int, h: int, divisor: u64, n: nat)
    requires
        divisor > 0,
        n <= s.len(),
        forall|k: int| 0 <= k < s.len() ==> s[k] == 0,
    ensures
        diffused_prefix(s, w, h, divisor, n) == s,
    decreases n,
{
    if n > 0 {
        lemma_prefix_of_empty(s, w, h, divisor, (n - 1) as nat);
        assert(share_of(s[n - 1], divisor) == 0);
    }
}

impl PheromoneGrid {
    /// The grid has a positive size and one level per cell.
    pub open spec fn wf(&self) -> bool {
        &&& self.width > 0
        &&& self.height > 0
        &&& self.width * self.height <= usize::MAX
        &&& self.cells@.len() == self.width * self.height
    }

    pub open spec fn in_bounds(&self, x: int, y: int) -> bool {
        0 <= x < self.width && 0 <= y < self.height
    }

    /// The level of cell `(x, y)`.
    pub open spec fn level(&self, x: int, y: int) -> u64 {
        self.cells@[index_of(self.height as int, x, y)]
    }

    /// An empty field of the given size.
    pub fn new(width: usize, height: usize) -> (r: PheromoneGrid)
        requires
            width > 0,
            height > 0,
            width * height <= usize::MAX,
        ensures
            r.wf(),
            r.width == width,
            r.height == height,
            forall|x: int, y: int| r.in_bounds(x, y) ==> #[trigger] r.level(x, y) == 0,
    {
        let n: usize = width * height;
        let mut cells: Vec<PheromoneLevel> = Vec::new();
        while cells.len() < n
            invariant
                cells.len() <= n,
                forall|k: int| 0 <= k < cells.len() ==> cells@[k] == 0,
            decreases n - cells.len(),
        {
            cells.push(0);
        }
        let r = PheromoneGrid { width, height, cells };
        assert forall|x: int, y: int| r.in_bounds(x, y) implies #[trigger] r.level(x, y) == 0 by {
            lemma_index(width as int, height as int, x, y);
        }
        r
    }

    /// The level of an in-bounds cell.
    pub fn get(&self, x: usize, y: usize) -> (r: PheromoneLevel)
        requires
            self.wf(),
            self.in_bounds(x as int, y as int),
        ensures
            r == self.level(x as int, y as int),
    {
        proof {
            lemma_index(self.width as int, self.height as int, x as int, y as int);
            assert(x * self.height + y < self.cells@.len());
        }
        self.cells[x * self.height + y]
    }

    /// The level of cell `(x, y)`, or `None` when it lies outside the grid.
    pub fn get_optional(&self, x: isize, y: isize) -> (r: Option<PheromoneLevel>)
        requires
            self.wf(),
        ensures
            r == (if self.in_bounds(x as int, y as int) {
                Some(self.level(x as int, y as int))
            } else {
                None
            }),
    {
        if x < 0 || y < 0 {
            return None;
        }
        let (ux, uy) = (x as usize, y as usize);
        if ux >= self.width || uy >= self.height {
            None
        } else {
            Some(self.get(ux, uy))
        }
    }

    /// Raises cell `(x, y)` by `amount`, held at the largest level; a cell
    /// outside the grid leaves the grid as it is.
    pub fn add_optional(&mut self, x: isize, y: isize, amount: PheromoneLevel)
        requires
            old(self).wf(),
        ensures
            final(self).wf(),
            final(self).width == old(self).width,
            final(self).height == old(self).height,
            !old(self).in_bounds(x as int, y as int) ==> *final(self) == *old(self),
            forall|cx: int, cy: int|
                old(self).in_bounds(cx, cy) ==> #[trigger] final(self).level(cx, cy) == if cx
                    == x && cy == y {
                    sat_add(old(self).level(cx, cy), amount)
                } else {
                    old(self).level(cx, cy)
                },
    {
        if x < 0 || y < 0 {
            return;
        }
        let (ux, uy) = (x as usize, y as usize);
        if ux >= self.width || uy >= self.height {
            return;
        }
        self.add_at(ux, uy, amount);
    }

    /// Deposits `center` on `pos` and `around` on every other cell within
    /// Chebyshev distance `radius` of it; cells outside the grid are skipped.
    pub fn deposit(&mut self, pos: Point, radius: usize, center: PheromoneLevel, around: PheromoneLevel)
        requires
            old(self).wf(),
            radius < usize::MAX / 2,
        ensures
            final(self).wf(),
            final(self).width == old(self).width,
            final(self).height == old(self).height,
            forall|x: int, y: int|
                old(self).in_bounds(x, y) ==> #[trigger] final(self).level(x, y) == deposited(
                    old(self).level(x, y),
                    pos,
                    radius as int,
                    center,
                    around,
                    x,
                    y,
                ),
    {
        let last: usize = 2 * radius;
        let mut ox: usize = 0;
        while ox <= last
            invariant
                self.wf(),
                self.width == old(self).width,
                self.height == old(self).height,
                last == 2 * radius,
                ox <= last + 1,
                forall|x: int, y: int|
                    old(self).in_bounds(x, y) ==> #[trigger] self.level(x, y) == if scanned(
                        pos,
                        radius as int,
                        ox as int,
                        0,
                        x,
                        y,
                    ) {
                        deposited(old(self).level(x, y), pos, radius as int, center, around, x, y)
                    } else {
                        old(self).level(x, y)
                    },
            decreases last + 1 - ox,
        {
            let cx = offset_coord(pos.x, ox, radius, self.width);
            let mut oy: usize = 0;
            while oy <= last
                invariant
                    self.wf(),
                    self.width == old(self).width,
                    self.height == old(self).height,
                    last == 2 * radius,
                    ox <= last,
                    oy <= last + 1,
                    cx == (if 0 <= pos.x + ox - radius < self.width {
                        Some((pos.x + ox - radius) as usize)
                    } else {
                        None
                    }),
                    forall|x: int, y: int|
                        old(self).in_bounds(x, y) ==> #[trigger] self.level(x, y) == if scanned(
                            pos,
                            radius as int,
                            ox as int,
                            oy as int,
                            x,
                            y,
                        ) {
                            deposited(old(self).level(x, y), pos, radius as int, center, around, x, y)
                        } else {
                            old(self).level(x, y)
                        },
                decreases last + 1 - oy,
            {
                let cy = offset_coord(pos.y, oy, radius, self.height);
                match (cx, cy) {
                    (Some(x), Some(y)) => {
                        let dose = if ox == radius && oy == radius {
                            center
                        } else {
                            around
                        };
                        self.add_at(x, y, dose);
                    },
                    _ => {},
                }
                oy += 1;
            }
            ox += 1;
        }
    }

    /// One diffusion step over the whole field (see [`diffused`]).
    pub fn diffuse(&mut self, divisor: PheromoneLevel)
        requires
            old(self).wf(),
            divisor > 0,
        ensures
            final(self).wf(),
            final(self).width == old(self).width,
            final(self).height == old(self).height,
            final(self).cells@ == diffused(
                old(self).cells@,
                old(self).width as int,
                old(self).height as int,
                divisor,
            ),
    {
        let n = self.cells.len();
        let mut k: usize = 0;
        while k < n
            invariant
                self.wf(),
                self.width == old(self).width,
                self.height == old(self).height,
                n == old(self).cells@.len(),
                n == self.cells@.len(),
                divisor > 0,
                k <= n,
                self.cells@ == diffused_prefix(
                    old(self).cells@,
                    self.width as int,
                    self.height as int,
                    divisor,
                    k as nat,
                ),
            decreases n - k,
        {
            self.spread_cell(k, divisor);
            k += 1;
        }
    }

    /// The diffusion move of cell `k` (see [`spread_from`]).
    fn spread_cell(&mut self, k: usize, divisor: PheromoneLevel)
        requires
            old(self).wf(),
            k < old(self).cells@.len(),
            divisor > 0,
        ensures
            final(self).wf(),
            final(self).width == old(self).width,
            final(self).height == old(self).height,
            final(self).cells@ == spread_from(
                old(self).cells@,
                old(self).width as int,
                old(self).height as int,
                divisor,
                k as int,
            ),
    {
        let level = self.cells[k];
        let share = level / divisor / 4;
        if share == 0 {
            return;
        }
        let (w, h) = (self.width, self.height);
        let x = k / h;
        let y = k % h;
        proof {
            lemma_cell_of(w as int, h as int, k as int);
            lemma_index(w as int, h as int, x as int, y as int);
            if y + 1 < h {
                lemma_index(w as int, h as int, x as int, y + 1);
            }
        }
        self.cells.set(k, level - 4 * share);
        if y > 0 {
            self.bump(k - 1, share);
        }
        if y + 1 < h {
            self.bump(k + 1, share);
        }
        if x + 1 < w {
            self.bump(k + h, share);
        }
        if x > 0 {
            self.bump(k - h, share);
        }
    }

    /// Raises entry `i` by `v`, held at the largest level.
    fn bump(&mut self, i: usize, v: PheromoneLevel)
        requires
            old(self).wf(),
            i < old(self).cells@.len(),
        ensures
            final(self).wf(),
            final(self).width == old(self).width,
            final(self).height == old(self).height,
            final(self).cells@ == add_at(old(self).cells@, i as int, v),
    {
        let raised = self.cells[i].saturating_add(v);
        self.cells.set(i, raised);
    }

    /// Raises the in-bounds cell `(x, y)` by `amount`, held at the largest
    /// level.
    fn add_at(&mut self, x: usize, y: usize, amount: PheromoneLevel)
        requires
            old(self).wf(),
            old(self).in_bounds(x as int, y as int),
        ensures
            final(self).wf(),
            final(self).width == old(self).width,
            final(self).height == old(self).height,
            final(self).cells@ == old(self).cells@.update(
                index_of(old(self).height as int, x as int, y as int),
                sat_add(old(self).level(x as int, y as int), amount),
            ),
            forall|cx: int, cy: int|
                old(self).in_bounds(cx, cy) ==> #[trigger] final(self).level(cx, cy) == if cx
                    == x && cy == y {
                    sat_add(old(self).level(cx, cy), amount)
                } else {
                    old(self).level(cx, cy)
                },
    {
        let h = self.height;
        proof {
            lemma_index(self.width as int, h as int, x as int, y as int);
            assert(x * h + y < self.cells@.len());
        }
        let k: usize = x * h + y;
        let v = self.cells[k].saturating_add(amount);
        self.cells.set(k, v);
        proof {
            assert forall|cx: int, cy: int| old(self).in_bounds(cx, cy) implies #[trigger] self.level(
                cx,
                cy,
            ) == if cx == x && cy == y {
                sat_add(old(self).level(cx, cy), amount)
            } else {
                old(self).level(cx, cy)
            } by {
                lemma_index(self.width as int, h as int, cx, cy);
            }
        }
    }
}

} // verus!
