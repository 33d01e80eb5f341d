use vstd::prelude::*;

use crate::ant::{Ant, AntState, ant_step, on_grid};
use crate::collision::{Point, Rect};
use crate::environment::{Config, Environment};
use crate::food::FoodField;
use crate::nexus::{
    Nexus, pixel_grid_cells, pixel_grid_height, pixel_grid_height_of, pixel_grid_set,
    pixel_grid_width, pixel_grid_width_of,
};
use crate::pheromone_grid::lemma_index;
use servicepoint::PixelGrid;
use crate::pheromone_grid::{diffused, lemma_cell_of};

verus! {

/// The cells with food among the first `k` cells of `food`, taken column
/// by column: cell `(k / height, k % height)` is the `k`-th.
pub open spec fn food_cells_upto(food: FoodField, k: nat) -> Seq<Point>
    decreases k,
{
    if k == 0 {
        seq![]
    } else {
        let j = k - 1;
        let c = Point { x: (j / food.height as int) as usize, y: (j % food.height as int) as usize };
        let before = food_cells_upto(food, j as nat);
        if food.amount(c.x as int, c.y as int) > 0 {
            before.push(c)
        } else {
            before
        }
    }
}

/// Every cell of `food` that holds food, column by column.
pub open spec fn food_cells(food: FoodField) -> Seq<Point> {
    food_cells_upto(food, (food.width * food.height) as nat)
}

/// `env2` is `env` after the diffusion step that opens a tick: the food as
/// it was, both pheromone fields diffused.
pub open spec fn diffused_env(env: Environment, env2: Environment) -> bool {
    let (w, h, d) = (env.config.width as int, env.config.height as int, env.config.diffusion_divisor);
    &&& env2.wf()
    &&& env2.config == env.config
    &&& env2.food == env.food
    &&& env2.food_pheromone.cells@ == diffused(env.food_pheromone.cells@, w, h, d)
    &&& env2.home_pheromone.cells@ == diffused(env.home_pheromone.cells@, w, h, d)
}

/// A record of one tick from `c` to `c2`: `envs[0]` holds the fields of `c`
/// after diffusion, then ant `i` steps, in order, from `envs[i]` and
/// `nexi[i]` to `envs[i + 1]` and `nexi[i + 1]`; the last of each is what
/// `c2` holds.
pub open spec fn tick_trace(c: Colony, c2: Colony, envs: Seq<Environment>, nexi: Seq<Nexus>) -> bool {
    let n = c.ants@.len() as int;
    &&& envs.len() == n + 1
    &&& nexi.len() == n + 1
    &&& c2.ants@.len() == n
    &&& diffused_env(c.environment, envs[0])
    &&& nexi[0] == c.nexus
    &&& forall|i: int|
        0 <= i < n ==> #[trigger] ant_step(
            c.ants@[i],
            envs[i],
            nexi[i],
            c2.ants@[i],
            envs[i + 1],
            nexi[i + 1],
        )
    &&& c2.environment == envs[n]
    &&& c2.nexus == nexi[n]
}

/// Whether one of the first `n` ants stands on `(x, y)`.
pub open spec fn ant_on(ants: Seq<Ant>, n: int, x: int, y: int) -> bool {
    exists|j: int| 0 <= j < n && #[trigger] ants[j].position.x == x && ants[j].position.y == y
}

/// Whether the food loop, column `cx` then row `cy`, has passed cell
/// `(x, y)` and found food on it.
pub open spec fn food_seen_before(food: FoodField, cx: int, cy: int, x: int, y: int) -> bool {
    food.in_bounds(x, y) && food.amount(x, y) > 0 && (x < cx || (x == cx && y < cy))
}

/// Whether pixel `(x, y)` is lit in a frame of colony `c`: an ant stands
/// there, the cell holds food, or it lies in the nexus.
pub open spec fn lit(c: Colony, x: int, y: int) -> bool {
    ||| ant_on(c.ants@, c.ants@.len() as int, x, y)
    ||| (c.environment.food.in_bounds(x, y) && c.environment.food.amount(x, y) > 0)
    ||| c.nexus.rect.contains_spec(x, y)
}

/// What a renderer needs to draw one frame.
pub struct Snapshot {
    pub ants: Vec<Point>,
    pub food: Vec<Point>,
    pub nexus: Rect,
}

/// The whole simulation: the shared fields, the nexus and the ants.
pub struct Colony {
    pub nexus: Nexus,
    pub ants: Vec<Ant>,
    pub environment: Environment,
}

impl Colony {
    /// The fields are well formed, the nexus lies on the grid, and so does
    /// every ant.
    pub open spec fn wf(&self) -> bool {
        let (w, h) = (self.environment.config.width as int, self.environment.config.height as int);
        &&& self.environment.wf()
        &&& self.nexus.rect.wf()
        &&& on_grid(self.nexus.rect.bottom_right, w, h)
        &&& forall|i: int| 0 <= i < self.ants@.len() ==> #[trigger] self.ants@[i].wf(w, h)
    }

    /// An empty world with a nexus on `nexus_rect` and `ant_count` searching
    /// ants on its top left corner.
    pub fn new(config: Config, nexus_rect: Rect, ant_count: usize) -> (r: Colony)
        requires
            config.wf(),
            nexus_rect.wf(),
            on_grid(nexus_rect.bottom_right, config.width as int, config.height as int),
        ensures
            r.wf(),
            r.environment.config == config,
            r.nexus.rect == nexus_rect,
            r.nexus.food == 0,
            r.ants@.len() == ant_count,
            forall|i: int|
                0 <= i < ant_count ==> #[trigger] r.ants@[i] == (Ant {
                    position: nexus_rect.top_left,
                    state: AntState::Searching,
                }),
            forall|x: int, y: int|
                r.environment.food.in_bounds(x, y) ==> #[trigger] r.environment.food.amount(x, y)
                    == 0,
            forall|x: int, y: int|
                r.environment.home_pheromone.in_bounds(x, y)
                    ==> #[trigger] r.environment.home_pheromone.level(x, y) == 0,
            forall|x: int, y: int|
                r.environment.food_pheromone.in_bounds(x, y)
                    ==> #[trigger] r.environment.food_pheromone.level(x, y) == 0,
    {
        let mut ants: Vec<Ant> = Vec::new();
        while ants.len() < ant_count
            invariant
                ants@.len() <= ant_count,
                forall|i: int|
                    0 <= i < ants@.len() ==> #[trigger] ants@[i] == (Ant {
                        position: nexus_rect.top_left,
                        state: AntState::Searching,
                    }),
            decreases ant_count - ants@.len(),
        {
            ants.push(Ant::new(nexus_rect.top_left));
        }
        Colony { nexus: Nexus::new(nexus_rect), ants, environment: Environment::new(config) }
    }

    /// Puts `amount` units of food on cell `(x, y)`; a cell off the grid
    /// leaves the world as it is.
    pub fn seed_food(&mut self, x: usize, y: usize, amount: u8)
        requires
            old(self).wf(),
        ensures
            final(self).wf(),
            final(self).nexus == old(self).nexus,
            final(self).ants == old(self).ants,
            final(self).environment.config == old(self).environment.config,
            final(self).environment.home_pheromone == old(self).environment.home_pheromone,
            final(self).environment.food_pheromone == old(self).environment.food_pheromone,
            forall|cx: int, cy: int|
                old(self).environment.food.in_bounds(cx, cy)
                    ==> #[trigger] final(self).environment.food.amount(cx, cy) == if cx == x && cy
                    == y {
                    amount
                } else {
                    old(self).environment.food.amount(cx, cy)
                },
    {
        self.environment.food.set(x, y, amount);
    }

    /// One tick: a diffusion step on the pheromone fields, then one step of
    /// every ant, in order.
    pub fn tick(&mut self)
        requires
            old(self).wf(),
        ensures
            final(self).wf(),
            final(self).environment.config == old(self).environment.config,
            final(self).nexus.rect == old(self).nexus.rect,
            final(self).nexus.food >= old(self).nexus.food,
            final(self).ants@.len() == old(self).ants@.len(),
            exists|envs: Seq<Environment>, nexi: Seq<Nexus>|
                #[trigger] tick_trace(*old(self), *final(self), envs, nexi),
            final(self).environment.food_pheromone.cells@ == diffused(
                old(self).environment.food_pheromone.cells@,
                old(self).environment.config.width as int,
                old(self).environment.config.height as int,
                old(self).environment.config.diffusion_divisor,
            ),
            forall|x: int, y: int|
                old(self).environment.food.in_bounds(x, y)
                    ==> #[trigger] final(self).environment.food.amount(x, y)
                    <= old(self).environment.food.amount(x, y),
    {
        self.environment.step();
        let n = self.ants.len();
        let mut i: usize = 0;
        let ghost mut envs: Seq<Environment> = seq![self.environment];
        let ghost mut nexi: Seq<Nexus> = seq![self.nexus];
        while i < n
            invariant
                self.wf(),
                envs.len() == i + 1,
                nexi.len() == i + 1,
                diffused_env(old(self).environment, envs[0]),
                nexi[0] == old(self).nexus,
                envs[i as int] == self.environment,
                nexi[i as int] == self.nexus,
                forall|j: int|
                    0 <= j < i ==> #[trigger] ant_step(
                        old(self).ants@[j],
                        envs[j],
                        nexi[j],
                        self.ants@[j],
                        envs[j + 1],
                        nexi[j + 1],
                    ),
                forall|j: int| i <= j < n ==> #[trigger] self.ants@[j] == old(self).ants@[j],
                self.environment.config == old(self).environment.config,
                self.nexus.rect == old(self).nexus.rect,
                self.nexus.food >= old(self).nexus.food,
                self.ants@.len() == n,
                n == old(self).ants@.len(),
                self.environment.food.width == old(self).environment.food.width,
                self.environment.food.height == old(self).environment.food.height,
                i <= n,
                self.environment.food_pheromone.cells@ == diffused(
                    old(self).environment.food_pheromone.cells@,
                    old(self).environment.config.width as int,
                    old(self).environment.config.height as int,
                    old(self).environment.config.diffusion_divisor,
                ),
                forall|x: int, y: int|
                    old(self).environment.food.in_bounds(x, y)
                        ==> #[trigger] self.environment.food.amount(x, y)
                        <= old(self).environment.food.amount(x, y),
            decreases n - i,
        {
            let mut ant = self.ants[i];
            proof {
                assert(self.ants@[i as int].wf(
                    self.environment.config.width as int,
                    self.environment.config.height as int,
                ));
            }
            let ghost before = self.environment.food;
            ant.step(&mut self.environment, &mut self.nexus);
            proof {
                assert forall|x: int, y: int|
                    old(self).environment.food.in_bounds(x, y) implies #[trigger] self.environment.food.amount(
                    x,
                    y,
                ) <= old(self).environment.food.amount(x, y) by {
                    assert(before.in_bounds(x, y));
                    assert(self.environment.food.amount(x, y) <= before.amount(x, y));
                }
            }
            self.ants.set(i, ant);
            proof {
                envs = envs.push(self.environment);
                nexi = nexi.push(self.nexus);
            }
            i += 1;
        }
        proof {
            assert(tick_trace(*old(self), *self, envs, nexi));
        }
    }

    /// Switches on, in `pixel_grid`, the pixels of the ants, of the cells
    /// with food and of the nexus (see [`lit`]); other pixels stay as they
    /// are, and whatever lies off the frame is skipped.
    pub fn render(&self, pixel_grid: &mut PixelGrid)
        requires
            self.wf(),
        ensures
            pixel_grid_width(*final(pixel_grid)) == pixel_grid_width(*old(pixel_grid)),
            pixel_grid_height(*final(pixel_grid)) == pixel_grid_height(*old(pixel_grid)),
            pixel_grid_cells(*final(pixel_grid)).len() == pixel_grid_cells(*old(pixel_grid)).len(),
            pixel_grid_cells(*old(pixel_grid)).len() == pixel_grid_width(*old(pixel_grid))
                * pixel_grid_height(*old(pixel_grid)),
            forall|x: int, y: int|
                0 <= x < pixel_grid_width(*old(pixel_grid)) && 0 <= y < pixel_grid_height(
                    *old(pixel_grid),
                ) ==> #[trigger] pixel_grid_cells(*final(pixel_grid))[x + y * pixel_grid_width(
                    *old(pixel_grid),
                )] == (lit(*self, x, y) || pixel_grid_cells(*old(pixel_grid))[x + y
                    * pixel_grid_width(*old(pixel_grid))]),
    {
        let w = pixel_grid_width_of(pixel_grid);
        let h = pixel_grid_height_of(pixel_grid);
        let ghost start = pixel_grid_cells(*pixel_grid);
        let n = self.ants.len();
        let mut i: usize = 0;
        while i < n
            invariant
                n == self.ants@.len(),
                i <= n,
                start.len() == w * h,
                pixel_grid_width(*pixel_grid) == w,
                pixel_grid_height(*pixel_grid) == h,
                pixel_grid_cells(*pixel_grid).len() == start.len(),
                forall|px: int, py: int|
                    0 <= px < w && 0 <= py < h ==> #[trigger] pixel_grid_cells(*pixel_grid)[px + py
                        * w] == (ant_on(self.ants@, i as int, px, py) || start[px + py * w]),
            decreases n - i,
        {
            let p = self.ants[i].position;
            let ghost before = pixel_grid_cells(*pixel_grid);
            if p.x < w && p.y < h {
                proof {
                    lemma_index(h as int, w as int, p.y as int, p.x as int);
                    assert(h * w == w * h) by (nonlinear_arith);
                }
                pixel_grid_set(pixel_grid, p.x, p.y, true);
            }
            proof {
                assert forall|px: int, py: int|
                    0 <= px < w && 0 <= py < h implies #[trigger] pixel_grid_cells(*pixel_grid)[px
                    + py * w] == (ant_on(self.ants@, i + 1, px, py) || start[px + py * w]) by {
                    lemma_index(h as int, w as int, py, px);
                    assert(before[px + py * w] == (ant_on(self.ants@, i as int, px, py) || start[px
                        + py * w]));
                    let here = px == p.x && py == p.y;
                    if here {
                        assert(self.ants@[i as int].position.x == px);
                        assert(ant_on(self.ants@, i + 1, px, py));
                    } else {
                        if p.x < w && p.y < h {
                            assert(px + py * w != p.x + p.y * w);
                        }
                        if ant_on(self.ants@, i + 1, px, py) {
                            let j = choose|j: int|
                                0 <= j < i + 1 && #[trigger] self.ants@[j].position.x == px
                                    && self.ants@[j].position.y == py;
                            assert(j != i);
                            assert(ant_on(self.ants@, i as int, px, py));
                        }
                        if ant_on(self.ants@, i as int, px, py) {
                            let j = choose|j: int|
                                0 <= j < i && #[trigger] self.ants@[j].position.x == px
                                    && self.ants@[j].position.y == py;
                            assert(ant_on(self.ants@, i + 1, px, py));
                        }
                    }
                }
            }
            i += 1;
        }
        let food = &self.environment.food;
        let x_end = if food.width < w {
            food.width
        } else {
            w
        };
        let y_end = if food.height < h {
            food.height
        } else {
            h
        };
        let mut x: usize = 0;
        while x < x_end
            invariant
                food.wf(),
                x_end <= w,
                x_end <= food.width,
                x_end == w || x_end == food.width,
                y_end <= h,
                y_end <= food.height,
                y_end == h || y_end == food.height,
                x <= x_end,
                start.len() == w * h,
                pixel_grid_width(*pixel_grid) == w,
                pixel_grid_height(*pixel_grid) == h,
                pixel_grid_cells(*pixel_grid).len() == start.len(),
                forall|px: int, py: int|
                    0 <= px < w && 0 <= py < h ==> #[trigger] pixel_grid_cells(*pixel_grid)[px + py
                        * w] == (ant_on(self.ants@, n as int, px, py) || food_seen_before(
                        *food,
                        x as int,
                        0,
                        px,
                        py,
                    ) || start[px + py * w]),
            decreases x_end - x,
        {
            let mut y: usize = 0;
            while y < y_end
                invariant
                    food.wf(),
                    x < x_end,
                    x_end <= w,
                    x_end <= food.width,
                    y_end <= h,
                    y_end <= food.height,
                    y_end == h || y_end == food.height,
                    y <= y_end,
                    start.len() == w * h,
                    pixel_grid_width(*pixel_grid) == w,
                    pixel_grid_height(*pixel_grid) == h,
                    pixel_grid_cells(*pixel_grid).len() == start.len(),
                    forall|px: int, py: int|
                        0 <= px < w && 0 <= py < h ==> #[trigger] pixel_grid_cells(*pixel_grid)[px
                            + py * w] == (ant_on(self.ants@, n as int, px, py) || food_seen_before(
                            *food,
                            x as int,
                            y as int,
                            px,
                            py,
                        ) || start[px + py * w]),
                decreases y_end - y,
            {
                let ghost before = pixel_grid_cells(*pixel_grid);
                let has_food = food.get(x, y) > 0;
                if has_food {
                    proof {
                        lemma_index(h as int, w as int, y as int, x as int);
                        assert(h * w == w * h) by (nonlinear_arith);
                    }
                    pixel_grid_set(pixel_grid, x, y, true);
                }
                proof {
                    assert forall|px: int, py: int|
                        0 <= px < w && 0 <= py < h implies #[trigger] pixel_grid_cells(
                        *pixel_grid,
                    )[px + py * w] == (ant_on(self.ants@, n as int, px, py) || food_seen_before(
                        *food,
                        x as int,
                        y + 1,
                        px,
                        py,
                    ) || start[px + py * w]) by {
                        lemma_index(h as int, w as int, py, px);
                        assert(before[px + py * w] == (ant_on(self.ants@, n as int, px, py)
                            || food_seen_before(*food, x as int, y as int, px, py) || start[px + py
                            * w]));
                        if has_food && (px != x || py != y) {
                            assert(px + py * w != x + y * w);
                        }
                    }
                }
                y += 1;
            }
            x += 1;
        }
        let ghost mid = pixel_grid_cells(*pixel_grid);
        self.nexus.render(pixel_grid);
        proof {
            assert forall|px: int, py: int|
                0 <= px < w && 0 <= py < h implies #[trigger] pixel_grid_cells(*pixel_grid)[px + py
                * w] == (lit(*self, px, py) || start[px + py * w]) by {
                assert(mid[px + py * w] == (ant_on(self.ants@, n as int, px, py) || food_seen_before(
                    *food,
                    x as int,
                    0,
                    px,
                    py,
                ) || start[px + py * w]));
            }
        }
    }

    /// The ants' positions in order, the cells with food column by column,
    /// and the nexus.
    pub fn snapshot(&self) -> (r: Snapshot)
        requires
            self.wf(),
        ensures
            r.nexus == self.nexus.rect,
            r.ants@.len() == self.ants@.len(),
            forall|i: int| 0 <= i < r.ants@.len() ==> #[trigger] r.ants@[i] == self.ants@[i].position,
            r.food@ == food_cells(self.environment.food),
    {
        let mut ants: Vec<Point> = Vec::new();
        let mut i: usize = 0;
        while i < self.ants.len()
            invariant
                i <= self.ants@.len(),
                ants@.len() == i,
                forall|j: int| 0 <= j < i ==> #[trigger] ants@[j] == self.ants@[j].position,
            decreases self.ants@.len() - i,
        {
            ants.push(self.ants[i].position);
            i += 1;
        }
        let food = &self.environment.food;
        let n: usize = food.width * food.height;
        let h = food.height;
        let mut cells: Vec<Point> = Vec::new();
        let mut k: usize = 0;
        while k < n
            invariant
                food.wf(),
                n == food.width * food.height,
                h == food.height,
                k <= n,
                cells@ == food_cells_upto(*food, k as nat),
            decreases n - k,
        {
            proof {
                lemma_cell_of(food.width as int, h as int, k as int);
            }
            let c = Point { x: k / h, y: k % h };
            if food.get(c.x, c.y) > 0 {
                cells.push(c);
            }
            k += 1;
        }
        Snapshot { ants, food: cells, nexus: self.nexus.rect }
    }
}

} // verus!
