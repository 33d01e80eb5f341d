use vstd::prelude::*;
use rand::Rng;

use crate::collision::{Point, Rect, move_towards, offset_coord, point_in_rect, step_toward, within_range};
use crate::environment::{Config, Environment};
use crate::food::FoodField;
use crate::nexus::{Nexus, sat_inc};
use crate::pheromone_grid::{PheromoneGrid, deposited};

verus! {

/// What an ant is doing.
#[derive(Copy, Clone, Debug, PartialEq, Eq, Structural)]
pub enum AntState {
    /// Looking for food, walking away from home.
    Searching,
    /// Walking to the food it saw at the given cell.
    FoundFood(Point),
    /// Carrying food back to the nexus.
    Homing,
    /// Walking to the given cell of the nexus to drop its food.
    Depositing(Point),
}

/// One member of the colony.
#[derive(Copy, Clone, Debug, PartialEq, Eq, Structural)]
pub struct Ant {
    pub position: Point,
    pub state: AntState,
}

/// Whether `p` lies on a `w` × `h` grid.
pub open spec fn on_grid(p: Point, w: int, h: int) -> bool {
    p.x < w && p.y < h
}

/// The first offset pair `(ox, oy)` in row `ox`, from `oy` on, for which
/// `hit` holds.
pub open spec fn first_hit_in_row(hit: spec_fn(int, int) -> bool, n: int, ox: int, oy: int) -> Option<
    (int, int),
>
    decreases n - oy,
{
    if oy >= n {
        None
    } else if hit(ox, oy) {
        Some((ox, oy))
    } else {
        first_hit_in_row(hit, n, ox, oy + 1)
    }
}

/// The first offset pair in `[0, n)²`, in lexicographic order from row
/// `ox` on, for which `hit` holds.
pub open spec fn first_hit(hit: spec_fn(int, int) -> bool, n: int, ox: int) -> Option<(int, int)>
    decreases n - ox,
{
    if ox >= n {
        None
    } else {
        match first_hit_in_row(hit, n, ox, 0) {
            Some(p) => Some(p),
            None => first_hit(hit, n, ox + 1),
        }
    }
}

/// The first hit from `(ox, oy)` on: the rest of row `ox`, then the rows
/// after it.
pub open spec fn first_hit_from(hit: spec_fn(int, int) -> bool, n: int, ox: int, oy: int) -> Option<
    (int, int),
> {
    match first_hit_in_row(hit, n, ox, oy) {
        Some(p) => Some(p),
        None => first_hit(hit, n, ox + 1),
    }
}

/// Whether the cell at offset indices `(ox, oy)` around `p` lies on the
/// field and holds food.
pub open spec fn food_hit(food: FoodField, p: Point, r: int) -> spec_fn(int, int) -> bool {
    |ox: int, oy: int|
        food.in_bounds(p.x + ox - r, p.y + oy - r) && food.amount(p.x + ox - r, p.y + oy - r) > 0
}

/// The first cell with food within distance `r` of `p`, scanning x offsets
/// from `-r` to `r` and, for each, y offsets from `-r` to `r`.
pub open spec fn food_sighting(food: FoodField, p: Point, r: int) -> Option<Point> {
    match first_hit(food_hit(food, p, r), 2 * r + 1, 0) {
        Some((ox, oy)) => Some(Point { x: (p.x + ox - r) as usize, y: (p.y + oy - r) as usize }),
        None => None,
    }
}

/// `c + d`, held to the range of `usize`.
pub open spec fn sat_coord(c: int, d: int) -> int {
    if c + d < 0 {
        0
    } else if c + d > usize::MAX {
        usize::MAX as int
    } else {
        c + d
    }
}

/// The point seen at offset indices `(ox, oy)` around `p`, each coordinate
/// held to the range of `usize`.
pub open spec fn seen_point(p: Point, r: int, ox: int, oy: int) -> Point {
    Point { x: sat_coord(p.x as int, ox - r) as usize, y: sat_coord(p.y as int, oy - r) as usize }
}

/// Whether the point at offset indices `(ox, oy)` around `p` lies in `rect`.
pub open spec fn nexus_hit(rect: Rect, p: Point, r: int) -> spec_fn(int, int) -> bool {
    |ox: int, oy: int|
        rect.contains_spec(seen_point(p, r, ox, oy).x as int, seen_point(p, r, ox, oy).y as int)
}

/// The first point of the nexus within distance `r` of `p`, in the same
/// scan order as [`food_sighting`].
pub open spec fn nexus_sighting(rect: Rect, p: Point, r: int) -> Option<Point> {
    match first_hit(nexus_hit(rect, p, r), 2 * r + 1, 0) {
        Some((ox, oy)) => Some(seen_point(p, r, ox, oy)),
        None => None,
    }
}

/// Keeps `best` unless `cand` is a cell with a strictly lower level.
pub open spec fn pick_lower(g: PheromoneGrid, best: Option<Point>, cand: Option<Point>) -> Option<
    Point,
> {
    match cand {
        None => best,
        Some(c) => match best {
            None => Some(c),
            Some(b) => if g.level(c.x as int, c.y as int) < g.level(b.x as int, b.y as int) {
                Some(c)
            } else {
                best
            },
        },
    }
}

/// The orthogonal neighbours of `p` on the grid of `g`.
pub open spec fn north_of(g: PheromoneGrid, p: Point) -> Option<Point> {
    if p.y > 0 {
        Some(Point { x: p.x, y: (p.y - 1) as usize })
    } else {
        None
    }
}

pub open spec fn south_of(g: PheromoneGrid, p: Point) -> Option<Point> {
    if p.y + 1 < g.height {
        Some(Point { x: p.x, y: (p.y + 1) as usize })
    } else {
        None
    }
}

pub open spec fn east_of(g: PheromoneGrid, p: Point) -> Option<Point> {
    if p.x + 1 < g.width {
        Some(Point { x: (p.x + 1) as usize, y: p.y })
    } else {
        None
    }
}

pub open spec fn west_of(g: PheromoneGrid, p: Point) -> Option<Point> {
    if p.x > 0 {
        Some(Point { x: (p.x - 1) as usize, y: p.y })
    } else {
        None
    }
}

/// The neighbour of `p` with the lowest level, looked at in the order
/// north, south, east, west; the first one found wins a tie.
pub open spec fn lowest_neighbor(g: PheromoneGrid, p: Point) -> Option<Point> {
    pick_lower(
        g,
        pick_lower(g, pick_lower(g, pick_lower(g, None, north_of(g, p)), south_of(g, p)), east_of(g, p)),
        west_of(g, p),
    )
}

/// One step in direction `dir` (0: +x, 1: -x, 2: +y, 3: -y), held to the
/// `w` × `h` grid.
pub open spec fn walked(p: Point, dir: u8, w: int, h: int) -> Point {
    if dir == 0 {
        Point { x: if p.x + 1 < w { (p.x + 1) as usize } else { (w - 1) as usize }, y: p.y }
    } else if dir == 1 {
        Point { x: if p.x > 0 { (p.x - 1) as usize } else { 0 }, y: p.y }
    } else if dir == 2 {
        Point { x: p.x, y: if p.y + 1 < h { (p.y + 1) as usize } else { (h - 1) as usize } }
    } else {
        Point { x: p.x, y: if p.y > 0 { (p.y - 1) as usize } else { 0 } }
    }
}

/// Whether an ant in `state` leaves home pheromone this tick.
pub open spec fn releases_pheromones(state: AntState) -> bool {
    state is Searching || state is FoundFood
}

/// Whether `ant` picks up a unit of food this tick.
pub open spec fn picks_up(ant: Ant, food: FoodField) -> bool {
    match ant.state {
        AntState::FoundFood(t) => ant.position == t && food.amount(t.x as int, t.y as int) > 0,
        _ => false,
    }
}

/// Whether `ant` delivers its food to the nexus this tick.
pub open spec fn delivers(ant: Ant) -> bool {
    match ant.state {
        AntState::Depositing(t) => ant.position == t,
        _ => false,
    }
}

/// The ant after one tick. `food` is the food field before the tick, `home`
/// the home pheromone after this ant's own deposit, `dir` the direction of a
/// random step should one be needed.
pub open spec fn next_ant(
    ant: Ant,
    food: FoodField,
    home: PheromoneGrid,
    nexus: Rect,
    cfg: Config,
    dir: u8,
) -> Ant {
    let p = ant.position;
    let r = cfg.vision_radius as int;
    match ant.state {
        AntState::Searching => match food_sighting(food, p, r) {
            Some(c) => Ant { position: p, state: AntState::FoundFood(c) },
            None => Ant {
                position: match lowest_neighbor(home, p) {
                    Some(q) => q,
                    None => walked(p, dir, cfg.width as int, cfg.height as int),
                },
                state: AntState::Searching,
            },
        },
        AntState::FoundFood(t) => if p != t {
            Ant { position: step_toward(p, t), state: ant.state }
        } else if food.amount(t.x as int, t.y as int) == 0 {
            Ant { position: p, state: AntState::Searching }
        } else {
            Ant { position: p, state: AntState::Homing }
        },
        AntState::Homing => match nexus_sighting(nexus, p, r) {
            Some(c) => Ant { position: p, state: AntState::Depositing(c) },
            None => Ant { position: step_toward(p, nexus.top_left), state: AntState::Homing },
        },
        AntState::Depositing(t) => if p != t {
            Ant { position: step_toward(p, t), state: ant.state }
        } else {
            Ant { position: p, state: AntState::Searching }
        },
    }
}

proof fn lemma_first_hit_in_row_sound(hit: spec_fn(int, int) -> bool, n: int, ox: int, oy: int)
    requires
        0 <= oy,
    ensures
        first_hit_in_row(hit, n, ox, oy) matches Some((a, b)) ==> a == ox && oy <= b < n && hit(a, b),
    decreases n - oy,
{
    if oy < n && !hit(ox, oy) {
        lemma_first_hit_in_row_sound(hit, n, ox, oy + 1);
    }
}

/// A hit that the scan finds lies in `[0, n)²` and satisfies `hit`.
pub proof fn lemma_first_hit_sound(hit: spec_fn(int, int) -> bool, n: int, ox: int)
    requires
        0 <= ox,
    ensures
        first_hit(hit, n, ox) matches Some((a, b)) ==> ox <= a < n && 0 <= b < n && hit(a, b),
    decreases n - ox,
{
    if ox < n {
        lemma_first_hit_in_row_sound(hit, n, ox, 0);
        lemma_first_hit_sound(hit, n, ox + 1);
    }
}

/// Scans the cells within distance `r` of `p` for food (see
/// [`food_sighting`]).
fn find_food(food: &FoodField, p: Point, r: usize) -> (res: Option<Point>)
    requires
        food.wf(),
        r < usize::MAX / 2,
    ensures
        res == food_sighting(*food, p, r as int),
{
    let ghost hit = food_hit(*food, p, r as int);
    let ghost n = 2 * r + 1;
    let last: usize = 2 * r;
    let mut ox: usize = 0;
    while ox <= last
        invariant
            food.wf(),
            last == 2 * r,
            n == last + 1,
            hit == food_hit(*food, p, r as int),
            ox <= last + 1,
            first_hit(hit, n, 0) == first_hit(hit, n, ox as int),
        decreases last + 1 - ox,
    {
        let cx = offset_coord(p.x, ox, r, food.width);
        let mut oy: usize = 0;
        while oy <= last
            invariant
                food.wf(),
                last == 2 * r,
                n == last + 1,
                hit == food_hit(*food, p, r as int),
                ox <= last,
                oy <= last + 1,
                cx == (if 0 <= p.x + ox - r < food.width {
                    Some((p.x + ox - r) as usize)
                } else {
                    None
                }),
                first_hit(hit, n, 0) == first_hit_from(hit, n, ox as int, oy as int),
            decreases last + 1 - oy,
        {
            let cy = offset_coord(p.y, oy, r, food.height);
            if let (Some(x), Some(y)) = (cx, cy) {
                if food.get(x, y) > 0 {
                    assert(hit(ox as int, oy as int));
                    return Some(Point { x, y });
                }
            }
            assert(!hit(ox as int, oy as int));
            oy += 1;
        }
        ox += 1;
    }
    None
}

/// Scans the points within distance `r` of `p` for one inside `rect` (see
/// [`nexus_sighting`]).
fn find_nexus(rect: Rect, p: Point, r: usize) -> (res: Option<Point>)
    requires
        r < usize::MAX / 2,
    ensures
        res == nexus_sighting(rect, p, r as int),
{
    let ghost hit = nexus_hit(rect, p, r as int);
    let ghost n = 2 * r + 1;
    let last: usize = 2 * r;
    let mut ox: usize = 0;
    while ox <= last
        invariant
            last == 2 * r,
            n == last + 1,
            hit == nexus_hit(rect, p, r as int),
            ox <= last + 1,
            first_hit(hit, n, 0) == first_hit(hit, n, ox as int),
        decreases last + 1 - ox,
    {
        let x = if ox < r {
            p.x.saturating_sub(r - ox)
        } else {
            p.x.saturating_add(ox - r)
        };
        let mut oy: usize = 0;
        while oy <= last
            invariant
                last == 2 * r,
                n == last + 1,
                hit == nexus_hit(rect, p, r as int),
                ox <= last,
                oy <= last + 1,
                x == sat_coord(p.x as int, ox - r),
                first_hit(hit, n, 0) == first_hit_from(hit, n, ox as int, oy as int),
            decreases last + 1 - oy,
        {
            let y = if oy < r {
                p.y.saturating_sub(r - oy)
            } else {
                p.y.saturating_add(oy - r)
            };
            let seen = Point { x, y };
            assert(seen == seen_point(p, r as int, ox as int, oy as int));
            if point_in_rect(seen, rect) {
                assert(hit(ox as int, oy as int));
                return Some(seen);
            }
            assert(!hit(ox as int, oy as int));
            oy += 1;
        }
        ox += 1;
    }
    None
}

/// Keeps `best` unless `cand` is a cell with a strictly lower level.
fn pick_lower_exec(g: &PheromoneGrid, best: Option<Point>, cand: Option<Point>) -> (r: Option<Point>)
    requires
        g.wf(),
        best matches Some(b) ==> g.in_bounds(b.x as int, b.y as int),
        cand matches Some(c) ==> g.in_bounds(c.x as int, c.y as int),
    ensures
        r == pick_lower(*g, best, cand),
        r matches Some(q) ==> g.in_bounds(q.x as int, q.y as int),
{
    match cand {
        None => best,
        Some(c) => match best {
            None => Some(c),
            Some(b) => if g.get(c.x, c.y) < g.get(b.x, b.y) {
                Some(c)
            } else {
                best
            },
        },
    }
}

proof fn lemma_first_hit_in_row_complete(hit: spec_fn(int, int) -> bool, n: int, ox: int, oy: int, b: int)
    requires
        0 <= oy <= b < n,
        hit(ox, b),
    ensures
        first_hit_in_row(hit, n, ox, oy) is Some,
    decreases n - oy,
{
    if !hit(ox, oy) {
        lemma_first_hit_in_row_complete(hit, n, ox, oy + 1, b);
    }
}

/// The scan finds a hit whenever `[0, n)²` holds one.
pub proof fn lemma_first_hit_complete(hit: spec_fn(int, int) -> bool, n: int, ox: int, a: int, b: int)
    requires
        0 <= ox <= a < n,
        0 <= b < n,
        hit(a, b),
    ensures
        first_hit(hit, n, ox) is Some,
    decreases n - ox,
{
    if ox == a {
        lemma_first_hit_in_row_complete(hit, n, ox, 0, b);
    } else if first_hit_in_row(hit, n, ox, 0) is None {
        lemma_first_hit_complete(hit, n, ox + 1, a, b);
    }
}

/// A searching ant with food on a cell within its vision range switches, on
/// its next tick, to heading for a cell within range that holds food, and
/// stays where it is.
pub proof fn searching_ant_finds_food(
    ant: Ant,
    food: FoodField,
    home: PheromoneGrid,
    nexus: Rect,
    cfg: Config,
    dir: u8,
    x: int,
    y: int,
)
    requires
        ant.state == AntState::Searching,
        food.in_bounds(x, y),
        within_range(ant.position, cfg.vision_radius as int, x, y),
        food.amount(x, y) > 0,
    ensures
        ({
            let next = next_ant(ant, food, home, nexus, cfg, dir);
            &&& next.position == ant.position
            &&& next.state matches AntState::FoundFood(c) && food.in_bounds(c.x as int, c.y as int)
                && within_range(ant.position, cfg.vision_radius as int, c.x as int, c.y as int)
                && food.amount(c.x as int, c.y as int) > 0
            &&& next.state == AntState::FoundFood(
                food_sighting(food, ant.position, cfg.vision_radius as int).unwrap(),
            )
        }),
{
    let (p, r) = (ant.position, cfg.vision_radius as int);
    let hit = food_hit(food, p, r);
    assert(hit(x - p.x + r, y - p.y + r));
    lemma_first_hit_complete(hit, 2 * r + 1, 0, x - p.x + r, y - p.y + r);
    lemma_first_hit_sound(hit, 2 * r + 1, 0);
}

/// An ant that reaches the food it headed for picks up one unit and heads
/// home when the cell holds food, and goes back to searching, taking
/// nothing, when it holds none.
pub proof fn found_food_ant_at_target(
    ant: Ant,
    food: FoodField,
    home: PheromoneGrid,
    nexus: Rect,
    cfg: Config,
    dir: u8,
)
    requires
        ant.state == AntState::FoundFood(ant.position),
    ensures
        ({
            let next = next_ant(ant, food, home, nexus, cfg, dir);
            let here = food.amount(ant.position.x as int, ant.position.y as int);
            &&& next.position == ant.position
            &&& here > 0 ==> next.state == AntState::Homing && picks_up(ant, food)
            &&& here == 0 ==> next.state == AntState::Searching && !picks_up(ant, food)
        }),
{
}

/// An ant that reaches the nexus cell it headed for delivers its food and
/// goes back to searching.
pub proof fn depositing_ant_at_target(
    ant: Ant,
    food: FoodField,
    home: PheromoneGrid,
    nexus: Rect,
    cfg: Config,
    dir: u8,
)
    requires
        ant.state == AntState::Depositing(ant.position),
    ensures
        delivers(ant),
        next_ant(ant, food, home, nexus, cfg, dir) == (Ant {
            position: ant.position,
            state: AntState::Searching,
        }),
{
}

/// One tick of `before`, for some direction of a random step: how the
/// ant, the fields and the nexus after it (`after`, `env2`, `nexus2`) follow
/// from those before it (`env`, `nexus`).
pub open spec fn ant_step(
    before: Ant,
    env: Environment,
    nexus: Nexus,
    after: Ant,
    env2: Environment,
    nexus2: Nexus,
) -> bool {
    let cfg = env.config;
    &&& env2.wf()
    &&& env2.config == cfg
    &&& env2.food_pheromone == env.food_pheromone
    &&& releases_pheromones(before.state) ==> forall|x: int, y: int|
        env.home_pheromone.in_bounds(x, y) ==> #[trigger] env2.home_pheromone.level(x, y)
            == deposited(
            env.home_pheromone.level(x, y),
            before.position,
            cfg.vision_radius as int,
            cfg.dose_center,
            cfg.dose_around,
            x,
            y,
        )
    &&& !releases_pheromones(before.state) ==> env2.home_pheromone == env.home_pheromone
    &&& picks_up(before, env.food) ==> forall|x: int, y: int|
        env.food.in_bounds(x, y) ==> #[trigger] env2.food.amount(x, y) == if x == before.position.x
            && y == before.position.y {
            (env.food.amount(x, y) - 1) as u8
        } else {
            env.food.amount(x, y)
        }
    &&& !picks_up(before, env.food) ==> env2.food == env.food
    &&& forall|x: int, y: int|
        env.food.in_bounds(x, y) ==> #[trigger] env2.food.amount(x, y) <= env.food.amount(x, y)
    &&& nexus2.rect == nexus.rect
    &&& nexus2.food == if delivers(before) {
        sat_inc(nexus.food)
    } else {
        nexus.food
    }
    &&& exists|dir: u8|
        dir < 4 && after == #[trigger] next_ant(
            before,
            env.food,
            env2.home_pheromone,
            nexus.rect,
            cfg,
            dir,
        )
    &&& after.wf(cfg.width as int, cfg.height as int)
}

/// Relies on rand's `thread_rng().gen_range(0..4)`: a value in `0 .. 4`.
#[verifier::external_body]
fn random_direction() -> (r: u8)
    ensures
        r < 4,
{
    rand::thread_rng().gen_range(0..4)
}

impl Ant {
    /// The ant stands on the grid, and so does any cell it heads for.
    pub open spec fn wf(&self, w: int, h: int) -> bool {
        &&& on_grid(self.position, w, h)
        &&& match self.state {
            AntState::FoundFood(t) => on_grid(t, w, h),
            AntState::Depositing(t) => on_grid(t, w, h),
            _ => true,
        }
    }

    /// A searching ant at `position`.
    pub fn new(position: Point) -> (r: Ant)
        ensures
            r.position == position,
            r.state == AntState::Searching,
    {
        Ant { position, state: AntState::Searching }
    }

    /// The orthogonal neighbour with the lowest level (see
    /// [`lowest_neighbor`]); `None` only on a one-cell grid.
    pub fn find_pheromones(&self, pheromones: &PheromoneGrid) -> (r: Option<Point>)
        requires
            pheromones.wf(),
            pheromones.in_bounds(self.position.x as int, self.position.y as int),
        ensures
            r == lowest_neighbor(*pheromones, self.position),
            r matches Some(q) ==> pheromones.in_bounds(q.x as int, q.y as int),
    {
        let p = self.position;
        let north = if p.y > 0 {
            Some(Point { x: p.x, y: p.y - 1 })
        } else {
            None
        };
        let south = if p.y + 1 < pheromones.height {
            Some(Point { x: p.x, y: p.y + 1 })
        } else {
            None
        };
        let east = if p.x + 1 < pheromones.width {
            Some(Point { x: p.x + 1, y: p.y })
        } else {
            None
        };
        let west = if p.x > 0 {
            Some(Point { x: p.x - 1, y: p.y })
        } else {
            None
        };
        let best = pick_lower_exec(pheromones, None, north);
        let best = pick_lower_exec(pheromones, best, south);
        let best = pick_lower_exec(pheromones, best, east);
        pick_lower_exec(pheromones, best, west)
    }

    /// Leaves home pheromone around the ant's cell, as configured.
    pub fn release_pheromones(&self, pheromone: &mut PheromoneGrid, cfg: Config)
        requires
            old(pheromone).wf(),
            cfg.wf(),
        ensures
            final(pheromone).wf(),
            final(pheromone).width == old(pheromone).width,
            final(pheromone).height == old(pheromone).height,
            forall|x: int, y: int|
                old(pheromone).in_bounds(x, y) ==> #[trigger] final(pheromone).level(x, y)
                    == deposited(
                    old(pheromone).level(x, y),
                    self.position,
                    cfg.vision_radius as int,
                    cfg.dose_center,
                    cfg.dose_around,
                    x,
                    y,
                ),
    {
        pheromone.deposit(self.position, cfg.vision_radius, cfg.dose_center, cfg.dose_around);
    }

    /// One tick of the state machine, with `dir` as the direction of a
    /// random step should the ant need one.
    pub fn step_with(&mut self, environment: &mut Environment, nexus: &mut Nexus, dir: u8)
        requires
            old(environment).wf(),
            old(self).wf(old(environment).config.width as int, old(environment).config.height as int),
            old(nexus).rect.wf(),
            on_grid(
                old(nexus).rect.bottom_right,
                old(environment).config.width as int,
                old(environment).config.height as int,
            ),
            dir < 4,
        ensures
            final(environment).wf(),
            final(environment).config == old(environment).config,
            final(environment).food_pheromone == old(environment).food_pheromone,
            releases_pheromones(old(self).state) ==> forall|x: int, y: int|
                old(environment).home_pheromone.in_bounds(x, y)
                    ==> #[trigger] final(environment).home_pheromone.level(x, y) == deposited(
                    old(environment).home_pheromone.level(x, y),
                    old(self).position,
                    old(environment).config.vision_radius as int,
                    old(environment).config.dose_center,
                    old(environment).config.dose_around,
                    x,
                    y,
                ),
            !releases_pheromones(old(self).state) ==> final(environment).home_pheromone == old(
                environment,
            ).home_pheromone,
            picks_up(*old(self), old(environment).food) ==> forall|x: int, y: int|
                old(environment).food.in_bounds(x, y) ==> #[trigger] final(environment).food.amount(
                    x,
                    y,
                ) == if x == old(self).position.x && y == old(self).position.y {
                    (old(environment).food.amount(x, y) - 1) as u8
                } else {
                    old(environment).food.amount(x, y)
                },
            !picks_up(*old(self), old(environment).food) ==> final(environment).food == old(
                environment,
            ).food,
            forall|x: int, y: int|
                old(environment).food.in_bounds(x, y) ==> #[trigger] final(environment).food.amount(
                    x,
                    y,
                ) <= old(environment).food.amount(x, y),
            final(nexus).rect == old(nexus).rect,
            final(nexus).food == if delivers(*old(self)) {
                sat_inc(old(nexus).food)
            } else {
                old(nexus).food
            },
            *final(self) == next_ant(
                *old(self),
                old(environment).food,
                final(environment).home_pheromone,
                old(nexus).rect,
                old(environment).config,
                dir,
            ),
            final(self).wf(old(environment).config.width as int, old(environment).config.height as int),
    {
        let cfg = environment.config;
        let ghost r = cfg.vision_radius as int;
        match self.state {
            AntState::Searching => {
                self.release_pheromones(&mut environment.home_pheromone, cfg);
                match find_food(&environment.food, self.position, cfg.vision_radius) {
                    Some(c) => {
                        proof {
                            lemma_first_hit_sound(food_hit(environment.food, self.position, r), 2 * r + 1, 0);
                        }
                        self.state = AntState::FoundFood(c);
                    },
                    None => match self.find_pheromones(&environment.home_pheromone) {
                        Some(q) => {
                            self.position = q;
                        },
                        None => {
                            self.walk(dir, cfg.width, cfg.height);
                        },
                    },
                }
            },
            AntState::Homing => {
                match find_nexus(nexus.rect, self.position, cfg.vision_radius) {
                    Some(c) => {
                        proof {
                            lemma_first_hit_sound(nexus_hit(nexus.rect, self.position, r), 2 * r + 1, 0);
                        }
                        self.state = AntState::Depositing(c);
                    },
                    None => {
                        self.move_towards(nexus.rect.top_left);
                    },
                }
            },
            AntState::FoundFood(target) => {
                self.release_pheromones(&mut environment.home_pheromone, cfg);
                if self.position != target {
                    self.move_towards(target);
                    return;
                }
                let here = environment.food.get(target.x, target.y);
                if here < 1 {
                    self.state = AntState::Searching;
                    return;
                }
                environment.food.take_one(target.x, target.y);
                self.state = AntState::Homing;
            },
            AntState::Depositing(target) => {
                if self.position != target {
                    self.move_towards(target);
                    return;
                }
                nexus.deposit_food();
                self.state = AntState::Searching;
            },
        }
    }

    /// One tick of the state machine (see [`ant_step`]). A direction is
    /// drawn at random each tick; it is used only when the ant has no
    /// neighbour to move to, which happens on a one-cell grid alone.
    pub fn step(&mut self, environment: &mut Environment, nexus: &mut Nexus)
        requires
            old(environment).wf(),
            old(self).wf(old(environment).config.width as int, old(environment).config.height as int),
            old(nexus).rect.wf(),
            on_grid(
                old(nexus).rect.bottom_right,
                old(environment).config.width as int,
                old(environment).config.height as int,
            ),
        ensures
            ant_step(
                *old(self),
                *old(environment),
                *old(nexus),
                *final(self),
                *final(environment),
                *final(nexus),
            ),
    {
        let dir = random_direction();
        self.step_with(environment, nexus, dir);
    }

    /// Moves one cell towards `target` (see [`step_toward`]).
    pub fn move_towards(&mut self, target: Point)
        ensures
            final(self).state == old(self).state,
            final(self).position == step_toward(old(self).position, target),
    {
        self.position = move_towards(self.position, target);
    }

    /// Takes one step in direction `dir`, held to the `width` × `height`
    /// grid (see [`walked`]).
    pub fn walk(&mut self, dir: u8, width: usize, height: usize)
        requires
            dir < 4,
            on_grid(old(self).position, width as int, height as int),
        ensures
            final(self).state == old(self).state,
            final(self).position == walked(old(self).position, dir, width as int, height as int),
    {
        if dir == 0 {
            self.position.x = if self.position.x + 1 < width {
                self.position.x + 1
            } else {
                width - 1
            };
        } else if dir == 1 {
            self.position.x = self.position.x.saturating_sub(1);
        } else if dir == 2 {
            self.position.y = if self.position.y + 1 < height {
                self.position.y + 1
            } else {
                height - 1
            };
        } else {
            self.position.y = self.position.y.saturating_sub(1);
        }
    }
}

} // verus!
