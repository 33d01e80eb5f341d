use vstd::prelude::*;

use crate::ant::{
    Ant, AntState, delivers, first_hit, food_hit, food_sighting, lemma_first_hit_complete,
    lemma_first_hit_sound, nexus_hit, nexus_sighting, next_ant, picks_up, seen_point,
};
use crate::collision::{Point, step_toward, within_range};
use crate::colony::{Colony, tick_trace};
use crate::environment::Environment;
use crate::nexus::{Nexus, sat_inc};

verus! {

/// Whether one tick can take colony `c` to `c2`.
pub open spec fn ticks_to(c: Colony, c2: Colony) -> bool {
    exists|envs: Seq<Environment>, nexi: Seq<Nexus>| #[trigger] tick_trace(c, c2, envs, nexi)
}

/// Whether each colony of `cs` is what one tick makes of the one before.
pub open spec fn is_run(cs: Seq<Colony>) -> bool {
    forall|j: int| 0 <= j < cs.len() - 1 ==> #[trigger] ticks_to(cs[j], cs[j + 1])
}

/// The Manhattan distance between two points.
pub open spec fn manhattan(a: Point, b: Point) -> int {
    (if a.x >= b.x { a.x - b.x } else { b.x - a.x }) + (if a.y >= b.y { a.y - b.y } else { b.y - a.y })
}

/// One tick of a colony with a single ant.
proof fn lemma_single_tick(c: Colony, c2: Colony)
    requires
        ticks_to(c, c2),
        c.ants@.len() == 1,
    ensures
        c2.ants@.len() == 1,
        c2.environment.config == c.environment.config,
        c2.nexus.rect == c.nexus.rect,
        c2.nexus.food == if delivers(c.ants@[0]) {
            sat_inc(c.nexus.food)
        } else {
            c.nexus.food
        },
        !picks_up(c.ants@[0], c.environment.food) ==> c2.environment.food == c.environment.food,
        picks_up(c.ants@[0], c.environment.food) ==> forall|x: int, y: int|
            c.environment.food.in_bounds(x, y) ==> #[trigger] c2.environment.food.amount(x, y) == if x
                == c.ants@[0].position.x && y == c.ants@[0].position.y {
                (c.environment.food.amount(x, y) - 1) as u8
            } else {
                c.environment.food.amount(x, y)
            },
        exists|dir: u8|
            dir < 4 && c2.ants@[0] == #[trigger] next_ant(
                c.ants@[0],
                c.environment.food,
                c2.environment.home_pheromone,
                c.nexus.rect,
                c.environment.config,
                dir,
            ),
{
    let (envs, nexi) = choose|envs: Seq<Environment>, nexi: Seq<Nexus>|
        #[trigger] tick_trace(c, c2, envs, nexi);
    assert(crate::ant::ant_step(c.ants@[0], envs[0], nexi[0], c2.ants@[0], envs[1], nexi[1]));
}

/// An ant heading for `t` (for food or for the nexus) reaches it after as
/// many ticks as the Manhattan distance, while the food and the nexus stay
/// as they are.
proof fn lemma_approach(cs: Seq<Colony>, i: int, t: Point)
    requires
        is_run(cs),
        0 <= i,
        cs[i].ants@.len() == 1,
        cs[i].ants@[0].state == AntState::FoundFood(t) || cs[i].ants@[0].state
            == AntState::Depositing(t),
        i + manhattan(cs[i].ants@[0].position, t) < cs.len(),
    ensures
        ({
            let k = i + manhattan(cs[i].ants@[0].position, t);
            &&& cs[k].ants@.len() == 1
            &&& cs[k].ants@[0] == (Ant { position: t, state: cs[i].ants@[0].state })
            &&& cs[k].environment.food == cs[i].environment.food
            &&& cs[k].environment.config == cs[i].environment.config
            &&& cs[k].nexus == cs[i].nexus
        }),
    decreases manhattan(cs[i].ants@[0].position, t),
{
    let a = cs[i].ants@[0];
    if a.position != t {
        assert(ticks_to(cs[i], cs[i + 1]));
        lemma_single_tick(cs[i], cs[i + 1]);
        let dir = choose|dir: u8|
            dir < 4 && cs[i + 1].ants@[0] == #[trigger] next_ant(
                a,
                cs[i].environment.food,
                cs[i + 1].environment.home_pheromone,
                cs[i].nexus.rect,
                cs[i].environment.config,
                dir,
            );
        assert(cs[i + 1].ants@[0] == (Ant { position: step_toward(a.position, t), state: a.state }));
        assert(manhattan(step_toward(a.position, t), t) == manhattan(a.position, t) - 1);
        lemma_approach(cs, i + 1, t);
    }
}

/// Whether, in colony `c`, the ant is searching again, the nexus holds one
/// unit of food and cell `p` is empty.
pub open spec fn brought_home(c: Colony, p: Point) -> bool {
    &&& c.ants@[0].state == AntState::Searching
    &&& c.nexus.food == 1
    &&& c.environment.food.amount(p.x as int, p.y as int) == 0
}

/// The first half of a trip: the ant sees the food at `p`, walks to it and
/// picks it up.
proof fn lemma_fetch(cs: Seq<Colony>, p: Point)
    requires
        is_run(cs),
        cs[0].ants@.len() == 1,
        cs[0].ants@[0] == (Ant { position: cs[0].nexus.rect.top_left, state: AntState::Searching }),
        cs[0].environment.food.in_bounds(p.x as int, p.y as int),
        cs[0].environment.food.amount(p.x as int, p.y as int) == 1,
        forall|x: int, y: int|
            cs[0].environment.food.in_bounds(x, y) && (x != p.x || y != p.y)
                ==> #[trigger] cs[0].environment.food.amount(x, y) == 0,
        within_range(
            cs[0].nexus.rect.top_left,
            cs[0].environment.config.vision_radius as int,
            p.x as int,
            p.y as int,
        ),
        cs.len() == 5 + 4 * cs[0].environment.config.vision_radius,
    ensures
        ({
            let i = 2 + manhattan(cs[0].nexus.rect.top_left, p);
            &&& manhattan(cs[0].nexus.rect.top_left, p) <= 2 * cs[0].environment.config.vision_radius
            &&& cs[i].ants@.len() == 1
            &&& cs[i].ants@[0] == (Ant { position: p, state: AntState::Homing })
            &&& cs[i].environment.food.amount(p.x as int, p.y as int) == 0
            &&& cs[i].environment.config == cs[0].environment.config
            &&& cs[i].nexus == cs[0].nexus
        }),
{
    let c0 = cs[0];
    let r = c0.environment.config.vision_radius as int;
    let food = c0.environment.food;
    let tl = c0.nexus.rect.top_left;
    let hit = food_hit(food, tl, r);
    assert(hit(p.x - tl.x + r, p.y - tl.y + r));
    lemma_first_hit_complete(hit, 2 * r + 1, 0, p.x - tl.x + r, p.y - tl.y + r);
    lemma_first_hit_sound(hit, 2 * r + 1, 0);
    assert(food_sighting(food, tl, r) == Some(p));
    assert(ticks_to(cs[0], cs[1]));
    lemma_single_tick(cs[0], cs[1]);
    assert(cs[1].ants@[0] == (Ant { position: tl, state: AntState::FoundFood(p) }));
    lemma_approach(cs, 1, p);
    let i1 = 1 + manhattan(tl, p);
    assert(ticks_to(cs[i1], cs[i1 + 1]));
    lemma_single_tick(cs[i1], cs[i1 + 1]);
    assert(picks_up(cs[i1].ants@[0], cs[i1].environment.food));
}

/// The second half of a trip: a homing ant on `p`, within sight of the
/// nexus corner, sees the nexus, walks to the cell it saw and delivers.
proof fn lemma_deliver(cs: Seq<Colony>, i: int, p: Point)
    requires
        is_run(cs),
        0 <= i,
        cs[i].ants@.len() == 1,
        cs[i].ants@[0] == (Ant { position: p, state: AntState::Homing }),
        cs[i].nexus.rect.wf(),
        cs[i].nexus.food == 0,
        cs[i].environment.food.amount(p.x as int, p.y as int) == 0,
        within_range(
            cs[i].nexus.rect.top_left,
            cs[i].environment.config.vision_radius as int,
            p.x as int,
            p.y as int,
        ),
        i + 2 + 2 * cs[i].environment.config.vision_radius < cs.len(),
    ensures
        exists|k: int|
            i < k <= i + 2 + 2 * cs[i].environment.config.vision_radius && #[trigger] brought_home(
                cs[k],
                p,
            ),
{
    let r = cs[i].environment.config.vision_radius as int;
    let rect = cs[i].nexus.rect;
    let tl = rect.top_left;
    let nhit = nexus_hit(rect, p, r);
    assert(seen_point(p, r, tl.x - p.x + r, tl.y - p.y + r) == tl);
    assert(nhit(tl.x - p.x + r, tl.y - p.y + r));
    lemma_first_hit_complete(nhit, 2 * r + 1, 0, tl.x - p.x + r, tl.y - p.y + r);
    lemma_first_hit_sound(nhit, 2 * r + 1, 0);
    let (ox, oy) = first_hit(nhit, 2 * r + 1, 0).unwrap();
    let c = seen_point(p, r, ox, oy);
    assert(nexus_sighting(rect, p, r) == Some(c));
    assert(manhattan(p, c) <= 2 * r);
    assert(ticks_to(cs[i], cs[i + 1]));
    lemma_single_tick(cs[i], cs[i + 1]);
    assert(cs[i + 1].ants@[0] == (Ant { position: p, state: AntState::Depositing(c) }));
    lemma_approach(cs, i + 1, c);
    let i3 = i + 1 + manhattan(p, c);
    assert(ticks_to(cs[i3], cs[i3 + 1]));
    lemma_single_tick(cs[i3], cs[i3 + 1]);
    assert(brought_home(cs[i3 + 1], p));
}

/// A single searching ant on the nexus's top left corner, with one unit of
/// food on a cell `p` within its sight and no food anywhere else: within
/// `4 + 4 * r` ticks, `r` the vision radius, it is searching again, the
/// nexus has received the unit and `p` is empty.
pub proof fn one_ant_brings_food_home(cs: Seq<Colony>, p: Point)
    requires
        is_run(cs),
        cs[0].wf(),
        cs[0].ants@.len() == 1,
        cs[0].ants@[0] == (Ant { position: cs[0].nexus.rect.top_left, state: AntState::Searching }),
        cs[0].nexus.food == 0,
        cs[0].environment.food.in_bounds(p.x as int, p.y as int),
        cs[0].environment.food.amount(p.x as int, p.y as int) == 1,
        forall|x: int, y: int|
            cs[0].environment.food.in_bounds(x, y) && (x != p.x || y != p.y)
                ==> #[trigger] cs[0].environment.food.amount(x, y) == 0,
        within_range(
            cs[0].nexus.rect.top_left,
            cs[0].environment.config.vision_radius as int,
            p.x as int,
            p.y as int,
        ),
        cs.len() == 5 + 4 * cs[0].environment.config.vision_radius,
    ensures
        exists|k: int| 1 <= k < cs.len() && #[trigger] brought_home(cs[k], p),
{
    lemma_fetch(cs, p);
    let i = 2 + manhattan(cs[0].nexus.rect.top_left, p);
    lemma_deliver(cs, i, p);
}

} // verus!
