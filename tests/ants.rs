use ant_colony::ant::{Ant, AntState};
use ant_colony::collision::{Point, Rect};
use ant_colony::colony::Colony;
use ant_colony::environment::{
    Config, Environment, ANT_VISION_RANGE, DIFFUSION_DIVISOR, HOME_DOSE_AROUND, HOME_DOSE_CENTER,
};
use ant_colony::nexus::Nexus;
use servicepoint::{Grid, PixelGrid};

fn pt(x: usize, y: usize) -> Point {
    Point { x, y }
}

fn rect(x0: usize, y0: usize, x1: usize, y1: usize) -> Rect {
    Rect { top_left: pt(x0, y0), bottom_right: pt(x1, y1) }
}

fn world(w: usize, h: usize) -> (Environment, Nexus) {
    (Environment::new(Config::with_size(w, h)), Nexus::new(rect(3, 3, 4, 4)))
}

#[test]
fn standard_config_values() {
    let c = Config::with_size(448, 160);
    assert_eq!(c.width, 448);
    assert_eq!(c.height, 160);
    assert_eq!(c.vision_radius, ANT_VISION_RANGE);
    assert_eq!(ANT_VISION_RANGE, 1);
    assert_eq!(c.dose_center, HOME_DOSE_CENTER);
    assert_eq!(HOME_DOSE_CENTER, 100);
    assert_eq!(c.dose_around, HOME_DOSE_AROUND);
    assert_eq!(HOME_DOSE_AROUND, 30);
    assert_eq!(c.diffusion_divisor, DIFFUSION_DIVISOR);
    assert_eq!(DIFFUSION_DIVISOR, 20);
}

#[test]
fn searching_ant_sees_the_first_food_in_scan_order() {
    let (mut env, mut nexus) = world(5, 5);
    env.food.set(3, 3, 1);
    env.food.set(1, 3, 1);
    let mut ant = Ant::new(pt(2, 2));
    ant.step_with(&mut env, &mut nexus, 0);
    assert_eq!(ant.position, pt(2, 2));
    assert_eq!(ant.state, AntState::FoundFood(pt(1, 3)));
    assert_eq!(env.home_pheromone.get(2, 2), 100);
    assert_eq!(env.home_pheromone.get(1, 1), 30);
    assert_eq!(env.home_pheromone.get(3, 3), 30);
    assert_eq!(env.home_pheromone.get(0, 0), 0);
    assert_eq!(env.food.get(1, 3), 1);
    assert_eq!(nexus.food, 0);
}

#[test]
fn searching_ant_ignores_food_out_of_sight() {
    let (mut env, mut nexus) = world(6, 6);
    env.food.set(4, 2, 5);
    let mut ant = Ant::new(pt(2, 2));
    ant.step_with(&mut env, &mut nexus, 0);
    assert_eq!(ant.state, AntState::Searching);
    // every neighbour got the same dose: north is looked at first and wins the tie
    assert_eq!(ant.position, pt(2, 1));
}

#[test]
fn searching_ant_walks_to_the_weakest_home_trail() {
    let (mut env, mut nexus) = world(6, 6);
    env.home_pheromone.add_optional(2, 1, 50);
    env.home_pheromone.add_optional(2, 3, 50);
    env.home_pheromone.add_optional(1, 2, 50);
    let mut ant = Ant::new(pt(2, 2));
    ant.step_with(&mut env, &mut nexus, 0);
    assert_eq!(ant.state, AntState::Searching);
    assert_eq!(ant.position, pt(3, 2));
    assert_eq!(env.home_pheromone.get(2, 1), 80);
    assert_eq!(env.home_pheromone.get(3, 2), 30);
}

#[test]
fn find_pheromones_prefers_the_first_of_equal_neighbours() {
    let mut env = Environment::new(Config::with_size(4, 4));
    env.home_pheromone.add_optional(1, 0, 5);
    env.home_pheromone.add_optional(1, 2, 3);
    env.home_pheromone.add_optional(2, 1, 3);
    env.home_pheromone.add_optional(0, 1, 3);
    let ant = Ant::new(pt(1, 1));
    assert_eq!(ant.find_pheromones(&env.home_pheromone), Some(pt(1, 2)));
}

#[test]
fn find_pheromones_on_a_single_cell_finds_nothing() {
    let env = Environment::new(Config::with_size(1, 1));
    let ant = Ant::new(pt(0, 0));
    assert_eq!(ant.find_pheromones(&env.home_pheromone), None);
}

#[test]
fn searching_ant_on_a_single_cell_stays_put() {
    let mut env = Environment::new(Config::with_size(1, 1));
    let mut nexus = Nexus::new(rect(0, 0, 0, 0));
    let mut ant = Ant::new(pt(0, 0));
    for _ in 0..8 {
        ant.step(&mut env, &mut nexus);
        assert_eq!(ant.position, pt(0, 0));
        assert_eq!(ant.state, AntState::Searching);
    }
    for dir in 0..4u8 {
        ant.step_with(&mut env, &mut nexus, dir);
        assert_eq!(ant.position, pt(0, 0));
    }
}

#[test]
fn walk_moves_one_cell_and_stops_at_the_edges() {
    let mut ant = Ant::new(pt(1, 1));
    ant.walk(0, 3, 3);
    assert_eq!(ant.position, pt(2, 1));
    ant.walk(0, 3, 3);
    assert_eq!(ant.position, pt(2, 1));
    ant.walk(2, 3, 3);
    assert_eq!(ant.position, pt(2, 2));
    ant.walk(2, 3, 3);
    assert_eq!(ant.position, pt(2, 2));
    ant.walk(1, 3, 3);
    ant.walk(1, 3, 3);
    ant.walk(1, 3, 3);
    assert_eq!(ant.position, pt(0, 2));
    ant.walk(3, 3, 3);
    ant.walk(3, 3, 3);
    ant.walk(3, 3, 3);
    assert_eq!(ant.position, pt(0, 0));
    assert_eq!(ant.state, AntState::Searching);
}

#[test]
fn ant_move_towards_steps_along_x_first() {
    let mut ant = Ant { position: pt(2, 2), state: AntState::Homing };
    ant.move_towards(pt(4, 0));
    assert_eq!(ant.position, pt(3, 2));
    ant.move_towards(pt(3, 0));
    assert_eq!(ant.position, pt(3, 1));
    assert_eq!(ant.state, AntState::Homing);
}

#[test]
fn found_food_ant_walks_to_its_target() {
    let (mut env, mut nexus) = world(6, 6);
    let mut ant = Ant { position: pt(2, 2), state: AntState::FoundFood(pt(4, 1)) };
    ant.step_with(&mut env, &mut nexus, 0);
    assert_eq!(ant.position, pt(3, 2));
    assert_eq!(ant.state, AntState::FoundFood(pt(4, 1)));
    assert_eq!(env.home_pheromone.get(2, 2), 100);
}

#[test]
fn found_food_ant_picks_up_one_unit() {
    let (mut env, mut nexus) = world(6, 6);
    env.food.set(1, 1, 3);
    let mut ant = Ant { position: pt(1, 1), state: AntState::FoundFood(pt(1, 1)) };
    ant.step_with(&mut env, &mut nexus, 0);
    assert_eq!(ant.state, AntState::Homing);
    assert_eq!(ant.position, pt(1, 1));
    assert_eq!(env.food.get(1, 1), 2);
    assert_eq!(env.home_pheromone.get(1, 1), 100);
}

#[test]
fn found_food_ant_without_food_searches_again() {
    let (mut env, mut nexus) = world(6, 6);
    env.food.set(2, 1, 4);
    let mut ant = Ant { position: pt(1, 1), state: AntState::FoundFood(pt(1, 1)) };
    ant.step_with(&mut env, &mut nexus, 0);
    assert_eq!(ant.state, AntState::Searching);
    assert_eq!(ant.position, pt(1, 1));
    assert_eq!(env.food.get(1, 1), 0);
    assert_eq!(env.food.get(2, 1), 4);
}

#[test]
fn homing_ant_sees_the_nexus() {
    let (mut env, mut nexus) = world(6, 6);
    let mut ant = Ant { position: pt(2, 2), state: AntState::Homing };
    ant.step_with(&mut env, &mut nexus, 0);
    assert_eq!(ant.state, AntState::Depositing(pt(3, 3)));
    assert_eq!(ant.position, pt(2, 2));
    assert_eq!(env.home_pheromone.get(2, 2), 0);
}

#[test]
fn homing_ant_heads_for_the_nexus_corner() {
    let (mut env, mut nexus) = world(8, 8);
    let mut ant = Ant { position: pt(7, 0), state: AntState::Homing };
    ant.step_with(&mut env, &mut nexus, 0);
    assert_eq!(ant.state, AntState::Homing);
    assert_eq!(ant.position, pt(6, 0));
}

#[test]
fn homing_ant_at_the_grid_corner_clamps_what_it_sees() {
    let mut env = Environment::new(Config::with_size(4, 4));
    let mut nexus = Nexus::new(rect(0, 0, 0, 0));
    let mut ant = Ant { position: pt(0, 1), state: AntState::Homing };
    ant.step_with(&mut env, &mut nexus, 0);
    assert_eq!(ant.state, AntState::Depositing(pt(0, 0)));
}

#[test]
fn depositing_ant_delivers_at_its_target() {
    let (mut env, mut nexus) = world(6, 6);
    let mut ant = Ant { position: pt(3, 3), state: AntState::Depositing(pt(3, 3)) };
    ant.step_with(&mut env, &mut nexus, 0);
    assert_eq!(nexus.food, 1);
    assert_eq!(ant.state, AntState::Searching);
    assert_eq!(ant.position, pt(3, 3));
}

#[test]
fn depositing_ant_walks_to_its_target() {
    let (mut env, mut nexus) = world(6, 6);
    let mut ant = Ant { position: pt(2, 3), state: AntState::Depositing(pt(3, 3)) };
    ant.step_with(&mut env, &mut nexus, 0);
    assert_eq!(nexus.food, 0);
    assert_eq!(ant.state, AntState::Depositing(pt(3, 3)));
    assert_eq!(ant.position, pt(3, 3));
}

#[test]
fn nexus_counter_saturates() {
    let (mut env, mut nexus) = world(6, 6);
    nexus.food = usize::MAX;
    let mut ant = Ant { position: pt(3, 3), state: AntState::Depositing(pt(3, 3)) };
    ant.step_with(&mut env, &mut nexus, 0);
    assert_eq!(nexus.food, usize::MAX);
    assert_eq!(ant.state, AntState::Searching);
    nexus.deposit_food();
    assert_eq!(nexus.food, usize::MAX);
}

#[test]
fn nexus_contains_its_borders() {
    let nexus = Nexus::new(rect(3, 3, 4, 4));
    assert!(nexus.contains(pt(3, 3)));
    assert!(nexus.contains(pt(4, 4)));
    assert!(!nexus.contains(pt(5, 4)));
    assert!(!nexus.contains(pt(2, 3)));
}

#[test]
fn colony_starts_with_searching_ants_on_the_nexus() {
    let colony = Colony::new(Config::with_size(10, 8), rect(4, 4, 5, 5), 3);
    assert_eq!(colony.ants.len(), 3);
    for ant in colony.ants.iter() {
        assert_eq!(*ant, Ant { position: pt(4, 4), state: AntState::Searching });
    }
    assert_eq!(colony.nexus.food, 0);
    let snap = colony.snapshot();
    assert_eq!(snap.ants, vec![pt(4, 4), pt(4, 4), pt(4, 4)]);
    assert!(snap.food.is_empty());
    assert_eq!(snap.nexus, rect(4, 4, 5, 5));
}

#[test]
fn snapshot_lists_food_column_by_column() {
    let mut colony = Colony::new(Config::with_size(4, 3), rect(0, 0, 0, 0), 0);
    colony.seed_food(2, 0, 1);
    colony.seed_food(0, 2, 5);
    colony.seed_food(0, 1, 7);
    colony.seed_food(3, 2, 2);
    colony.seed_food(9, 9, 2);
    colony.seed_food(3, 2, 0);
    let snap = colony.snapshot();
    assert_eq!(snap.food, vec![pt(0, 1), pt(0, 2), pt(2, 0)]);
}

#[test]
fn one_ant_brings_one_unit_of_food_home() {
    let mut colony = Colony::new(Config::with_size(16, 16), rect(8, 8, 9, 9), 1);
    colony.seed_food(7, 8, 1);
    let mut states = Vec::new();
    for _ in 0..6 {
        colony.tick();
        states.push(colony.ants[0].state);
    }
    assert_eq!(
        states,
        vec![
            AntState::FoundFood(pt(7, 8)),
            AntState::FoundFood(pt(7, 8)),
            AntState::Homing,
            AntState::Depositing(pt(8, 8)),
            AntState::Depositing(pt(8, 8)),
            AntState::Searching,
        ]
    );
    assert_eq!(colony.nexus.food, 1);
    assert_eq!(colony.environment.food.get(7, 8), 0);
    assert_eq!(colony.ants[0].position, pt(8, 8));
}

#[test]
fn tick_diffuses_and_food_only_shrinks() {
    let mut colony = Colony::new(Config::with_size(12, 12), rect(5, 5, 6, 6), 4);
    colony.seed_food(4, 5, 2);
    let mut last_home: u64 = 0;
    for _ in 0..40 {
        let food_before = colony.environment.food.get(4, 5);
        let delivered_before = colony.nexus.food;
        colony.tick();
        assert!(colony.environment.food.get(4, 5) <= food_before);
        assert!(colony.nexus.food >= delivered_before);
        last_home = colony.environment.home_pheromone.get(5, 5);
    }
    assert_eq!(colony.environment.food.get(4, 5), 0);
    assert_eq!(colony.nexus.food, 2);
    assert!(last_home > 0);
    assert!(colony.environment.food_pheromone.cells.iter().all(|&v| v == 0));
}

#[test]
fn nexus_render_draws_the_whole_rectangle() {
    let mut pixels = PixelGrid::new(16, 8);
    pixels.set(15, 7, true);
    let nexus = Nexus::new(rect(2, 2, 4, 5));
    nexus.render(&mut pixels);
    for x in 0..16 {
        for y in 0..8 {
            let expected = ((2..=4).contains(&x) && (2..=5).contains(&y)) || (x == 15 && y == 7);
            assert_eq!(pixels.get(x, y), expected, "pixel {x},{y}");
        }
    }
}

#[test]
fn nexus_render_skips_what_lies_off_the_frame() {
    let mut pixels = PixelGrid::new(8, 4);
    let nexus = Nexus::new(rect(6, 2, 20, 30));
    nexus.render(&mut pixels);
    for x in 0..8 {
        for y in 0..4 {
            assert_eq!(pixels.get(x, y), x >= 6 && y >= 2, "pixel {x},{y}");
        }
    }
}

#[test]
fn colony_render_draws_ants_food_and_nexus() {
    let mut colony = Colony::new(Config::with_size(16, 8), rect(10, 5, 11, 6), 2);
    colony.ants[1].position = pt(0, 7);
    colony.seed_food(3, 1, 4);
    colony.seed_food(4, 1, 0);
    let mut pixels = PixelGrid::new(16, 8);
    pixels.set(15, 0, true);
    colony.render(&mut pixels);
    for x in 0..16 {
        for y in 0..8 {
            let expected = (x == 10 && y == 5)
                || (x == 0 && y == 7)
                || (x == 3 && y == 1)
                || ((10..=11).contains(&x) && (5..=6).contains(&y))
                || (x == 15 && y == 0);
            assert_eq!(pixels.get(x, y), expected, "pixel {x},{y}");
        }
    }
}

#[test]
fn colony_render_skips_what_lies_off_a_small_frame() {
    let mut colony = Colony::new(Config::with_size(20, 10), rect(12, 2, 13, 3), 1);
    colony.seed_food(9, 9, 1);
    colony.seed_food(1, 1, 1);
    let mut pixels = PixelGrid::new(8, 4);
    colony.render(&mut pixels);
    for x in 0..8 {
        for y in 0..4 {
            assert_eq!(pixels.get(x, y), x == 1 && y == 1, "pixel {x},{y}");
        }
    }
}
