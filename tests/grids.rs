use ant_colony::collision::{move_towards, offset_coord, point_in_rect, Point, Rect};
use ant_colony::food::FoodField;
use ant_colony::pheromone_grid::PheromoneGrid;

fn total(g: &PheromoneGrid) -> u64 {
    let mut sum = 0u64;
    for x in 0..g.width {
        for y in 0..g.height {
            sum += g.get(x, y);
        }
    }
    sum
}

#[test]
fn point_in_rect_includes_borders() {
    let rect = Rect { top_left: Point { x: 2, y: 3 }, bottom_right: Point { x: 5, y: 7 } };
    assert!(point_in_rect(Point { x: 2, y: 3 }, rect));
    assert!(point_in_rect(Point { x: 5, y: 7 }, rect));
    assert!(point_in_rect(Point { x: 4, y: 5 }, rect));
    assert!(!point_in_rect(Point { x: 1, y: 5 }, rect));
    assert!(!point_in_rect(Point { x: 6, y: 5 }, rect));
    assert!(!point_in_rect(Point { x: 4, y: 2 }, rect));
    assert!(!point_in_rect(Point { x: 4, y: 8 }, rect));
}

#[test]
fn move_towards_follows_axis_priority() {
    let from = Point { x: 5, y: 5 };
    assert_eq!(move_towards(from, Point { x: 3, y: 9 }), Point { x: 4, y: 5 });
    assert_eq!(move_towards(from, Point { x: 8, y: 0 }), Point { x: 6, y: 5 });
    assert_eq!(move_towards(from, Point { x: 5, y: 0 }), Point { x: 5, y: 4 });
    assert_eq!(move_towards(from, Point { x: 5, y: 9 }), Point { x: 5, y: 6 });
    assert_eq!(move_towards(from, from), from);
}

#[test]
fn offset_coord_skips_cells_off_the_grid() {
    assert_eq!(offset_coord(0, 0, 1, 5), None);
    assert_eq!(offset_coord(0, 1, 1, 5), Some(0));
    assert_eq!(offset_coord(4, 2, 1, 5), None);
    assert_eq!(offset_coord(3, 2, 1, 5), Some(4));
}

#[test]
fn pheromone_reads_off_the_grid_are_none() {
    let mut g = PheromoneGrid::new(3, 2);
    g.add_optional(1, 1, 7);
    assert_eq!(g.get_optional(1, 1), Some(7));
    assert_eq!(g.get_optional(-1, 0), None);
    assert_eq!(g.get_optional(0, -1), None);
    assert_eq!(g.get_optional(3, 0), None);
    assert_eq!(g.get_optional(0, 2), None);
}

#[test]
fn pheromone_writes_off_the_grid_change_nothing() {
    let mut g = PheromoneGrid::new(3, 2);
    g.add_optional(0, 0, 5);
    let before = g.cells.clone();
    g.add_optional(-1, 0, 9);
    g.add_optional(3, 1, 9);
    g.add_optional(0, 2, 9);
    g.add_optional(isize::MIN, isize::MAX, 9);
    assert_eq!(g.cells, before);
}

#[test]
fn pheromone_add_saturates() {
    let mut g = PheromoneGrid::new(1, 1);
    g.add_optional(0, 0, u64::MAX - 1);
    g.add_optional(0, 0, 5);
    assert_eq!(g.get(0, 0), u64::MAX);
}

#[test]
fn deposit_puts_doses_around_the_center() {
    let mut g = PheromoneGrid::new(5, 5);
    g.deposit(Point { x: 2, y: 2 }, 1, 100, 30);
    for x in 0..5 {
        for y in 0..5 {
            let expected = if x == 2 && y == 2 {
                100
            } else if (1..=3).contains(&x) && (1..=3).contains(&y) {
                30
            } else {
                0
            };
            assert_eq!(g.get(x, y), expected, "cell {x},{y}");
        }
    }
}

#[test]
fn deposit_at_a_corner_skips_cells_off_the_grid() {
    let mut g = PheromoneGrid::new(3, 3);
    g.deposit(Point { x: 0, y: 0 }, 1, 100, 30);
    assert_eq!(g.get(0, 0), 100);
    assert_eq!(g.get(1, 0), 30);
    assert_eq!(g.get(0, 1), 30);
    assert_eq!(g.get(1, 1), 30);
    assert_eq!(g.get(2, 2), 0);
    assert_eq!(total(&g), 190);
}

#[test]
fn diffuse_spreads_a_twentieth_to_the_neighbours() {
    let mut g = PheromoneGrid::new(3, 3);
    g.add_optional(1, 1, 100);
    g.diffuse(20);
    assert_eq!(g.get(1, 1), 96);
    assert_eq!(g.get(1, 0), 1);
    assert_eq!(g.get(1, 2), 1);
    assert_eq!(g.get(0, 1), 1);
    assert_eq!(g.get(2, 1), 1);
    assert_eq!(g.get(0, 0), 0);
    assert_eq!(g.get(2, 2), 0);
    assert_eq!(total(&g), 100);
}

#[test]
fn diffuse_loses_the_shares_that_leave_the_edge() {
    let mut g = PheromoneGrid::new(3, 3);
    g.add_optional(0, 0, 100);
    g.diffuse(20);
    assert_eq!(g.get(0, 0), 96);
    assert_eq!(g.get(0, 1), 1);
    assert_eq!(g.get(1, 0), 1);
    assert_eq!(total(&g), 98);
}

#[test]
fn diffuse_never_increases_the_total() {
    let mut g = PheromoneGrid::new(6, 4);
    g.deposit(Point { x: 2, y: 1 }, 1, 100, 30);
    g.deposit(Point { x: 5, y: 3 }, 2, 1000, 400);
    let mut before = total(&g);
    for _ in 0..50 {
        g.diffuse(20);
        let after = total(&g);
        assert!(after <= before);
        before = after;
    }
}

#[test]
fn diffuse_keeps_an_empty_field_empty() {
    let mut g = PheromoneGrid::new(4, 3);
    g.diffuse(20);
    assert!(g.cells.iter().all(|&v| v == 0));
    assert_eq!(g.cells.len(), 12);
}

#[test]
fn diffuse_leaves_small_levels_alone() {
    let mut g = PheromoneGrid::new(2, 2);
    g.add_optional(0, 1, 79);
    g.diffuse(20);
    assert_eq!(g.get(0, 1), 79);
    assert_eq!(total(&g), 79);
}

#[test]
fn diffuse_keeps_the_mass_of_an_inner_cell() {
    let mut g = PheromoneGrid::new(5, 5);
    g.add_optional(2, 2, 1000);
    g.diffuse(20);
    assert_eq!(g.get(2, 2), 952);
    assert_eq!(g.get(2, 1), 12);
    assert_eq!(g.get(2, 3), 12);
    assert_eq!(g.get(1, 2), 12);
    assert_eq!(g.get(3, 2), 12);
    assert_eq!(total(&g), 1000);
}

#[test]
fn food_set_and_get() {
    let mut f = FoodField::new(4, 3);
    f.set(3, 2, 9);
    f.set(1, 0, 4);
    assert_eq!(f.get(3, 2), 9);
    assert_eq!(f.get(1, 0), 4);
    assert_eq!(f.get(0, 0), 0);
    assert_eq!(f.get_optional(3, 2), Some(9));
    assert_eq!(f.get_optional(4, 2), None);
    assert_eq!(f.get_optional(-1, 2), None);
    assert_eq!(f.get_optional(0, 3), None);
}

#[test]
fn food_writes_off_the_grid_change_nothing() {
    let mut f = FoodField::new(2, 2);
    f.set(1, 1, 3);
    f.set(2, 0, 7);
    f.set(0, 2, 7);
    f.take_one(5, 5);
    for x in 0..2 {
        for y in 0..2 {
            assert_eq!(f.get(x, y), if x == 1 && y == 1 { 3 } else { 0 });
        }
    }
}

#[test]
fn food_take_one_stops_at_zero() {
    let mut f = FoodField::new(2, 2);
    f.set(0, 1, 2);
    f.take_one(0, 1);
    assert_eq!(f.get(0, 1), 1);
    f.take_one(0, 1);
    assert_eq!(f.get(0, 1), 0);
    f.take_one(0, 1);
    assert_eq!(f.get(0, 1), 0);
    f.take_one(1, 1);
    assert_eq!(f.get(1, 1), 0);
}
