use evosim::config::Config;
use evosim::eye::Eye;
use evosim::food::Food;
use evosim::pos::Pos;
use evosim::trig::HALF_PI_FP;
use evosim::trig::PI_FP;

const UNIT: i64 = 1_000_000;

fn eye(fov_range: i64, fov_angle: i64, cells: usize) -> Eye {
    let mut config = Config::default();
    config.eye_range = fov_range;
    config.eye_fov = fov_angle;
    config.eye_cells = cells;
    assert!(config.is_valid());
    Eye::new(&config)
}

fn food(x: i64, y: i64) -> Food {
    Food { pos: Pos { x, y } }
}

#[test]
fn vision_length_equals_cells_without_food() {
    let sizes: [usize; 4] = [1, 2, 9, 13];
    for cells in sizes {
        let e = eye(250_000, HALF_PI_FP, cells);
        let vision = e.process_vision(Pos { x: 500_000, y: 500_000 }, 0, &Vec::new());
        assert_eq!(vision.len(), cells);
    }
}

#[test]
fn vision_length_equals_cells_with_food() {
    let e = eye(UNIT, PI_FP, 9);
    let field = vec![food(100_000, 100_000), food(900_000, 900_000), food(500_000, 500_000)];
    let vision = e.process_vision(Pos { x: 500_000, y: 500_000 }, 0, &field);
    assert_eq!(vision.len(), 9);
}

#[test]
fn food_exactly_at_range_contributes_nothing() {
    // distance is exactly the sight range of half the plane
    let e = eye(500_000, PI_FP, 13);
    let field = vec![food(750_000, 500_000)];
    let vision = e.process_vision(Pos { x: 250_000, y: 500_000 }, 0, &field);
    for cell in vision {
        assert_eq!(cell, 0);
    }
}

#[test]
fn food_at_zero_distance_contributes_full_energy() {
    let e = eye(500_000, PI_FP, 13);
    let here = Pos { x: 300_000, y: 700_000 };
    let field = vec![Food { pos: here }];
    let vision = e.process_vision(here, 0, &field);
    let total: i64 = vision.iter().sum();
    assert_eq!(total, UNIT);
    assert_eq!(vision.iter().filter(|v| **v != 0).count(), 1);
}

#[test]
fn food_straight_ahead_lands_in_the_middle_cell() {
    // the eye measures angles from the +x axis; food half the plane away
    // in that direction, with a quarter-turn field of view and full range,
    // puts energy about 0.5 in the middle of thirteen cells
    let e = eye(UNIT, HALF_PI_FP, 13);
    let field = vec![food(999_999, 500_000)];
    let vision = e.process_vision(Pos { x: 500_000, y: 500_000 }, 0, &field);
    let expected_energy = ((UNIT - 499_999) * UNIT) / UNIT;
    assert_eq!(vision[6], expected_energy);
    for (i, v) in vision.iter().enumerate() {
        if i != 6 {
            assert_eq!(*v, 0);
        }
    }
}

#[test]
fn food_outside_the_field_of_view_is_discarded() {
    // a narrow forward cone; food sits behind the agent
    let e = eye(UNIT, HALF_PI_FP, 9);
    let field = vec![food(500_000, 100_000)];
    let vision = e.process_vision(Pos { x: 500_000, y: 500_000 }, 0, &field);
    for cell in vision {
        assert_eq!(cell, 0);
    }
}

#[test]
fn turning_moves_food_across_cells() {
    let e = eye(UNIT, PI_FP + HALF_PI_FP, 9);
    let here = Pos { x: 500_000, y: 500_000 };
    let field = vec![food(500_000, 900_000)];
    let ahead = e.process_vision(here, 0, &field);
    let turned = e.process_vision(here, HALF_PI_FP / 2, &field);
    let cell_ahead = ahead.iter().position(|v| *v != 0).unwrap();
    let cell_turned = turned.iter().position(|v| *v != 0).unwrap();
    assert_ne!(cell_ahead, cell_turned);
}

#[test]
fn rotation_wraps_whole_turns() {
    let e = eye(UNIT, PI_FP, 9);
    let here = Pos { x: 500_000, y: 500_000 };
    let field = vec![food(800_000, 300_000), food(200_000, 700_000)];
    let tau: i64 = 6_283_184;
    let a = e.process_vision(here, HALF_PI_FP / 3, &field);
    let b = e.process_vision(here, HALF_PI_FP / 3 + tau, &field);
    let c = e.process_vision(here, HALF_PI_FP / 3 - tau, &field);
    assert_eq!(a, b);
    assert_eq!(a, c);
}
