use rnake::random::{RandomSource, Replay, ThreadRandom};
use rnake::world::{
    Coords, Direction, SnakeCell, StepError, StepOk, Thing, ThingInField, World, FAT_P, FIELD_SIZE,
    FOOD_LIFETIME, LEAN_AFTER_FOOD, LEAN_LIFETIME, LEAN_P, MYSTERY_GROW_SNAKE, MYSTERY_LIFETIME,
    MYSTERY_P, MYSTERY_SCORE, MYSTERY_SCORE_P, OBSTACLE_LIFETIME, OBSTACLE_P, P_SCALE,
};

/// A roll that lets no obstacle and no mystery item appear, and that puts
/// what does appear on the cell (21, 21).
const QUIET: u32 = 5000;

fn quiet() -> Replay {
    Replay::new(vec![QUIET])
}

fn cells(w: &World) -> Vec<(u32, u32)> {
    w.snake().iter().map(|c| (c.coords.x, c.coords.y)).collect()
}

fn assert_in_play(w: &World) {
    assert!(w.is_in_play());
    let snake = w.snake();
    let things = w.things();
    assert!(snake.len() >= 3);
    for (i, a) in snake.iter().enumerate() {
        assert!(1 <= a.coords.x && a.coords.x <= FIELD_SIZE);
        assert!(1 <= a.coords.y && a.coords.y <= FIELD_SIZE);
        for b in snake.iter().skip(i + 1) {
            assert_ne!(a.coords, b.coords);
        }
    }
    for (i, t) in things.iter().enumerate() {
        assert!(1 <= t.x && t.x <= FIELD_SIZE);
        assert!(1 <= t.y && t.y <= FIELD_SIZE);
        assert!(t.picture_index < t.what.pictures());
        for u in things.iter().skip(i + 1) {
            assert!((t.x, t.y) != (u.x, u.y));
        }
        for c in snake.iter() {
            assert!((t.x, t.y) != (c.coords.x, c.coords.y));
        }
    }
}

#[test]
fn init_places_three_cells_in_the_middle() {
    let w = World::init();
    let snake = w.snake();
    assert_eq!(snake.len(), 3);
    for (i, cell) in snake.iter().enumerate() {
        assert_eq!(cell.coords.x, FIELD_SIZE / 2);
        assert_eq!(cell.coords.y, FIELD_SIZE / 2 + i as u32);
        assert_eq!(cell.dir, Direction::Up);
        assert_eq!(cell.prev_dir, Direction::Up);
    }
    assert!(!snake[0].even);
    assert!(snake[1].even);
    assert!(!snake[2].even);
    assert_eq!(w.things().len(), 1);
    let food = w.things()[0];
    assert!(food.what == Thing::Food || food.what == Thing::Fat);
    assert_eq!(w.score(), 0);
    assert_eq!(w.grow(), 0);
    assert_eq!(w.eaten_food(), 0);
    assert_in_play(&w);
}

#[test]
fn init_keeps_food_away_from_the_head() {
    for _ in 0..200 {
        let w = World::init();
        let food = w.things()[0];
        let near_x = food.x > 12 && food.x < 18;
        let near_y = food.y > 12 && food.y < 18;
        assert!(!(near_x && near_y));
        assert!(food.picture_index < 3);
        match food.what {
            Thing::Fat => assert_eq!(food.lifetime, None),
            Thing::Food => {
                let rim = food.x == 1 || food.y == 1 || food.x == FIELD_SIZE || food.y == FIELD_SIZE;
                assert_eq!(food.lifetime, if rim { None } else { Some(FOOD_LIFETIME) });
            }
            _ => panic!("the first thing is food"),
        }
    }
}

#[test]
fn init_with_a_replay_puts_food_where_the_rolls_say() {
    let mut rng = Replay::new(vec![14, 9, QUIET, 2]);
    let w = World::init_with(&mut rng);
    assert_eq!(
        w.things().as_slice(),
        &[ThingInField {
            what: Thing::Food,
            picture_index: 2,
            x: 15,
            y: 10,
            lifetime: Some(FOOD_LIFETIME)
        }]
    );
}

#[test]
fn straight_up_ends_at_the_wall() {
    let mut rng = quiet();
    let mut w = World::init_with(&mut rng);
    for i in 0..(FIELD_SIZE / 2 - 1) {
        assert_eq!(w.step_with(&mut rng), Ok(StepOk::Nothing));
        assert_eq!(w.snake()[0].coords, Coords { x: 15, y: 14 - i });
    }
    assert_eq!(w.snake()[0].coords.y, 1);
    assert_eq!(w.step_with(&mut rng), Err(StepError::OutOfField));
}

#[test]
fn the_wall_changes_nothing() {
    let mut rng = quiet();
    let mut w = World::init_with(&mut rng);
    for _ in 0..14 {
        w.step_with(&mut rng).unwrap();
    }
    let snake = w.snake().clone();
    let things = w.things().clone();
    let (score, grow, eaten) = (w.score(), w.grow(), w.eaten_food());
    assert_eq!(w.step_with(&mut rng), Err(StepError::OutOfField));
    assert_eq!(w.snake(), &snake);
    assert_eq!(w.things(), &things);
    assert_eq!((w.score(), w.grow(), w.eaten_food()), (score, grow, eaten));
    // and again, as often as it is tried
    assert_eq!(w.step_with(&mut rng), Err(StepError::OutOfField));
    assert_eq!(w.snake(), &snake);
    assert_eq!(w.things(), &things);
}

#[test]
fn every_wall_stops_the_snake() {
    // left
    let mut rng = quiet();
    let mut w = World::init_with(&mut rng);
    w.turn_left();
    for _ in 0..14 {
        assert_eq!(w.step_with(&mut rng), Ok(StepOk::Nothing));
    }
    assert_eq!(w.snake()[0].coords, Coords { x: 1, y: 15 });
    let before = w.snake().clone();
    assert_eq!(w.step_with(&mut rng), Err(StepError::OutOfField));
    assert_eq!(w.snake(), &before);
    // right
    let mut rng = quiet();
    let mut w = World::init_with(&mut rng);
    w.turn_right();
    for _ in 0..15 {
        assert_eq!(w.step_with(&mut rng), Ok(StepOk::Nothing));
    }
    assert_eq!(w.snake()[0].coords, Coords { x: FIELD_SIZE, y: 15 });
    let before = w.snake().clone();
    assert_eq!(w.step_with(&mut rng), Err(StepError::OutOfField));
    assert_eq!(w.snake(), &before);
    // down, after a step to the side
    let mut rng = quiet();
    let mut w = World::init_with(&mut rng);
    w.turn_right();
    assert_eq!(w.step_with(&mut rng), Ok(StepOk::Nothing));
    w.turn_right();
    for _ in 0..15 {
        assert_eq!(w.step_with(&mut rng), Ok(StepOk::Nothing));
    }
    assert_eq!(w.snake()[0].coords, Coords { x: 16, y: FIELD_SIZE });
    let before = w.snake().clone();
    assert_eq!(w.step_with(&mut rng), Err(StepError::OutOfField));
    assert_eq!(w.snake(), &before);
}

#[test]
fn a_step_moves_the_head_and_drops_the_tail() {
    let mut rng = quiet();
    let mut w = World::init_with(&mut rng);
    assert_eq!(w.step_with(&mut rng), Ok(StepOk::Nothing));
    assert_eq!(cells(&w), vec![(15, 14), (15, 15), (15, 16)]);
    let head = w.snake()[0];
    assert_eq!(
        head,
        SnakeCell {
            dir: Direction::Up,
            prev_dir: Direction::Up,
            coords: Coords { x: 15, y: 14 },
            even: true
        }
    );
    w.turn_right();
    assert_eq!(w.snake()[0].dir, Direction::Right);
    assert_eq!(w.snake()[0].prev_dir, Direction::Up);
    assert_eq!(w.step_with(&mut rng), Ok(StepOk::Nothing));
    assert_eq!(cells(&w), vec![(16, 14), (15, 14), (15, 15)]);
    let head = w.snake()[0];
    assert_eq!(head.dir, Direction::Right);
    assert_eq!(head.prev_dir, Direction::Right);
    assert!(!head.even);
    // the segment behind the head remembers the turn
    assert_eq!(w.snake()[1].dir, Direction::Right);
    assert_eq!(w.snake()[1].prev_dir, Direction::Up);
}

#[test]
fn food_ahead_is_eaten() {
    let mut rolls = vec![14, 9, QUIET, 0];
    for _ in 0..4 {
        rolls.extend([QUIET, QUIET]);
    }
    // the fifth step: new food on (21, 21), picture 1, nothing else
    rolls.extend([20, 20, QUIET, 1, QUIET, QUIET]);
    rolls.extend([QUIET; 16]);
    let mut rng = Replay::new(rolls);
    let mut w = World::init_with(&mut rng);
    assert_eq!(w.things()[0].x, 15);
    assert_eq!(w.things()[0].y, 10);
    for _ in 0..4 {
        assert_eq!(w.step_with(&mut rng), Ok(StepOk::Nothing));
    }
    assert_eq!(w.things()[0].lifetime, Some(FOOD_LIFETIME - 4));
    let (score, grow) = (w.score(), w.grow());
    assert_eq!(w.step_with(&mut rng), Ok(StepOk::AteFood));
    assert_eq!(w.score(), score + 1);
    assert_eq!(w.grow(), grow + 3);
    assert_eq!(w.eaten_food(), 1);
    assert_eq!(w.snake()[0].coords, Coords { x: 15, y: 10 });
    assert_eq!(
        w.things().as_slice(),
        &[ThingInField {
            what: Thing::Food,
            picture_index: 1,
            x: 21,
            y: 21,
            lifetime: Some(FOOD_LIFETIME)
        }]
    );
    assert_in_play(&w);
    // the snake now grows for three ticks
    for len in 4..=6 {
        assert_eq!(w.step_with(&mut rng), Ok(StepOk::Nothing));
        assert_eq!(w.snake().len(), len);
    }
    assert_eq!(w.grow(), 0);
    assert_eq!(w.step_with(&mut rng), Ok(StepOk::Nothing));
    assert_eq!(w.snake().len(), 6);
}

fn with_obstacle_ahead() -> (World, Replay) {
    // food on (21, 21); in the first step an obstacle on (15, 9), picture 2
    let mut rolls = vec![20, 20, QUIET, 0];
    rolls.extend([0, 14, 8, 2, QUIET]);
    for _ in 0..5 {
        rolls.extend([QUIET, QUIET]);
    }
    let mut rng = Replay::new(rolls);
    let mut w = World::init_with(&mut rng);
    assert_eq!(w.step_with(&mut rng), Ok(StepOk::Nothing));
    assert_eq!(
        w.things()[1],
        ThingInField {
            what: Thing::Obstacle,
            picture_index: 2,
            x: 15,
            y: 9,
            lifetime: Some(OBSTACLE_LIFETIME)
        }
    );
    for _ in 0..4 {
        assert_eq!(w.step_with(&mut rng), Ok(StepOk::Nothing));
    }
    assert_eq!(w.snake()[0].coords, Coords { x: 15, y: 10 });
    (w, rng)
}

#[test]
fn an_obstacle_ahead_ends_the_round() {
    let (mut w, mut rng) = with_obstacle_ahead();
    let (score, grow, eaten) = (w.score(), w.grow(), w.eaten_food());
    let obstacle = w.things()[1];
    assert_eq!(obstacle.what, Thing::Obstacle);
    let count = w.things().len();
    assert_eq!(w.step_with(&mut rng), Err(StepError::Obstacle));
    // the snake has moved onto the cell of the obstacle, which lies there
    // as it did, and nothing has appeared
    assert_eq!(cells(&w), vec![(15, 9), (15, 10), (15, 11)]);
    assert!(w.things().contains(&obstacle));
    assert_eq!(w.things().len(), count);
    assert_eq!((w.score(), w.grow(), w.eaten_food()), (score, grow, eaten));
    // with a thing under the head the round is not in play any more
    assert!(!w.is_in_play());
}

#[test]
fn things_behind_an_obstacle_are_not_settled() {
    // food first in the list, the obstacle second, a mystery item third
    let mut rolls = vec![20, 20, QUIET, 0];
    rolls.extend([0, 14, 8, 2, 0, 4, 4, 3]);
    for _ in 0..5 {
        rolls.extend([QUIET, QUIET]);
    }
    let mut rng = Replay::new(rolls);
    let mut w = World::init_with(&mut rng);
    assert_eq!(w.step_with(&mut rng), Ok(StepOk::Nothing));
    assert_eq!(w.things().len(), 3);
    assert_eq!(
        w.things()[2],
        ThingInField {
            what: Thing::Mystery,
            picture_index: 3,
            x: 5,
            y: 5,
            lifetime: Some(MYSTERY_LIFETIME)
        }
    );
    for _ in 0..4 {
        assert_eq!(w.step_with(&mut rng), Ok(StepOk::Nothing));
    }
    // things with a lifetime go to the end of the list as they age
    let kinds: Vec<Thing> = w.things().iter().map(|t| t.what).collect();
    assert_eq!(kinds, vec![Thing::Food, Thing::Obstacle, Thing::Mystery]);
    assert_eq!(w.things()[0].lifetime, Some(FOOD_LIFETIME - 5));
    assert_eq!(w.things()[2].lifetime, Some(MYSTERY_LIFETIME - 4));
    let obstacle = w.things()[1];
    assert_eq!(obstacle.lifetime, Some(OBSTACLE_LIFETIME - 4));
    assert_eq!(w.step_with(&mut rng), Err(StepError::Obstacle));
    // the food before the obstacle was settled; the obstacle and the
    // mystery item behind it are as they were
    let kinds: Vec<Thing> = w.things().iter().map(|t| t.what).collect();
    assert_eq!(kinds, vec![Thing::Obstacle, Thing::Mystery, Thing::Food]);
    assert_eq!(w.things()[0], obstacle);
    assert_eq!(w.things()[1].lifetime, Some(MYSTERY_LIFETIME - 4));
    assert_eq!(w.things()[2].lifetime, Some(FOOD_LIFETIME - 6));
}

#[test]
fn turning_back_runs_into_the_neck() {
    let mut rng = quiet();
    let mut w = World::init_with(&mut rng);
    w.turn_left();
    w.turn_left();
    assert_eq!(w.snake()[0].dir, Direction::Down);
    let things = w.things().clone();
    assert_eq!(w.step_with(&mut rng), Err(StepError::SelfHit));
    // the tail has followed, the head has not moved
    assert_eq!(cells(&w), vec![(15, 15), (15, 16)]);
    assert_eq!(w.things(), &things);
    assert_eq!(w.score(), 0);
    // a snake of two segments is no snake to play with
    assert!(!w.is_in_play());
}

#[test]
fn a_growing_snake_runs_into_its_tail() {
    // food on (15, 12), eaten in the third step
    let mut rolls = vec![14, 11, QUIET, 0];
    rolls.extend([QUIET, QUIET, QUIET, QUIET]);
    rolls.extend([20, 20, QUIET, 0, QUIET, QUIET]);
    rolls.extend([QUIET; 16]);
    let mut rng = Replay::new(rolls);
    let mut w = World::init_with(&mut rng);
    for _ in 0..2 {
        assert_eq!(w.step_with(&mut rng), Ok(StepOk::Nothing));
    }
    assert_eq!(w.step_with(&mut rng), Ok(StepOk::AteFood));
    assert_eq!(w.grow(), 3);
    // a tight circle to the right: the tail stays in the way
    w.turn_right();
    assert_eq!(w.step_with(&mut rng), Ok(StepOk::Nothing));
    w.turn_right();
    assert_eq!(w.step_with(&mut rng), Ok(StepOk::Nothing));
    w.turn_right();
    assert_eq!(cells(&w), vec![(16, 13), (16, 12), (15, 12), (15, 13), (15, 14)]);
    assert_eq!(w.grow(), 1);
    assert_eq!(w.step_with(&mut rng), Err(StepError::SelfHit));
    assert_eq!(w.grow(), 0);
    assert_eq!(cells(&w), vec![(16, 13), (16, 12), (15, 12), (15, 13), (15, 14)]);
    // nothing is wrong with the snake but that it cannot go on
    assert!(w.is_in_play());
}

#[test]
fn a_snake_that_does_not_grow_may_follow_its_tail() {
    // food on (15, 12), eaten in the third step: the snake grows to six
    let mut rolls = vec![14, 11, QUIET, 0];
    rolls.extend([QUIET, QUIET, QUIET, QUIET]);
    rolls.extend([20, 20, QUIET, 0, QUIET, QUIET]);
    rolls.extend([QUIET; 64]);
    let mut rng = Replay::new(rolls);
    let mut w = World::init_with(&mut rng);
    for _ in 0..2 {
        assert_eq!(w.step_with(&mut rng), Ok(StepOk::Nothing));
    }
    assert_eq!(w.step_with(&mut rng), Ok(StepOk::AteFood));
    for _ in 0..3 {
        assert_eq!(w.step_with(&mut rng), Ok(StepOk::Nothing));
    }
    assert_eq!(w.grow(), 0);
    assert_eq!(
        cells(&w),
        vec![(15, 9), (15, 10), (15, 11), (15, 12), (15, 13), (15, 14)]
    );
    // round a block of two by three cells
    w.turn_right();
    assert_eq!(w.step_with(&mut rng), Ok(StepOk::Nothing));
    w.turn_right();
    assert_eq!(w.step_with(&mut rng), Ok(StepOk::Nothing));
    assert_eq!(w.step_with(&mut rng), Ok(StepOk::Nothing));
    w.turn_right();
    assert_eq!(
        cells(&w),
        vec![(16, 11), (16, 10), (16, 9), (15, 9), (15, 10), (15, 11)]
    );
    // the head enters the cell that the tail leaves in the same tick
    for _ in 0..3 {
        assert_eq!(w.step_with(&mut rng), Ok(StepOk::Nothing));
        w.turn_right();
        assert_eq!(w.step_with(&mut rng), Ok(StepOk::Nothing));
        assert_eq!(w.step_with(&mut rng), Ok(StepOk::Nothing));
        w.turn_right();
        assert_eq!(w.snake().len(), 6);
    }
}

#[test]
fn four_turns_left_make_none() {
    let mut w = World::init();
    let before = w.snake().clone();
    let mut seen = vec![];
    for _ in 0..4 {
        w.turn_left();
        seen.push(w.snake()[0].dir);
    }
    assert_eq!(
        seen,
        vec![Direction::Left, Direction::Down, Direction::Right, Direction::Up]
    );
    assert_eq!(w.snake(), &before);
}

#[test]
fn four_turns_right_make_none() {
    let mut w = World::init();
    let before = w.snake().clone();
    let mut seen = vec![];
    for _ in 0..4 {
        w.turn_right();
        seen.push(w.snake()[0].dir);
    }
    assert_eq!(
        seen,
        vec![Direction::Right, Direction::Down, Direction::Left, Direction::Up]
    );
    assert_eq!(w.snake(), &before);
}

#[test]
fn directions_turn_in_a_circle() {
    for d in [Direction::Up, Direction::Right, Direction::Down, Direction::Left] {
        assert_eq!(d.left().right(), d);
        assert_eq!(d.right().left(), d);
        assert_eq!(d.left().left().left().left(), d);
        assert_eq!(d.right().right().right().right(), d);
        assert_eq!(d.left().left(), d.right().right());
    }
    assert_eq!(Direction::Up.right(), Direction::Right);
    assert_eq!(Direction::Right.right(), Direction::Down);
    assert_eq!(Direction::Down.right(), Direction::Left);
    assert_eq!(Direction::Left.right(), Direction::Up);
}

#[test]
fn a_turn_touches_the_head_only() {
    let mut rng = quiet();
    let mut w = World::init_with(&mut rng);
    w.turn_left();
    assert_eq!(w.snake()[0].dir, Direction::Left);
    assert_eq!(w.snake()[0].prev_dir, Direction::Up);
    assert_eq!(w.snake()[1].dir, Direction::Up);
    assert_eq!(w.snake()[2].dir, Direction::Up);
    assert_eq!(cells(&w), vec![(15, 15), (15, 16), (15, 17)]);
}

#[test]
fn cells_ahead() {
    let c = Coords { x: 7, y: 9 };
    assert_eq!(c.ahead(Direction::Up), Some(Coords { x: 7, y: 8 }));
    assert_eq!(c.ahead(Direction::Down), Some(Coords { x: 7, y: 10 }));
    assert_eq!(c.ahead(Direction::Left), Some(Coords { x: 6, y: 9 }));
    assert_eq!(c.ahead(Direction::Right), Some(Coords { x: 8, y: 9 }));
    assert_eq!(Coords { x: 1, y: 9 }.ahead(Direction::Left), None);
    assert_eq!(Coords { x: FIELD_SIZE, y: 9 }.ahead(Direction::Right), None);
    assert_eq!(Coords { x: 7, y: 1 }.ahead(Direction::Up), None);
    assert_eq!(Coords { x: 7, y: FIELD_SIZE }.ahead(Direction::Down), None);
    assert_eq!(
        Coords { x: 2, y: 2 }.ahead(Direction::Left),
        Some(Coords { x: 1, y: 2 })
    );
}

#[test]
fn same_rolls_same_round() {
    let rolls: Vec<u32> = (0..997u32).map(|i| i.wrapping_mul(2654435761) >> 7).collect();
    let mut runs = vec![];
    for _ in 0..2 {
        let mut rng = Replay::new(rolls.clone());
        let mut w = World::init_with(&mut rng);
        let mut seen = vec![];
        for tick in 0..400 {
            if tick % 7 == 6 {
                w.turn_right();
            }
            let r = w.step_with(&mut rng);
            seen.push((r, w.snake().clone(), w.things().clone(), w.score(), w.grow()));
            if r.is_err() {
                break;
            }
        }
        runs.push(seen);
    }
    assert!(runs[0].len() > 10);
    assert_eq!(runs[0], runs[1]);
}

#[test]
fn a_round_stays_in_play() {
    for round in 0..20 {
        let mut w = World::init();
        assert_in_play(&w);
        let mut len = w.snake().len();
        let mut score = w.score();
        for tick in 0..600 {
            // a square of side six, turned to the right
            if tick % 6 == 5 || (round % 2 == 1 && tick % 12 == 2) {
                w.turn_right();
            }
            let growing = w.grow() > 0;
            match w.step() {
                Ok(_) => {
                    assert_in_play(&w);
                    assert_eq!(w.snake().len(), if growing { len + 1 } else { len });
                    assert!(w.score() >= score);
                    len = w.snake().len();
                    score = w.score();
                }
                Err(StepError::SelfHit) => break,
                Err(StepError::OutOfField) => {
                    assert_in_play(&w);
                    break;
                }
                Err(StepError::Obstacle) => {
                    // the obstacle lies under the head, and nothing else does
                    let head = w.snake()[0].coords;
                    let under: Vec<_> = w
                        .things()
                        .iter()
                        .filter(|t| (t.x, t.y) == (head.x, head.y))
                        .collect();
                    assert_eq!(under.len(), 1);
                    assert_eq!(under[0].what, Thing::Obstacle);
                    assert!(!w.is_in_play());
                    break;
                }
            }
        }
    }
}

#[test]
fn food_as_chance_decides() {
    let lean = ThingInField::food(LEAN_AFTER_FOOD, 4, 7, true, true, 2);
    assert_eq!(
        lean,
        ThingInField {
            what: Thing::Lean,
            picture_index: 2,
            x: 4,
            y: 7,
            lifetime: Some(LEAN_LIFETIME)
        }
    );
    // not enough food eaten for lean food: fat instead
    let fat = ThingInField::food(LEAN_AFTER_FOOD - 1, 4, 7, true, true, 0);
    assert_eq!(
        fat,
        ThingInField { what: Thing::Fat, picture_index: 0, x: 4, y: 7, lifetime: None }
    );
    let plain = ThingInField::food(9, 4, 7, false, false, 1);
    assert_eq!(
        plain,
        ThingInField {
            what: Thing::Food,
            picture_index: 1,
            x: 4,
            y: 7,
            lifetime: Some(FOOD_LIFETIME)
        }
    );
    assert_eq!(FOOD_LIFETIME, 60);
    assert_eq!(LEAN_LIFETIME, 60);
    assert_eq!(OBSTACLE_LIFETIME, 60);
    assert_eq!(MYSTERY_LIFETIME, 120);
}

#[test]
fn food_on_the_rim_stays() {
    for (x, y) in [(1, 7), (FIELD_SIZE, 7), (7, 1), (7, FIELD_SIZE), (1, 1), (FIELD_SIZE, FIELD_SIZE)] {
        assert_eq!(ThingInField::food(0, x, y, false, false, 0).lifetime, None);
        // lean food has a lifetime wherever it lies
        assert_eq!(
            ThingInField::food(5, x, y, true, false, 0).lifetime,
            Some(LEAN_LIFETIME)
        );
    }
    for (x, y) in [(2, 2), (FIELD_SIZE - 1, 2), (2, FIELD_SIZE - 1), (15, 15)] {
        assert_eq!(
            ThingInField::food(0, x, y, false, false, 0).lifetime,
            Some(FOOD_LIFETIME)
        );
    }
}

#[test]
fn free_cells_of_a_new_round() {
    let mut rng = quiet();
    let w = World::init_with(&mut rng);
    // the square of side five around the head at (15, 15)
    for x in 13..=17 {
        for y in 13..=17 {
            assert!(!w.is_empty_spot(x, y));
        }
    }
    for (x, y) in [(12, 15), (18, 15), (15, 12), (12, 12), (18, 18), (13, 18), (1, 1), (30, 30)] {
        assert!(w.is_empty_spot(x, y), "{} {}", x, y);
    }
    // the food
    assert!(!w.is_empty_spot(21, 21));
    assert!(w.on_thing(21, 21));
    assert!(!w.on_thing(21, 22));
    // the snake
    assert!(w.on_snake(15, 15));
    assert!(w.on_snake(15, 17));
    assert!(!w.on_snake(15, 18));
    assert!(w.is_empty_spot(15, 18));
    // off the field
    for (x, y) in [(0, 5), (5, 0), (31, 5), (5, 31), (0, 0), (u32::MAX, 3)] {
        assert!(!w.is_empty_spot(x, y));
    }
}

#[test]
fn the_zone_around_the_head_ends_at_the_wall() {
    let mut rng = quiet();
    let mut w = World::init_with(&mut rng);
    for _ in 0..14 {
        w.step_with(&mut rng).unwrap();
    }
    assert_eq!(w.snake()[0].coords, Coords { x: 15, y: 1 });
    assert!(!w.is_empty_spot(13, 1));
    assert!(!w.is_empty_spot(17, 3));
    assert!(w.is_empty_spot(12, 1));
    assert!(w.is_empty_spot(15, 4));
}

#[test]
fn food_that_runs_out_of_time_is_replaced() {
    // food on (21, 21); what replaces it is looked for on (21, 21) first,
    // where the old food still lies, and then found on (3, 4)
    let mut rolls = vec![20, 20, QUIET, 0];
    for _ in 0..60 {
        rolls.extend([QUIET, QUIET]);
    }
    rolls.extend([20, 20, 2, 3, QUIET, 1, QUIET, QUIET]);
    rolls.extend([QUIET, QUIET]);
    let mut rng = Replay::new(rolls);
    let mut w = World::init_with(&mut rng);
    w.step_with(&mut rng).unwrap();
    for tick in 1..60 {
        // round and round a square of side six
        if tick % 5 == 0 {
            w.turn_right();
        }
        assert_eq!(w.step_with(&mut rng), Ok(StepOk::Nothing));
        assert_eq!(w.things()[0].lifetime, Some(FOOD_LIFETIME - 1 - tick));
    }
    assert_eq!(w.things()[0].lifetime, Some(0));
    assert_eq!(w.step_with(&mut rng), Ok(StepOk::Nothing));
    assert_eq!(
        w.things().as_slice(),
        &[ThingInField {
            what: Thing::Food,
            picture_index: 1,
            x: 3,
            y: 4,
            lifetime: Some(FOOD_LIFETIME)
        }]
    );
    assert_eq!(w.score(), 0);
    assert_eq!(w.eaten_food(), 0);
}

#[test]
fn food_under_the_head_is_eaten_though_its_time_is_up() {
    // food on (15, 10); the snake goes up four cells, then fourteen times
    // round a block of four cells, and reaches the food in tick 61
    let mut rolls = vec![14, 9, QUIET, 0];
    for _ in 0..60 {
        rolls.extend([QUIET, QUIET]);
    }
    rolls.extend([20, 20, QUIET, 1, QUIET, QUIET]);
    let mut rng = Replay::new(rolls);
    let mut w = World::init_with(&mut rng);
    for _ in 0..4 {
        assert_eq!(w.step_with(&mut rng), Ok(StepOk::Nothing));
    }
    for _ in 0..56 {
        w.turn_right();
        assert_eq!(w.step_with(&mut rng), Ok(StepOk::Nothing));
    }
    assert_eq!(w.snake()[0].coords, Coords { x: 15, y: 11 });
    assert_eq!(w.snake()[0].dir, Direction::Up);
    assert_eq!(
        w.things().as_slice(),
        &[ThingInField { what: Thing::Food, picture_index: 0, x: 15, y: 10, lifetime: Some(0) }]
    );
    assert_eq!(w.step_with(&mut rng), Ok(StepOk::AteFood));
    assert_eq!(w.score(), 1);
    assert_eq!(w.eaten_food(), 1);
    assert_eq!(w.grow(), 3);
    assert_eq!(
        w.things().as_slice(),
        &[ThingInField {
            what: Thing::Food,
            picture_index: 1,
            x: 21,
            y: 21,
            lifetime: Some(FOOD_LIFETIME)
        }]
    );
}

fn with_mystery_ahead(bonus_roll: u32) -> (World, Replay) {
    // fat food on the rim at (30, 30); in the first step a mystery item on
    // (15, 9), picture 3; in the sixth step the mystery item pays out
    let mut rolls = vec![29, 29, 999, 0];
    rolls.extend([QUIET, 0, 14, 8, 3]);
    for _ in 0..4 {
        rolls.extend([QUIET, QUIET]);
    }
    rolls.extend([bonus_roll, QUIET, QUIET]);
    let mut rng = Replay::new(rolls);
    let mut w = World::init_with(&mut rng);
    assert_eq!(
        w.things()[0],
        ThingInField { what: Thing::Fat, picture_index: 0, x: 30, y: 30, lifetime: None }
    );
    for _ in 0..5 {
        assert_eq!(w.step_with(&mut rng), Ok(StepOk::Nothing));
    }
    assert_eq!(
        w.things()[1],
        ThingInField {
            what: Thing::Mystery,
            picture_index: 3,
            x: 15,
            y: 9,
            lifetime: Some(MYSTERY_LIFETIME - 4)
        }
    );
    (w, rng)
}

#[test]
fn a_mystery_item_may_pay_out_in_points() {
    let (mut w, mut rng) = with_mystery_ahead(4999);
    assert_eq!(w.step_with(&mut rng), Ok(StepOk::AteMystery));
    assert_eq!(w.score(), MYSTERY_SCORE);
    assert_eq!(w.score(), 5);
    assert_eq!(w.eaten_food(), 1);
    assert_eq!(w.grow(), 0);
    // no food appears for a mystery item
    assert_eq!(w.things().len(), 1);
    assert_eq!(w.things()[0].what, Thing::Fat);
}

#[test]
fn a_mystery_item_may_pay_out_in_growth() {
    let (mut w, mut rng) = with_mystery_ahead(5000);
    assert_eq!(w.step_with(&mut rng), Ok(StepOk::AteMystery));
    assert_eq!(w.score(), 0);
    assert_eq!(w.eaten_food(), 0);
    assert_eq!(w.grow(), MYSTERY_GROW_SNAKE);
    assert_eq!(w.grow(), 15);
    assert_eq!(w.things().len(), 1);
}

#[test]
fn fat_food_makes_the_snake_grow_by_six() {
    // fat food on (15, 10), which stays until it is eaten
    let mut rolls = vec![14, 9, 999, 1];
    for _ in 0..4 {
        rolls.extend([QUIET, QUIET]);
    }
    rolls.extend([20, 20, QUIET, 1, QUIET, QUIET]);
    let mut rng = Replay::new(rolls);
    let mut w = World::init_with(&mut rng);
    assert_eq!(
        w.things()[0],
        ThingInField { what: Thing::Fat, picture_index: 1, x: 15, y: 10, lifetime: None }
    );
    for _ in 0..4 {
        assert_eq!(w.step_with(&mut rng), Ok(StepOk::Nothing));
        assert_eq!(w.things()[0].lifetime, None);
    }
    assert_eq!(w.step_with(&mut rng), Ok(StepOk::AteFood));
    assert_eq!(w.score(), 1);
    assert_eq!(w.eaten_food(), 1);
    assert_eq!(w.grow(), 6);
    assert_eq!(w.things().len(), 1);
    assert_eq!(w.things()[0].what, Thing::Food);
}

#[test]
fn lean_food_comes_after_five_and_starts_the_count_again() {
    // the rolls of a tick in which nothing appears, and of one in which
    // food is eaten and plain food appears on (x, y)
    let quiet = [QUIET, QUIET];
    let eat = |x: u32, y: u32| [x - 1, y - 1, QUIET, 0, QUIET, QUIET];
    // food three cells ahead of the snake, four times on its way to the
    // left and once on its way down
    let mut rolls = vec![11, 14, QUIET, 0];
    for next in [(9, 15), (6, 15), (3, 15), (3, 19)] {
        rolls.extend(quiet);
        rolls.extend(quiet);
        rolls.extend(eat(next.0, next.1));
    }
    // the fifth food is eaten: lean food is rolled for, and comes, on (3, 23)
    rolls.extend(quiet);
    rolls.extend(quiet);
    rolls.extend(quiet);
    rolls.extend([2, 22, 4999, 0, QUIET, QUIET]);
    // the lean food is eaten: plain food follows, and no roll for lean
    rolls.extend(quiet);
    rolls.extend(quiet);
    rolls.extend(quiet);
    rolls.extend(eat(21, 21));
    let mut rng = Replay::new(rolls);
    let mut w = World::init_with(&mut rng);
    assert_eq!((w.things()[0].x, w.things()[0].y), (12, 15));
    w.turn_left();
    let mut eaten = 0;
    for x in (3..15).rev() {
        let r = w.step_with(&mut rng).unwrap();
        if x % 3 == 0 {
            assert_eq!(r, StepOk::AteFood);
            eaten += 1;
            assert_eq!(w.eaten_food(), eaten);
            assert_eq!(w.things()[0].what, Thing::Food);
        } else {
            assert_eq!(r, StepOk::Nothing);
        }
    }
    assert_eq!(w.eaten_food(), 4);
    assert_eq!((w.things()[0].x, w.things()[0].y), (3, 19));
    w.turn_left();
    for _ in 0..3 {
        assert_eq!(w.step_with(&mut rng), Ok(StepOk::Nothing));
    }
    assert_eq!(w.step_with(&mut rng), Ok(StepOk::AteFood));
    assert_eq!(w.eaten_food(), LEAN_AFTER_FOOD);
    assert_eq!(
        w.things()[0],
        ThingInField {
            what: Thing::Lean,
            picture_index: 0,
            x: 3,
            y: 23,
            lifetime: Some(LEAN_LIFETIME)
        }
    );
    let score = w.score();
    assert_eq!(w.grow(), 3);
    for _ in 0..3 {
        assert_eq!(w.step_with(&mut rng), Ok(StepOk::Nothing));
    }
    assert_eq!(w.grow(), 0);
    let len = w.snake().len();
    assert_eq!(w.step_with(&mut rng), Ok(StepOk::AteFood));
    assert_eq!(w.eaten_food(), 0);
    assert_eq!(w.score(), score + 1);
    // lean food does not make the snake grow
    assert_eq!(w.grow(), 0);
    assert_eq!(w.snake().len(), len);
    assert_eq!(w.things()[0].what, Thing::Food);
    assert_eq!((w.things()[0].x, w.things()[0].y), (21, 21));
}

#[test]
fn where_no_draw_finds_a_free_cell_the_field_is_gone_through() {
    // every cell that is drawn lies under the head; of the free cells,
    // counted row by row from zero, the one with number 14 is taken
    let mut rng = Replay::new(vec![14]);
    let w = World::init_with(&mut rng);
    assert_eq!(
        w.things().as_slice(),
        &[ThingInField { what: Thing::Fat, picture_index: 2, x: 15, y: 1, lifetime: None }]
    );
    // of the 875 free cells, rows 1 to 12 hold 360, rows 13 to 17, where
    // the zone around the head lies, 25 each, and row 18 all 30
    let mut rng = Replay::new(vec![524]);
    let w = World::init_with(&mut rng);
    assert_eq!(524 % 30, 14);
    assert_eq!(360 + 5 * 25 + 30 + 9, 524);
    assert_eq!(
        w.things().as_slice(),
        &[ThingInField { what: Thing::Fat, picture_index: 2, x: 10, y: 19, lifetime: None }]
    );
}

#[test]
fn the_thread_generator_stays_in_range() {
    let mut rng = ThreadRandom::new();
    let mut seen = [false; 30];
    for _ in 0..3000 {
        let r = rng.below(30);
        assert!(r < 30);
        seen[r as usize] = true;
    }
    assert!(seen.iter().all(|s| *s));
    for n in 1..50 {
        assert!(rng.below(n) < n);
    }
    assert_eq!(rng.below(1), 0);
}

#[test]
fn the_thread_generator_keeps_to_the_odds() {
    let mut rng = ThreadRandom::new();
    let mut hits = 0;
    for _ in 0..2000 {
        assert!(rng.ratio(7, 7));
        assert!(!rng.ratio(0, 7));
        if rng.ratio(1, 2) {
            hits += 1;
        }
    }
    assert!(hits > 700 && hits < 1300);
}

#[test]
fn a_replay_goes_round() {
    let mut rng = Replay::new(vec![7, 8, 12]);
    assert_eq!(rng.below(5), 2);
    assert_eq!(rng.below(5), 3);
    assert_eq!(rng.roll(), 12);
    assert_eq!(rng.below(5), 2);
    assert!(rng.ratio(9, 10));
    assert!(!rng.ratio(2, 10));
    assert!(rng.ratio(8, 10));
    let mut none = Replay::new(vec![]);
    assert_eq!(none.roll(), 0);
    assert_eq!(none.below(3), 0);
    assert!(none.ratio(1, 3));
    assert!(!none.ratio(0, 3));
}

#[test]
fn a_new_round_has_headroom() {
    let w = World::init();
    assert!(w.has_headroom());
    assert!(w.is_in_play());
}

#[test]
fn a_head_turned_right_round_is_in_play_until_the_tick() {
    let mut rng = quiet();
    let mut w = World::init_with(&mut rng);
    w.step_with(&mut rng).unwrap();
    w.turn_right();
    w.turn_right();
    assert!(w.is_in_play());
    assert_eq!(w.step_with(&mut rng), Err(StepError::SelfHit));
    assert!(!w.is_in_play());
}

#[test]
fn the_odds_of_each_kind() {
    assert_eq!(Thing::Obstacle.odds(), (150, 10_000));
    assert_eq!(Thing::Mystery.odds(), (25, 10_000));
    assert_eq!(Thing::Lean.odds(), (5_000, 10_000));
    assert_eq!(Thing::Fat.odds(), (1_000, 10_000));
    assert_eq!(Thing::Food.odds(), (10_000, 10_000));
    assert_eq!(Thing::bonus_odds(), (5_000, 10_000));
    assert_eq!(Thing::Obstacle.odds(), (OBSTACLE_P, P_SCALE));
    assert_eq!(Thing::Mystery.odds(), (MYSTERY_P, P_SCALE));
    assert_eq!(Thing::Lean.odds(), (LEAN_P, P_SCALE));
    assert_eq!(Thing::Fat.odds(), (FAT_P, P_SCALE));
    assert_eq!(Thing::bonus_odds(), (MYSTERY_SCORE_P, P_SCALE));
}

#[test]
fn what_was_drawn_is_put_on_the_field() {
    let mut rng = quiet();
    let mut w = World::init_with(&mut rng);
    let before = w.things().clone();
    // chance was against an obstacle
    assert_eq!(
        w.place_drawn(Thing::Obstacle, OBSTACLE_LIFETIME, false, Some((3, 4)), 2),
        None
    );
    assert_eq!(w.things(), &before);
    // no cell was found
    assert_eq!(
        w.place_drawn(Thing::Obstacle, OBSTACLE_LIFETIME, true, None, 2),
        None
    );
    assert_eq!(w.things(), &before);
    let obstacle = ThingInField {
        what: Thing::Obstacle,
        picture_index: 2,
        x: 3,
        y: 4,
        lifetime: Some(OBSTACLE_LIFETIME),
    };
    assert_eq!(
        w.place_drawn(Thing::Obstacle, OBSTACLE_LIFETIME, true, Some((3, 4)), 2),
        Some(obstacle)
    );
    let mystery = ThingInField {
        what: Thing::Mystery,
        picture_index: 3,
        x: 7,
        y: 30,
        lifetime: Some(MYSTERY_LIFETIME),
    };
    assert_eq!(
        w.place_drawn(Thing::Mystery, MYSTERY_LIFETIME, true, Some((7, 30)), 3),
        Some(mystery)
    );
    assert_eq!(w.things().as_slice(), &[before[0], obstacle, mystery]);
    assert_eq!(cells(&w), vec![(15, 15), (15, 16), (15, 17)]);
    assert_eq!((w.score(), w.grow(), w.eaten_food()), (0, 0, 0));
    assert_in_play(&w);
}

#[test]
fn the_food_that_was_drawn_is_put_on_the_field() {
    let mut rng = quiet();
    let mut w = World::init_with(&mut rng);
    let first = w.things()[0];
    assert_eq!(w.place_food(None, true, true, 1), None);
    assert_eq!(w.things().len(), 1);
    // not enough food was eaten for lean food
    let fat = w.place_food(Some((3, 4)), true, true, 1);
    assert_eq!(
        fat,
        Some(ThingInField { what: Thing::Fat, picture_index: 1, x: 3, y: 4, lifetime: None })
    );
    let plain = w.place_food(Some((5, 6)), true, false, 2);
    assert_eq!(
        plain,
        Some(ThingInField {
            what: Thing::Food,
            picture_index: 2,
            x: 5,
            y: 6,
            lifetime: Some(FOOD_LIFETIME)
        })
    );
    let rim = w.place_food(Some((1, 6)), false, false, 0);
    assert_eq!(rim.unwrap().lifetime, None);
    assert_eq!(
        w.things().as_slice(),
        &[first, fat.unwrap(), plain.unwrap(), rim.unwrap()]
    );
    assert_in_play(&w);
    // after five times food, lean food may come
    for _ in 0..5 {
        assert_eq!(w.eat(Thing::Food, false), Ok(StepOk::AteFood));
    }
    let lean = w.place_food(Some((9, 9)), true, true, 0);
    assert_eq!(
        lean,
        Some(ThingInField {
            what: Thing::Lean,
            picture_index: 0,
            x: 9,
            y: 9,
            lifetime: Some(LEAN_LIFETIME)
        })
    );
    assert_eq!(w.place_food(Some((9, 10)), false, true, 0).unwrap().what, Thing::Fat);
}

#[test]
fn what_the_head_comes_upon_is_counted() {
    let mut rng = quiet();
    let mut w = World::init_with(&mut rng);
    assert_eq!(w.eat(Thing::Food, true), Ok(StepOk::AteFood));
    assert_eq!((w.score(), w.grow(), w.eaten_food()), (1, 3, 1));
    assert_eq!(w.eat(Thing::Fat, false), Ok(StepOk::AteFood));
    assert_eq!((w.score(), w.grow(), w.eaten_food()), (2, 9, 2));
    assert_eq!(w.eat(Thing::Mystery, true), Ok(StepOk::AteMystery));
    assert_eq!((w.score(), w.grow(), w.eaten_food()), (7, 9, 3));
    assert_eq!(w.eat(Thing::Mystery, false), Ok(StepOk::AteMystery));
    assert_eq!((w.score(), w.grow(), w.eaten_food()), (7, 24, 3));
    assert_eq!(w.eat(Thing::Lean, true), Ok(StepOk::AteFood));
    assert_eq!((w.score(), w.grow(), w.eaten_food()), (8, 24, 0));
    assert_eq!(w.eat(Thing::Obstacle, true), Err(StepError::Obstacle));
    assert_eq!((w.score(), w.grow(), w.eaten_food()), (8, 24, 0));
    assert_eq!(w.things().len(), 1);
    assert_eq!(cells(&w), vec![(15, 15), (15, 16), (15, 17)]);
}
