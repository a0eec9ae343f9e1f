use std::cell::RefCell;

use rnake::play::{quit_message, Command, Effect, Frame, Pilot};
use rnake::random::Replay;
use rnake::sound::Fx;
use rnake::widgets::{Event, Key};
use rnake::world::{Direction, StepError, StepOk, World};

struct Heard(RefCell<Vec<&'static str>>);

impl Fx for Heard {
    fn boom(&self) {
        self.0.borrow_mut().push("boom");
    }
    fn food(&self) {
        self.0.borrow_mut().push("food");
    }
    fn mystery(&self) {
        self.0.borrow_mut().push("mystery");
    }
    fn obstacle(&self) {
        self.0.borrow_mut().push("obstacle");
    }
    fn start(&self) {
        self.0.borrow_mut().push("start");
    }
    fn wall(&self) {
        self.0.borrow_mut().push("wall");
    }
}

#[test]
fn what_the_keys_ask_for() {
    assert_eq!(Command::of(Event::Quit), Command::Quit);
    assert_eq!(Command::of(Event::KeyDown(Key::Escape)), Command::Quit);
    assert_eq!(Command::of(Event::KeyDown(Key::Left)), Command::TurnLeft);
    assert_eq!(Command::of(Event::KeyDown(Key::Right)), Command::TurnRight);
    for key in [Key::Return, Key::Space, Key::Up, Key::Down, Key::Other] {
        assert_eq!(Command::of(Event::KeyDown(key)), Command::Nothing);
    }
    assert_eq!(Command::of(Event::Other), Command::Nothing);
}

#[test]
fn what_is_heard_after_a_tick() {
    assert_eq!(Effect::after(Err(StepError::Obstacle)), Some(Effect::Obstacle));
    assert_eq!(Effect::after(Err(StepError::OutOfField)), Some(Effect::Wall));
    assert_eq!(Effect::after(Err(StepError::SelfHit)), Some(Effect::Boom));
    assert_eq!(Effect::after(Ok(StepOk::AteFood)), Some(Effect::Food));
    assert_eq!(Effect::after(Ok(StepOk::AteMystery)), Some(Effect::Mystery));
    assert_eq!(Effect::after(Ok(StepOk::Nothing)), None);
}

#[test]
fn each_effect_is_played_once_by_its_name() {
    let heard = Heard(RefCell::new(vec![]));
    for effect in [
        Effect::Boom,
        Effect::Food,
        Effect::Mystery,
        Effect::Obstacle,
        Effect::Start,
        Effect::Wall,
    ] {
        effect.play(&heard);
    }
    assert_eq!(
        *heard.0.borrow(),
        vec!["boom", "food", "mystery", "obstacle", "start", "wall"]
    );
}

#[test]
fn what_is_said_of_the_end_of_a_round() {
    assert_eq!(quit_message(StepError::Obstacle), "You have hit an obstacle.");
    assert_eq!(quit_message(StepError::OutOfField), "You have hit the wall.");
    assert_eq!(quit_message(StepError::SelfHit), "You have hit yourself.");
}

#[test]
fn the_first_turn_of_a_tick_wins() {
    let mut rng = Replay::new(vec![5000]);
    let mut w = World::init_with(&mut rng);
    let mut pilot = Pilot::new();
    pilot.turn_left(&mut w);
    assert_eq!(w.snake()[0].dir, Direction::Left);
    pilot.turn_left(&mut w);
    pilot.turn_right(&mut w);
    pilot.turn_right(&mut w);
    assert_eq!(w.snake()[0].dir, Direction::Left);
    assert_eq!(pilot.step(&mut w, &mut rng), Ok(StepOk::Nothing));
    assert_eq!(w.snake()[0].coords.x, 14);
    // after the tick the snake may turn again
    pilot.turn_right(&mut w);
    assert_eq!(w.snake()[0].dir, Direction::Up);
    pilot.turn_right(&mut w);
    assert_eq!(w.snake()[0].dir, Direction::Up);
    assert_eq!(pilot.step(&mut w, &mut rng), Ok(StepOk::Nothing));
    assert_eq!(w.snake()[0].coords.y, 14);
    // and need not
    assert_eq!(pilot.step(&mut w, &mut rng), Ok(StepOk::Nothing));
    pilot.turn_left(&mut w);
    assert_eq!(w.snake()[0].dir, Direction::Left);
}

#[test]
fn a_pilot_never_turns_the_snake_back() {
    let mut rng = Replay::new(vec![5000]);
    let mut w = World::init_with(&mut rng);
    let mut pilot = Pilot::new();
    for tick in 0..40 {
        if tick % 3 == 0 {
            pilot.turn_left(&mut w);
            pilot.turn_left(&mut w);
        }
        let head = w.snake()[0];
        assert!(!head.dir.is_opposite(head.prev_dir));
        assert_eq!(pilot.step(&mut w, &mut rng), Ok(StepOk::Nothing));
    }
}

#[test]
fn a_frame_turns_once_and_ticks() {
    let mut rng = Replay::new(vec![5000]);
    let mut w = World::init_with(&mut rng);
    let mut pilot = Pilot::new();
    let events = vec![
        Event::Other,
        Event::KeyDown(Key::Up),
        Event::KeyDown(Key::Right),
        Event::KeyDown(Key::Right),
        Event::KeyDown(Key::Left),
    ];
    assert_eq!(
        pilot.frame(&mut w, &events, &mut rng),
        Frame::Ticked(Ok(StepOk::Nothing))
    );
    assert_eq!(w.snake()[0].dir, Direction::Right);
    assert_eq!((w.snake()[0].coords.x, w.snake()[0].coords.y), (16, 15));
    // the next frame begins afresh
    let events = vec![Event::KeyDown(Key::Left)];
    assert_eq!(
        pilot.frame(&mut w, &events, &mut rng),
        Frame::Ticked(Ok(StepOk::Nothing))
    );
    assert_eq!(w.snake()[0].dir, Direction::Up);
    assert_eq!((w.snake()[0].coords.x, w.snake()[0].coords.y), (16, 14));
    // a frame without events goes straight on
    assert_eq!(
        pilot.frame(&mut w, &vec![], &mut rng),
        Frame::Ticked(Ok(StepOk::Nothing))
    );
    assert_eq!((w.snake()[0].coords.x, w.snake()[0].coords.y), (16, 13));
}

#[test]
fn a_frame_ends_the_round_without_a_tick() {
    let mut rng = Replay::new(vec![5000]);
    let mut w = World::init_with(&mut rng);
    let mut pilot = Pilot::new();
    let events = vec![
        Event::KeyDown(Key::Left),
        Event::KeyDown(Key::Escape),
        Event::KeyDown(Key::Right),
    ];
    assert_eq!(pilot.frame(&mut w, &events, &mut rng), Frame::Quit);
    // the turn before the end was made, the snake has not moved
    assert_eq!(w.snake()[0].dir, Direction::Left);
    assert_eq!((w.snake()[0].coords.x, w.snake()[0].coords.y), (15, 15));
    let mut w = World::init_with(&mut rng);
    let mut pilot = Pilot::new();
    assert_eq!(pilot.frame(&mut w, &vec![Event::Quit], &mut rng), Frame::Quit);
    assert_eq!(w.snake()[0].dir, Direction::Up);
}

#[test]
fn a_frame_tells_how_the_round_ended() {
    let mut rng = Replay::new(vec![5000]);
    let mut w = World::init_with(&mut rng);
    let mut pilot = Pilot::new();
    for _ in 0..14 {
        assert_eq!(
            pilot.frame(&mut w, &vec![], &mut rng),
            Frame::Ticked(Ok(StepOk::Nothing))
        );
    }
    assert_eq!(
        pilot.frame(&mut w, &vec![], &mut rng),
        Frame::Ticked(Err(StepError::OutOfField))
    );
}
