//! What the loop that drives a round decides: which key does what, that the
//! snake turns once in a tick at most, and what is heard and said of how a
//! tick ended.

use crate::model::{luck_fits, outcome, tick, Luck, WorldState};
use crate::random::RandomSource;
use crate::rolls::{goes_on, luck_by, tick_by};
use crate::sound::Fx;
use crate::widgets::widget::{Event, Key};
use crate::world::{StepError, StepOk, World};
use vstd::prelude::*;

verus! {

/// What an event asks of a round in play.
#[derive(Clone, Copy, Debug, PartialEq, Eq, Structural)]
pub enum Command {
    /// End the round.
    Quit,
    TurnLeft,
    TurnRight,
    Nothing,
}

/// A sound effect of the game.
#[derive(Clone, Copy, Debug, PartialEq, Eq, Structural)]
pub enum Effect {
    Boom,
    Food,
    Mystery,
    Obstacle,
    Start,
    Wall,
}

impl Command {
    /// What `event` asks for: closing the window and escape end the round,
    /// the arrows left and right turn the snake.
    pub open spec fn spec_of(event: Event) -> Command {
        match event {
            Event::Quit => Command::Quit,
            Event::KeyDown(Key::Escape) => Command::Quit,
            Event::KeyDown(Key::Right) => Command::TurnRight,
            Event::KeyDown(Key::Left) => Command::TurnLeft,
            _ => Command::Nothing,
        }
    }

    /// What `event` asks for.
    #[verifier::when_used_as_spec(spec_of)]
    pub fn of(event: Event) -> (c: Command)
        ensures
            c == Command::spec_of(event),
    {
        match event {
            Event::Quit => Command::Quit,
            Event::KeyDown(Key::Escape) => Command::Quit,
            Event::KeyDown(Key::Right) => Command::TurnRight,
            Event::KeyDown(Key::Left) => Command::TurnLeft,
            _ => Command::Nothing,
        }
    }
}

impl Effect {
    /// What is heard after a tick that ended with `outcome`, if anything.
    pub open spec fn spec_after(outcome: Result<StepOk, StepError>) -> Option<Effect> {
        match outcome {
            Err(StepError::Obstacle) => Some(Effect::Obstacle),
            Err(StepError::OutOfField) => Some(Effect::Wall),
            Err(StepError::SelfHit) => Some(Effect::Boom),
            Ok(StepOk::AteFood) => Some(Effect::Food),
            Ok(StepOk::AteMystery) => Some(Effect::Mystery),
            Ok(StepOk::Nothing) => None,
        }
    }

    /// What is heard after a tick that ended with `outcome`, if anything.
    #[verifier::when_used_as_spec(spec_after)]
    pub fn after(outcome: Result<StepOk, StepError>) -> (effect: Option<Effect>)
        ensures
            effect == Effect::spec_after(outcome),
    {
        match outcome {
            Err(StepError::Obstacle) => Some(Effect::Obstacle),
            Err(StepError::OutOfField) => Some(Effect::Wall),
            Err(StepError::SelfHit) => Some(Effect::Boom),
            Ok(StepOk::AteFood) => Some(Effect::Food),
            Ok(StepOk::AteMystery) => Some(Effect::Mystery),
            Ok(StepOk::Nothing) => None,
        }
    }

    /// Has `player` play the effect.
    pub fn play<P: Fx + ?Sized>(self, player: &P) {
        match self {
            Effect::Boom => player.boom(),
            Effect::Food => player.food(),
            Effect::Mystery => player.mystery(),
            Effect::Obstacle => player.obstacle(),
            Effect::Start => player.start(),
            Effect::Wall => player.wall(),
        }
    }
}

/// How a frame of a round ended.
#[derive(Clone, Copy, Debug, PartialEq, Eq)]
pub enum Frame {
    /// The player asked for the end of the round, and no tick was made.
    Quit,
    /// A tick was made, and this is what it returned.
    Ticked(Result<StepOk, StepError>),
}

/// The round after the first `n` of the events were carried out, and
/// whether the snake has turned: the first turn that is asked for is made,
/// later ones are dropped.
pub open spec fn steered(s: WorldState, turned: bool, events: Seq<Event>, n: nat) -> (
    WorldState,
    bool,
)
    decreases n,
{
    if n == 0 {
        (s, turned)
    } else {
        let before = steered(s, turned, events, (n - 1) as nat);
        match Command::spec_of(events[n - 1]) {
            Command::TurnLeft => (
                if before.1 {
                    before.0
                } else {
                    before.0.turned_left()
                },
                true,
            ),
            Command::TurnRight => (
                if before.1 {
                    before.0
                } else {
                    before.0.turned_right()
                },
                true,
            ),
            _ => before,
        }
    }
}

/// The event at index `i` is the first that asks for the end of the round.
pub open spec fn quits_at(events: Seq<Event>, i: int) -> bool {
    &&& 0 <= i < events.len()
    &&& Command::spec_of(events[i]) == Command::Quit
    &&& forall|j: int| 0 <= j < i ==> Command::spec_of(#[trigger] events[j]) != Command::Quit
}

/// Sees to it that the snake turns once in a tick at most: the first turn
/// after a tick is made, later ones are dropped.
pub struct Pilot {
    turned: bool,
}

impl Pilot {
    /// Whether the snake has turned since the last tick.
    pub closed spec fn turned(&self) -> bool {
        self.turned
    }

    /// A pilot for a round that begins.
    pub fn new() -> (p: Pilot)
        ensures
            !p.turned(),
    {
        Pilot { turned: false }
    }

    /// Turns the snake to the left, unless it has turned in this tick.
    pub fn turn_left(&mut self, world: &mut World)
        requires
            old(world)@.snake.len() > 0,
        ensures
            final(self).turned(),
            final(world)@ == if old(self).turned() {
                old(world)@
            } else {
                old(world)@.turned_left()
            },
            old(world)@.wf() ==> final(world)@.wf(),
    {
        if !self.turned {
            world.turn_left();
            self.turned = true;
        }
    }

    /// Turns the snake to the right, unless it has turned in this tick.
    pub fn turn_right(&mut self, world: &mut World)
        requires
            old(world)@.snake.len() > 0,
        ensures
            final(self).turned(),
            final(world)@ == if old(self).turned() {
                old(world)@
            } else {
                old(world)@.turned_right()
            },
            old(world)@.wf() ==> final(world)@.wf(),
    {
        if !self.turned {
            world.turn_right();
            self.turned = true;
        }
    }

    /// One frame of a round: the events that have come in since the frame
    /// before are carried out in order, and then a tick is made; but where
    /// an event asks for the end of the round, those after it are dropped
    /// and no tick is made.
    pub fn frame<R: RandomSource>(
        &mut self,
        world: &mut World,
        events: &Vec<Event>,
        rng: &mut R,
    ) -> (f: Frame)
        requires
            old(world)@.wf(),
            old(world)@.has_headroom(),
        ensures
            match f {
                Frame::Quit => final(rng).drawn() == old(rng).drawn() && exists|i: int|
                    quits_at(events@, i) && (final(world)@, final(self).turned()) == steered(
                        old(world)@,
                        old(self).turned(),
                        events@,
                        i as nat,
                    ),
                Frame::Ticked(r) => {
                    let s = steered(old(world)@, old(self).turned(), events@, events@.len()).0;
                    &&& forall|j: int|
                        0 <= j < events@.len() ==> Command::spec_of(#[trigger] events@[j])
                            != Command::Quit
                    &&& s.wf()
                    &&& exists|luck: Luck| luck_fits(s, luck) && tick(s, luck) == (final(world)@, r)
                    &&& tick_by(s, final(rng).drawn(), old(rng).drawn().len() as int) == Some(
                        ((final(world)@, r), final(rng).drawn().len() as int),
                    )
                    &&& r == outcome(s)
                    &&& !final(self).turned()
                    &&& r is Ok || r == Err::<StepOk, StepError>(StepError::OutOfField)
                        ==> final(world)@.wf()
                    &&& r == Err::<StepOk, StepError>(StepError::Obstacle)
                        ==> final(world)@.wf_moved()
                },
            },
    {
        let mut i: usize = 0;
        while i < events.len()
            invariant
                i <= events@.len(),
                world@.wf(),
                world@.has_headroom(),
                (world@, self.turned()) == steered(
                    old(world)@,
                    old(self).turned(),
                    events@,
                    i as nat,
                ),
                forall|j: int|
                    0 <= j < i ==> Command::spec_of(#[trigger] events@[j]) != Command::Quit,
                rng.drawn() == old(rng).drawn(),
            decreases events@.len() - i,
        {
            match Command::of(events[i]) {
                Command::Quit => {
                    assert(quits_at(events@, i as int));
                    return Frame::Quit;
                },
                Command::TurnLeft => self.turn_left(world),
                Command::TurnRight => self.turn_right(world),
                Command::Nothing => {},
            }
            i += 1;
        }
        Frame::Ticked(self.step(world, rng))
    }

    /// One tick of the round, after which the snake may turn again.
    pub fn step<R: RandomSource>(&mut self, world: &mut World, rng: &mut R) -> (r: Result<
        StepOk,
        StepError,
    >)
        requires
            old(world)@.wf(),
            old(world)@.has_headroom(),
        ensures
            !final(self).turned(),
            exists|luck: Luck|
                luck_fits(old(world)@, luck) && tick(old(world)@, luck) == (final(world)@, r),
            goes_on(old(rng).drawn(), final(rng).drawn()),
            tick_by(old(world)@, final(rng).drawn(), old(rng).drawn().len() as int) == Some(
                ((final(world)@, r), final(rng).drawn().len() as int),
            ),
            luck_by(old(world)@, final(rng).drawn(), old(rng).drawn().len() as int) matches Some(
                (luck, _),
            ) && luck_fits(old(world)@, luck),
            r == outcome(old(world)@),
            final(world)@.snake == old(world)@.advance().0.snake,
            r is Ok || r == Err::<StepOk, StepError>(StepError::OutOfField) ==> final(world)@.wf(),
            r == Err::<StepOk, StepError>(StepError::Obstacle) ==> final(world)@.wf_moved(),
    {
        self.turned = false;
        world.step_with(rng)
    }
}

/// What is said of a round that ended with `error`.
pub fn quit_message(error: StepError) -> (text: &'static str)
    ensures
        text@ == match error {
            StepError::Obstacle => "You have hit an obstacle."@,
            StepError::OutOfField => "You have hit the wall."@,
            StepError::SelfHit => "You have hit yourself."@,
        },
{
    match error {
        StepError::Obstacle => "You have hit an obstacle.",
        StepError::OutOfField => "You have hit the wall.",
        StepError::SelfHit => "You have hit yourself.",
    }
}

} // verus!
