//! What holds of the rules of the game, with proof.

use crate::lemmas::{
    lemma_advance, lemma_sweep_counts, lemma_sweep_shape, lemma_sweep_stopped, lemma_tick,
};
use crate::random::Draw;
use crate::rolls::{
    chances_by, chances_grow, chances_read_their_part, drawn_by, drawn_grows, drawn_reads_its_part,
    same_part, same_part_within, tick_by,
};
use crate::model::{
    apart, appended, as_seq, cell_at, kept, luck_fits, outcome, snake_ok, sweep, things_ok, tick,
    Luck, WorldState,
};
use crate::world::{
    Direction, StepError, StepOk, Thing, ThingInField, FIELD_SIZE, MYSTERY_LIFETIME,
    OBSTACLE_LIFETIME,
};
use vstd::prelude::*;

verus! {

/// A thing that appears on a free cell of a round in play leaves the round
/// in play: it lies on no segment of the snake and on no other thing.
pub proof fn drop_keeps_apart(s: WorldState, t: ThingInField)
    requires
        s.wf(),
        s.is_empty_spot(t.x as int, t.y as int),
        t.picture_index < t.what.spec_pictures(),
    ensures
        s.with_thing(t).wf(),
{
}

/// A tick leaves a round in play in play, where the snake survives it or
/// stops at the wall.
pub proof fn tick_keeps_round_in_play(s: WorldState, luck: Luck)
    requires
        s.wf(),
        luck_fits(s, luck),
        tick(s, luck).1 is Ok || tick(s, luck).1 == Err::<StepOk, StepError>(StepError::OutOfField),
    ensures
        tick(s, luck).0.wf(),
{
    lemma_tick(s, luck);
}

/// A tick in which the snake runs into an obstacle ends there: the things
/// that were settled before the obstacle are settled, the obstacle and the
/// things after it lie on the field as they were, nothing appears after
/// them, and the counters are as the snake's move left them.
pub proof fn obstacle_ends_tick_there(s: WorldState, luck: Luck, m: int)
    requires
        s.wf(),
        luck_fits(s, luck),
        s.advance().1 is None,
        0 <= m < s.things.len(),
        s.things[m].what == Thing::Obstacle,
        cell_at(s.advance().0.snake[0], s.things[m].x as int, s.things[m].y as int),
    ensures
        tick(s, luck).1 == Err::<StepOk, StepError>(StepError::Obstacle),
        tick(s, luck).0.snake == s.advance().0.snake,
        tick(s, luck).0.counts() == s.advance().0.counts(),
        tick(s, luck).0.things == kept(s.things, s.advance().0.snake[0], m as nat)
            + s.things.subrange(m, s.things.len() as int) + appended(
            s.things,
            s.advance().0.snake[0],
            luck.chances,
            m as nat,
        ),
        tick(s, luck).0.wf_moved(),
{
    lemma_tick(s, luck);
    lemma_advance(s);
    let moved = s.advance().0;
    lemma_sweep_stopped(moved, luck.chances, m as nat);
}

/// A tick that the snake survives leaves it as long as it was, or one
/// segment longer if it was growing; never shorter than three segments.
pub proof fn tick_grows_snake_by_grow(s: WorldState, luck: Luck)
    requires
        s.wf(),
        luck_fits(s, luck),
        tick(s, luck).1 is Ok,
    ensures
        tick(s, luck).0.snake.len() == s.snake.len() + if s.grow > 0 {
            1int
        } else {
            0int
        },
        tick(s, luck).0.snake.len() >= 3,
{
    lemma_tick(s, luck);
}

/// After a tick that the snake survives, no two segments of the snake lie
/// on the same cell.
pub proof fn tick_keeps_snake_apart(s: WorldState, luck: Luck)
    requires
        s.wf(),
        luck_fits(s, luck),
        tick(s, luck).1 is Ok,
    ensures
        snake_ok(tick(s, luck).0.snake),
{
    lemma_tick(s, luck);
}

/// After a tick that the snake survives, with all that appeared in it, no
/// two things lie on the same cell, and none lies on the snake.
pub proof fn tick_keeps_things_apart(s: WorldState, luck: Luck)
    requires
        s.wf(),
        luck_fits(s, luck),
        tick(s, luck).1 is Ok,
    ensures
        things_ok(tick(s, luck).0.things),
        apart(tick(s, luck).0.snake, tick(s, luck).0.things),
{
    lemma_tick(s, luck);
}

/// After a tick that the snake survives, the things on the field are, in
/// this order: those without a lifetime that the head has not come upon;
/// then what settling each thing has left behind, which is the thing itself,
/// one tick older, or the food that came for food; then the obstacle and the
/// mystery item that appeared.
pub proof fn tick_leaves_things(s: WorldState, luck: Luck)
    requires
        tick(s, luck).1 is Ok,
    ensures
        tick(s, luck).0.things == kept(s.things, s.advance().0.snake[0], s.things.len())
            + appended(s.things, s.advance().0.snake[0], luck.chances, s.things.len()) + as_seq(
            luck.obstacle,
        ) + as_seq(luck.mystery),
{
    let moved = s.advance().0;
    lemma_sweep_shape(moved, moved.things.len(), luck.chances);
}

/// After a tick of a round in play that the snake survives, the counters
/// are as the snake's move left them where the head has come upon nothing,
/// and else as the thing it has come upon left them.
pub proof fn tick_counts(s: WorldState, luck: Luck)
    requires
        s.wf(),
        tick(s, luck).1 is Ok,
    ensures
        outcome(s) == Ok::<StepOk, StepError>(StepOk::Nothing) ==> tick(s, luck).0.counts()
            == s.advance().0.counts(),
        forall|j: int|
            #![trigger s.things[j]]
            0 <= j < s.things.len() && cell_at(
                s.advance().0.snake[0],
                s.things[j].x as int,
                s.things[j].y as int,
            ) ==> tick(s, luck).0.counts() == s.advance().0.ate(
                s.things[j].what,
                luck.chances[j].bonus,
            ).counts(),
{
    lemma_advance(s);
    let moved = s.advance().0;
    lemma_sweep_counts(moved, moved.things.len(), luck.chances);
}

/// A tick that begins with the head at the rim of the field and heading out
/// of it ends at the wall, and changes nothing.
pub proof fn wall_ends_tick_unchanged(s: WorldState, luck: Luck)
    requires
        s.snake.len() > 0,
        match s.snake[0].dir {
            Direction::Up => s.snake[0].coords.y == 1,
            Direction::Down => s.snake[0].coords.y == FIELD_SIZE,
            Direction::Left => s.snake[0].coords.x == 1,
            Direction::Right => s.snake[0].coords.x == FIELD_SIZE,
        },
    ensures
        tick(s, luck) == (s, Err::<StepOk, StepError>(StepError::OutOfField)),
        outcome(s) == Err::<StepOk, StepError>(StepError::OutOfField),
{
}

/// What a tick returns and where it leaves the snake are decided by the
/// state in which it begins: chance has no part in them.
pub proof fn tick_is_decided(s: WorldState, luck: Luck, other: Luck)
    requires
        s.wf(),
        luck_fits(s, luck),
        luck_fits(s, other),
    ensures
        tick(s, luck).1 == tick(s, other).1,
        tick(s, luck).0.snake == tick(s, other).0.snake,
{
    lemma_tick(s, luck);
    lemma_tick(s, other);
}

/// Four quarter turns the same way leave the heading as it was, and so do a
/// turn one way and a turn back.
pub proof fn four_turns_make_none(d: Direction)
    ensures
        d.spec_left().spec_left().spec_left().spec_left() == d,
        d.spec_right().spec_right().spec_right().spec_right() == d,
        d.spec_left().spec_right() == d,
        d.spec_right().spec_left() == d,
{
}

/// Turning the head of a round four times the same way leaves the round as
/// it was.
pub proof fn four_turns_leave_round(s: WorldState)
    requires
        s.snake.len() > 0,
    ensures
        s.turned_left().turned_left().turned_left().turned_left() == s,
        s.turned_right().turned_right().turned_right().turned_right() == s,
{
}

/// Turning the head changes nothing else, and leaves a round in play in play.
pub proof fn turn_keeps_round_in_play(s: WorldState, dir: Direction)
    requires
        s.wf(),
    ensures
        s.headed(dir).wf(),
        s.headed(dir).has_headroom() == s.has_headroom(),
{
}

/// A tick reads the part of the record that it passes over and nothing
/// else: two ticks that begin in the same round and are given the same
/// answers to the same questions make the same of the round, wherever in
/// the records of their sources the answers lie.
pub proof fn tick_reads_its_part(s: WorldState, rolls: Seq<Draw>, at: int, other: Seq<Draw>, to: int)
    requires
        tick_by(s, rolls, at) is Some,
        same_part(rolls, at, tick_by(s, rolls, at).unwrap().1, other, to),
    ensures
        at <= tick_by(s, rolls, at).unwrap().1,
        tick_by(s, other, to) == Some(
            (tick_by(s, rolls, at).unwrap().0, to + (tick_by(s, rolls, at).unwrap().1 - at)),
        ),
{
    let end = tick_by(s, rolls, at).unwrap().1;
    let (moved, stop) = s.advance();
    if stop is None {
        let n = moved.things.len();
        let (chances, swept) = chances_by(moved, n, rolls, at).unwrap();
        let w = sweep(moved, n, chances);
        chances_grow(moved, n, rolls, at);
        if w.outcome is Ok {
            let (obstacle, mid) = drawn_by(
                w.state,
                Thing::Obstacle,
                OBSTACLE_LIFETIME,
                rolls,
                swept,
            ).unwrap();
            drawn_grows(w.state, Thing::Obstacle, OBSTACLE_LIFETIME, rolls, swept);
            drawn_grows(w.state.spawn(obstacle), Thing::Mystery, MYSTERY_LIFETIME, rolls, mid);
            same_part_within(rolls, at, end, other, to, at, swept);
            chances_read_their_part(moved, n, rolls, at, other, to);
            same_part_within(rolls, at, end, other, to, swept, mid);
            drawn_reads_its_part(
                w.state,
                Thing::Obstacle,
                OBSTACLE_LIFETIME,
                rolls,
                swept,
                other,
                to + (swept - at),
            );
            same_part_within(rolls, at, end, other, to, mid, end);
            drawn_reads_its_part(
                w.state.spawn(obstacle),
                Thing::Mystery,
                MYSTERY_LIFETIME,
                rolls,
                mid,
                other,
                to + (mid - at),
            );
        } else {
            chances_read_their_part(moved, n, rolls, at, other, to);
        }
    }
}

} // verus!
