//! The proofs behind the laws of the game: what holds after the snake has
//! moved, and what holds while the things on the field are settled.

use crate::model::{
    apart, apart_from, appended, cell_at, in_field, kept, left_behind, luck_fits, opposite, outcome,
    snake_covers, stays, sweep, sweep_fits, thing_at, things_ok, tick, verdict, Chance, Luck, Sweep,
    WorldState,
};
use crate::random::Draw;
use crate::rolls::{chances_by, free_cell};
use crate::world::{
    StepError, StepOk, Thing, ThingInField, CELLS, FIELD_SIZE, MYSTERY_GROW_SNAKE, MYSTERY_SCORE,
};
use vstd::prelude::*;

verus! {

/// The count of free cells does not fall as more cells are counted.
pub proof fn free_cells_grow(s: WorldState, i: nat, j: nat)
    requires
        i <= j,
    ensures
        s.free_among(i) <= s.free_among(j),
    decreases j,
{
    if i < j {
        free_cells_grow(s, i, (j - 1) as nat);
    }
}

/// No more cells are free than there are.
pub proof fn free_cells_at_most(s: WorldState, n: nat)
    ensures
        s.free_among(n) <= n,
    decreases n,
{
    if n > 0 {
        free_cells_at_most(s, (n - 1) as nat);
    }
}

/// A free cell is the free cell with the number of the free cells before it.
pub proof fn free_cell_found(s: WorldState, i: nat, n: nat)
    requires
        i < n,
        s.is_empty_spot(i as int % (FIELD_SIZE as int) + 1, i as int / (FIELD_SIZE as int) + 1),
    ensures
        free_cell(s, s.free_among(i), n) == Some(
            (
                (i as int % (FIELD_SIZE as int) + 1) as u32,
                (i as int / (FIELD_SIZE as int) + 1) as u32,
            ),
        ),
    decreases n,
{
    if n - 1 > i {
        free_cells_grow(s, i + 1, (n - 1) as nat);
        free_cell_found(s, i, (n - 1) as nat);
    }
}

/// Where none of the first `n` cells is counted as free, none of them is.
proof fn no_free_among(s: WorldState, n: nat, i: int)
    requires
        s.free_among(n) == 0,
        0 <= i < n,
    ensures
        !s.is_empty_spot(i % (FIELD_SIZE as int) + 1, i / (FIELD_SIZE as int) + 1),
    decreases n,
{
    if i < n - 1 {
        no_free_among(s, (n - 1) as nat, i);
    }
}

/// A field on which no cell is counted as free is full.
pub proof fn no_free_cells(s: WorldState)
    requires
        s.free_among(CELLS as nat) == 0,
    ensures
        s.is_full(),
{
    assert forall|x: int, y: int| !#[trigger] s.is_empty_spot(x, y) by {
        if in_field(x, y) {
            let i = (y - 1) * (FIELD_SIZE as int) + (x - 1);
            no_free_among(s, CELLS as nat, i);
        }
    }
}

/// A round that begins has room for its first food.
pub proof fn start_has_room()
    ensures
        !WorldState::start().is_full(),
{
    let s = WorldState::start();
    assert(s.is_empty_spot(1, 1));
}

/// After the first part of a tick in a round in play, the round is as far
/// as the middle of a tick asks, unless the snake ran into the wall or into
/// itself; and only the snake and its growth have changed.
pub proof fn lemma_advance(s: WorldState)
    requires
        s.wf(),
    ensures
        s.advance().1 is None ==> s.advance().0.wf_moved(),
        s.advance().1 == Some(StepError::OutOfField) ==> s.advance().0 == s,
        s.advance().1 != Some(StepError::Obstacle),
        s.advance().0.things == s.things,
        s.advance().0.score == s.score,
        s.advance().0.eaten_food == s.eaten_food,
        s.advance().0.grow <= s.grow,
{
    let head = s.snake[0];
    match head.coords.spec_ahead(head.dir) {
        None => {},
        Some(c) => {
            let shed = s.shed();
            if !snake_covers(shed.snake, c.x as int, c.y as int) {
                let a = shed.with_head(c);
                assert forall|i: int| 1 <= i < a.snake.len() implies !opposite(
                    (#[trigger] a.snake[i]).dir,
                    a.snake[i].prev_dir,
                ) by {
                    if i == 1 && opposite(head.dir, head.prev_dir) {
                        // then the snake would have gone back onto the segment behind its head
                        assert(cell_at(shed.snake[1], c.x as int, c.y as int));
                    }
                }
            }
        },
    }
}

/// What holds of a sweep that began in `a` and has settled `n` things: the
/// snake has not changed; all things lie on the field, apart from each other
/// and from the snake, but that those still to settle may lie under the
/// head; and the counters have changed only if a thing under the head has
/// been settled, after which none lies there any more. Where an obstacle
/// has ended the round, it still lies under the head, and the counters are
/// as they were.
pub open spec fn sweep_ok(a: WorldState, n: nat, w: Sweep) -> bool {
    let left = a.things.len() - n;
    let things = w.state.things;
    let x = a.snake[0].coords.x as int;
    let y = a.snake[0].coords.y as int;
    &&& w.state.snake == a.snake
    &&& forall|j: int|
        #![trigger a.things[j]]
        0 <= j < n && j < a.things.len() && thing_at(a.things[j], x, y) ==> w.outcome == verdict(
            a.things[j].what,
        )
    &&& (forall|j: int|
        #![trigger a.things[j]]
        0 <= j < n && j < a.things.len() ==> !thing_at(a.things[j], x, y)) ==> w.outcome == Ok::<
        StepOk,
        StepError,
    >(StepOk::Nothing)
    &&& things_ok(things)
    &&& apart_from(a.snake, 1, things)
    &&& a.score <= w.state.score <= a.score + MYSTERY_SCORE
    &&& a.grow <= w.state.grow <= a.grow + MYSTERY_GROW_SNAKE
    &&& w.state.eaten_food <= a.eaten_food + 1
    &&& match w.outcome {
        Ok(ok) => {
            &&& 0 <= w.at
            &&& w.at + left <= things.len()
            &&& forall|j: int|
                #![trigger a.things[j]]
                n <= j < a.things.len() ==> things[w.at + (j - n)] == a.things[j]
            &&& forall|k: int|
                #![trigger things[k]]
                0 <= k < w.at || w.at + left <= k < things.len() ==> !cell_at(
                    a.snake[0],
                    things[k].x as int,
                    things[k].y as int,
                )
            &&& apart(a.snake, things) || (ok == StepOk::Nothing && w.state.score == a.score
                && w.state.grow == a.grow && w.state.eaten_food == a.eaten_food)
        },
        Err(e) => {
            &&& e == StepError::Obstacle
            &&& 0 <= w.at < things.len()
            &&& things[w.at].what == Thing::Obstacle
            &&& cell_at(a.snake[0], things[w.at].x as int, things[w.at].y as int)
            &&& w.state.score == a.score
            &&& w.state.grow == a.grow
            &&& w.state.eaten_food == a.eaten_food
        },
    }
}

/// Settling one more thing keeps `sweep_ok`.
proof fn lemma_settle(a: WorldState, m: nat, w: Sweep, c: Chance)
    requires
        a.wf_moved(),
        m < a.things.len(),
        sweep_ok(a, m, w),
        w.outcome is Ok,
        w.admits(c),
    ensures
        sweep_ok(a, m + 1, w.settle(c)),
{
    let x = a.snake[0].coords.x as int;
    let y = a.snake[0].coords.y as int;
    if forall|j: int|
        #![trigger a.things[j]]
        0 <= j < m + 1 && j < a.things.len() ==> !thing_at(a.things[j], x, y) {
        assert(!thing_at(a.things[m as int], x, y));
    }
}

/// Part-way through the things of a tick, `sweep_ok` holds.
pub proof fn lemma_sweep(a: WorldState, n: nat, chances: Seq<Chance>)
    requires
        a.wf_moved(),
        n <= a.things.len(),
        sweep_fits(a, n, chances),
    ensures
        sweep_ok(a, n, sweep(a, n, chances)),
    decreases n,
{
    if n > 0 {
        lemma_sweep(a, (n - 1) as nat, chances);
        let w = sweep(a, (n - 1) as nat, chances);
        if w.outcome is Ok {
            lemma_settle(a, (n - 1) as nat, w, chances[n - 1]);
        }
    }
}

/// A sweep looks at no more of `chances` than one entry for each thing it
/// settles.
pub proof fn lemma_sweep_prefix(a: WorldState, n: nat, c1: Seq<Chance>, c2: Seq<Chance>)
    requires
        forall|k: int| 0 <= k < n ==> c1[k] == c2[k],
    ensures
        sweep(a, n, c1) == sweep(a, n, c2),
        sweep_fits(a, n, c1) == sweep_fits(a, n, c2),
    decreases n,
{
    if n > 0 {
        lemma_sweep_prefix(a, (n - 1) as nat, c1, c2);
    }
}

/// Once an obstacle has ended the round, the sweep settles nothing more.
pub proof fn lemma_sweep_stops(a: WorldState, m: nat, n: nat, chances: Seq<Chance>)
    requires
        m <= n,
        sweep(a, m, chances).outcome is Err,
    ensures
        sweep(a, n, chances) == sweep(a, m, chances),
        sweep_fits(a, m, chances) ==> sweep_fits(a, n, chances),
    decreases n,
{
    if n > m {
        lemma_sweep_stops(a, m, (n - 1) as nat, chances);
    }
}

/// Once an obstacle has ended the round, chance decides nothing more.
pub proof fn lemma_chances_stop(a: WorldState, m: nat, n: nat, rolls: Seq<Draw>, at: int)
    requires
        m <= n,
        chances_by(a, m, rolls, at) matches Some((chances, next)) && sweep(
            a,
            m,
            chances,
        ).outcome is Err,
    ensures
        chances_by(a, n, rolls, at) == chances_by(a, m, rolls, at),
    decreases n,
{
    if n > m {
        lemma_chances_stop(a, m, (n - 1) as nat, rolls, at);
        let chances = chances_by(a, m, rolls, at).unwrap().0;
        lemma_sweep_stops(a, m, (n - 1) as nat, chances);
    }
}

/// The things of a sweep that has settled `n` things and goes on are, in
/// this order: those of the `n` that stay where they are; those still to
/// settle; and what settling the `n` has left behind.
pub open spec fn sweep_shape(a: WorldState, n: nat, chances: Seq<Chance>, w: Sweep) -> bool {
    w.outcome is Ok ==> {
        &&& w.state.snake == a.snake
        &&& w.at == kept(a.things, a.snake[0], n).len()
        &&& w.state.things == kept(a.things, a.snake[0], n) + a.things.subrange(
            n as int,
            a.things.len() as int,
        ) + appended(a.things, a.snake[0], chances, n)
    }
}

/// Taking the first of the middle part out of a sequence of three parts.
proof fn lemma_remove_middle<A>(front: Seq<A>, rest: Seq<A>, back: Seq<A>)
    requires
        rest.len() > 0,
    ensures
        (front + rest + back).remove(front.len() as int) == front + rest.drop_first() + back,
        (front + rest + back)[front.len() as int] == rest[0],
        front + rest + back == front + seq![rest[0]] + rest.drop_first() + back,
{
}

/// Adding to the end of a sequence of three parts.
proof fn lemma_push_back<A>(front: Seq<A>, rest: Seq<A>, back: Seq<A>, a: A)
    ensures
        (front + rest + back).push(a) == front + rest + (back + seq![a]),
        front + rest + (back + Seq::<A>::empty()) == front + rest + back,
        front + Seq::<A>::empty() == front,
{
}

/// Settling one more thing keeps `sweep_shape`.
proof fn lemma_settle_shape(a: WorldState, m: nat, chances: Seq<Chance>, w: Sweep)
    requires
        m < a.things.len(),
        sweep_shape(a, m, chances, w),
        w.outcome is Ok,
    ensures
        sweep_shape(a, m + 1, chances, w.settle(chances[m as int])),
{
    let head = a.snake[0];
    let all = a.things;
    let c = chances[m as int];
    let v = w.settle(c);
    let front = kept(all, head, m);
    let rest = all.subrange(m as int, all.len() as int);
    let back = appended(all, head, chances, m);
    let later = all.subrange(m as int + 1, all.len() as int);
    let t = all[m as int];
    assert(rest.drop_first() =~= later);
    lemma_remove_middle(front, rest, back);
    let left = left_behind(t, head, c);
    if v.outcome is Ok && !stays(t, head) && left.len() > 0 {
        let x = left[0];
        lemma_push_back(front, later, back, x);
        if !w.is_hit() && w.is_expired() {
            // the food appears before the thing that ran out of time leaves
            lemma_push_back(front, rest, back, x);
            lemma_remove_middle(front, rest, back + seq![x]);
        }
    }
}

/// Part-way through the things of a tick, `sweep_shape` holds.
pub proof fn lemma_sweep_shape(a: WorldState, n: nat, chances: Seq<Chance>)
    requires
        n <= a.things.len(),
    ensures
        sweep_shape(a, n, chances, sweep(a, n, chances)),
    decreases n,
{
    if n == 0 {
        assert(a.things =~= Seq::<ThingInField>::empty() + a.things.subrange(
            0,
            a.things.len() as int,
        ) + Seq::<ThingInField>::empty());
    } else {
        let m = (n - 1) as nat;
        lemma_sweep_shape(a, m, chances);
        let w = sweep(a, m, chances);
        if w.outcome is Ok {
            lemma_settle_shape(a, m, chances, w);
        }
    }
}

/// Where the thing with number `m` is an obstacle under the head, the sweep
/// stops at it: what it has made of the things before it stays, and nothing
/// else changes.
pub proof fn lemma_sweep_stopped(a: WorldState, chances: Seq<Chance>, m: nat)
    requires
        a.wf_moved(),
        sweep_fits(a, a.things.len(), chances),
        m < a.things.len(),
        a.things[m as int].what == Thing::Obstacle,
        cell_at(a.snake[0], a.things[m as int].x as int, a.things[m as int].y as int),
    ensures
        sweep(a, m, chances).outcome is Ok,
        sweep(a, a.things.len(), chances).outcome == Err::<StepOk, StepError>(StepError::Obstacle),
        sweep(a, a.things.len(), chances).state == sweep(a, m, chances).state,
        sweep(a, m, chances).state.things == kept(a.things, a.snake[0], m) + a.things.subrange(
            m as int,
            a.things.len() as int,
        ) + appended(a.things, a.snake[0], chances, m),
{
    lemma_fits_prefix(a, m, a.things.len(), chances);
    lemma_sweep(a, m, chances);
    lemma_sweep_shape(a, m, chances);
    let w = sweep(a, m, chances);
    assert(w.outcome is Ok) by {
        assert forall|j: int| 0 <= j < m implies !thing_at(
            #[trigger] a.things[j],
            a.snake[0].coords.x as int,
            a.snake[0].coords.y as int,
        ) by {
            assert(!thing_at(a.things[j], a.things[m as int].x as int, a.things[m as int].y as int));
        }
    }
    assert(w.thing() == a.things[m as int]);
    assert(sweep(a, m + 1, chances) == w.settle(chances[m as int]));
    lemma_sweep_stops(a, m + 1, a.things.len(), chances);
}

/// What fits the settling of `n` things fits the settling of fewer.
pub proof fn lemma_fits_prefix(a: WorldState, m: nat, n: nat, chances: Seq<Chance>)
    requires
        m <= n,
        sweep_fits(a, n, chances),
    ensures
        sweep_fits(a, m, chances),
    decreases n,
{
    if m < n {
        lemma_fits_prefix(a, m, (n - 1) as nat, chances);
    }
}

/// The counters of a sweep that has settled `n` things and goes on: they
/// are as they were, unless the head has come upon one of the `n`, and then
/// they are as that thing left them.
pub open spec fn sweep_counts(a: WorldState, n: nat, chances: Seq<Chance>, w: Sweep) -> bool {
    let x = a.snake[0].coords.x as int;
    let y = a.snake[0].coords.y as int;
    w.outcome is Ok ==> {
        &&& forall|j: int|
            #![trigger a.things[j]]
            0 <= j < n && thing_at(a.things[j], x, y) ==> w.state.counts() == a.ate(
                a.things[j].what,
                chances[j].bonus,
            ).counts()
        &&& (forall|j: int| #![trigger a.things[j]] 0 <= j < n ==> !thing_at(a.things[j], x, y))
            ==> w.state.counts() == a.counts()
    }
}

/// Part-way through the things of a tick, `sweep_counts` holds.
pub proof fn lemma_sweep_counts(a: WorldState, n: nat, chances: Seq<Chance>)
    requires
        a.wf_moved(),
        n <= a.things.len(),
    ensures
        sweep_counts(a, n, chances, sweep(a, n, chances)),
    decreases n,
{
    if n > 0 {
        let m = (n - 1) as nat;
        lemma_sweep_counts(a, m, chances);
        lemma_sweep_shape(a, m, chances);
    }
}

/// What a tick does to a round in play, whatever chance decides: it returns
/// `outcome`; the snake moves as `advance` says, and where it survives it
/// is as long as before, or one segment longer if it was growing; nothing
/// changes if the snake would leave the field; the score does not fall; and
/// the round is still in play afterwards, unless the snake ran into itself
/// or into an obstacle. Where it ran into an obstacle, the round is as in
/// the middle of a tick, with the obstacle under the head.
pub proof fn lemma_tick(s: WorldState, luck: Luck)
    requires
        s.wf(),
        luck_fits(s, luck),
    ensures
        tick(s, luck).1 == outcome(s),
        tick(s, luck).0.snake == s.advance().0.snake,
        tick(s, luck).0.score >= s.score,
        tick(s, luck).1 matches Err(StepError::OutOfField) ==> tick(s, luck).0 == s,
        tick(s, luck).1 is Ok ==> tick(s, luck).0.snake.len() == s.snake.len() + if s.grow > 0 {
            1int
        } else {
            0int
        },
        tick(s, luck).1 is Ok || tick(s, luck).1 == Err::<StepOk, StepError>(
            StepError::OutOfField,
        ) ==> tick(s, luck).0.wf(),
        tick(s, luck).1 == Err::<StepOk, StepError>(StepError::Obstacle) ==> tick(s, luck).0.wf_moved()
            && tick(s, luck).0.counts() == s.advance().0.counts(),
{
    lemma_advance(s);
    let (moved, stop) = s.advance();
    if stop is None {
        let n = moved.things.len();
        lemma_sweep(moved, n, luck.chances);
    }
}

} // verus!
