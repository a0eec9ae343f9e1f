//! The game as mathematics: the state of a round and the rules of one tick,
//! as functions of the state and of what chance decided.

use crate::world::{
    Coords, Direction, SnakeCell, StepError, StepOk, Thing, ThingInField, FIELD_SIZE, FOOD_LIFETIME,
    LEAN_AFTER_FOOD, LEAN_LIFETIME, MYSTERY_GROW_SNAKE, MYSTERY_LIFETIME, MYSTERY_SCORE,
    OBSTACLE_LIFETIME, SNAKE_INIT_X, SNAKE_INIT_Y, FAT_GROW_SNAKE, FOOD_GROW_SNAKE,
};
use vstd::prelude::*;

verus! {

/// The cell `(x, y)` lies on the field.
pub open spec fn in_field(x: int, y: int) -> bool {
    1 <= x <= FIELD_SIZE && 1 <= y <= FIELD_SIZE
}

/// The cell `(x, y)` lies on the outermost ring of the field.
pub open spec fn on_edge(x: int, y: int) -> bool {
    x == 1 || y == 1 || x == FIELD_SIZE || y == FIELD_SIZE
}

/// The cell `(x, y)` lies in the square of side five around `(hx, hy)`.
pub open spec fn near(hx: int, hy: int, x: int, y: int) -> bool {
    hx - 3 < x < hx + 3 && hy - 3 < y < hy + 3
}

/// The segment lies on the cell `(x, y)`.
pub open spec fn cell_at(c: SnakeCell, x: int, y: int) -> bool {
    c.coords.x == x && c.coords.y == y
}

/// The thing lies on the cell `(x, y)`.
pub open spec fn thing_at(t: ThingInField, x: int, y: int) -> bool {
    t.x == x && t.y == y
}

/// Some segment of the snake lies on the cell `(x, y)`.
pub open spec fn snake_covers(snake: Seq<SnakeCell>, x: int, y: int) -> bool {
    exists|i: int| 0 <= i < snake.len() && cell_at(#[trigger] snake[i], x, y)
}

/// Some thing lies on the cell `(x, y)`.
pub open spec fn things_cover(things: Seq<ThingInField>, x: int, y: int) -> bool {
    exists|i: int| 0 <= i < things.len() && thing_at(#[trigger] things[i], x, y)
}

/// Every segment lies on the field, and no two on the same cell.
pub open spec fn snake_ok(snake: Seq<SnakeCell>) -> bool {
    &&& forall|i: int|
        #![trigger snake[i]]
        0 <= i < snake.len() ==> in_field(snake[i].coords.x as int, snake[i].coords.y as int)
    &&& forall|i: int, j: int|
        #![trigger snake[i], snake[j]]
        0 <= i < j < snake.len() ==> !cell_at(snake[i], snake[j].coords.x as int, snake[j].coords.y as int)
}

/// The two headings point away from each other.
pub open spec fn opposite(a: Direction, b: Direction) -> bool {
    a.spec_left().spec_left() == b
}

/// Each segment lies one cell ahead of the segment behind it, in the
/// direction in which the snake entered it; and behind the head no segment
/// heads back to where the snake came from.
pub open spec fn snake_linked(snake: Seq<SnakeCell>) -> bool {
    &&& forall|i: int, j: int|
        #![trigger snake[i], snake[j]]
        0 <= i && j == i + 1 && j < snake.len() ==> snake[j].coords.spec_ahead(snake[i].prev_dir)
            == Some(snake[i].coords)
    &&& forall|i: int|
        #![trigger snake[i]]
        1 <= i < snake.len() ==> !opposite(snake[i].dir, snake[i].prev_dir)
}

/// Every thing lies on the field and has a picture, and no two lie on the
/// same cell.
pub open spec fn things_ok(things: Seq<ThingInField>) -> bool {
    &&& forall|i: int|
        #![trigger things[i]]
        0 <= i < things.len() ==> in_field(things[i].x as int, things[i].y as int)
            && things[i].picture_index < things[i].what.spec_pictures()
    &&& forall|i: int, j: int|
        #![trigger things[i], things[j]]
        0 <= i < j < things.len() ==> !thing_at(things[i], things[j].x as int, things[j].y as int)
}

/// No thing lies on a segment of the snake, the first `from` segments aside.
pub open spec fn apart_from(snake: Seq<SnakeCell>, from: int, things: Seq<ThingInField>) -> bool {
    forall|i: int, j: int|
        #![trigger snake[i], things[j]]
        from <= i < snake.len() && 0 <= j < things.len() ==> !cell_at(
            snake[i],
            things[j].x as int,
            things[j].y as int,
        )
}

/// No thing lies on a segment of the snake.
pub open spec fn apart(snake: Seq<SnakeCell>, things: Seq<ThingInField>) -> bool {
    apart_from(snake, 0, things)
}

/// The state of a round.
#[verifier::ext_equal]
pub struct WorldState {
    /// The snake, head first.
    pub snake: Seq<SnakeCell>,
    /// The things on the field, in the order in which a tick settles them.
    pub things: Seq<ThingInField>,
    pub score: nat,
    /// Ticks for which the tail will stay where it is.
    pub grow: nat,
    /// Food eaten since the last lean item.
    pub eaten_food: nat,
}

/// What chance decided while one thing was settled.
pub struct Chance {
    /// A mystery item pays out in points rather than in growth.
    pub bonus: bool,
    /// The food that appeared, if food was due and a cell was free.
    pub food: Option<ThingInField>,
}

/// What chance decided in one tick.
pub struct Luck {
    /// One entry for each thing on the field, in order.
    pub chances: Seq<Chance>,
    /// The obstacle that appeared, if any.
    pub obstacle: Option<ThingInField>,
    /// The mystery item that appeared, if any.
    pub mystery: Option<ThingInField>,
}

/// A tick part-way through the things on the field.
#[verifier::ext_equal]
pub struct Sweep {
    pub state: WorldState,
    /// Where in `state.things` the next thing to settle lies.
    pub at: int,
    pub outcome: Result<StepOk, StepError>,
}

impl WorldState {
    /// The state in which a round begins, before the first food appears.
    pub open spec fn start() -> WorldState {
        WorldState {
            snake: seq![
                SnakeCell {
                    dir: Direction::Up,
                    prev_dir: Direction::Up,
                    coords: Coords { x: SNAKE_INIT_X, y: SNAKE_INIT_Y },
                    even: false,
                },
                SnakeCell {
                    dir: Direction::Up,
                    prev_dir: Direction::Up,
                    coords: Coords { x: SNAKE_INIT_X, y: (SNAKE_INIT_Y + 1) as u32 },
                    even: true,
                },
                SnakeCell {
                    dir: Direction::Up,
                    prev_dir: Direction::Up,
                    coords: Coords { x: SNAKE_INIT_X, y: (SNAKE_INIT_Y + 2) as u32 },
                    even: false,
                },
            ],
            things: Seq::empty(),
            score: 0,
            grow: 0,
            eaten_food: 0,
        }
    }

    /// What holds of every round in play: the snake has at least three
    /// segments, which lie in a row; snake and things lie on the field; and
    /// no cell holds two of them.
    pub open spec fn wf(self) -> bool {
        &&& self.snake.len() >= 3
        &&& snake_ok(self.snake)
        &&& snake_linked(self.snake)
        &&& things_ok(self.things)
        &&& apart(self.snake, self.things)
    }

    /// What holds in the middle of a tick, when the head has moved and the
    /// things have not been looked at: as `wf`, but a thing may lie under the
    /// head.
    pub open spec fn wf_moved(self) -> bool {
        &&& self.snake.len() >= 3
        &&& snake_ok(self.snake)
        &&& snake_linked(self.snake)
        &&& things_ok(self.things)
        &&& apart_from(self.snake, 1, self.things)
    }

    /// The counters are far enough from the largest number that a tick
    /// cannot overflow them.
    pub open spec fn has_headroom(self) -> bool {
        &&& self.score + MYSTERY_SCORE <= u32::MAX
        &&& self.grow + MYSTERY_GROW_SNAKE <= u32::MAX
        &&& self.eaten_food + 1 <= u32::MAX
    }

    /// The state with the head turned to `dir`.
    pub open spec fn headed(self, dir: Direction) -> WorldState {
        WorldState { snake: self.snake.update(0, SnakeCell { dir, ..self.snake[0] }), ..self }
    }

    /// The state after a quarter turn counter-clockwise.
    pub open spec fn turned_left(self) -> WorldState {
        self.headed(self.snake[0].dir.spec_left())
    }

    /// The state after a quarter turn clockwise.
    pub open spec fn turned_right(self) -> WorldState {
        self.headed(self.snake[0].dir.spec_right())
    }

    /// The cell `(x, y)` is free for a new thing: on the field, not under the
    /// snake, not close to the head, and not taken by another thing.
    pub open spec fn is_empty_spot(self, x: int, y: int) -> bool {
        &&& in_field(x, y)
        &&& !snake_covers(self.snake, x, y)
        &&& !near(self.snake[0].coords.x as int, self.snake[0].coords.y as int, x, y)
        &&& !things_cover(self.things, x, y)
    }

    /// How many of the first `n` cells of the field are free, the cells
    /// counted row by row.
    pub open spec fn free_among(self, n: nat) -> nat
        decreases n,
    {
        if n == 0 {
            0
        } else {
            self.free_among((n - 1) as nat) + if self.is_empty_spot(
                (n - 1) % (FIELD_SIZE as int) + 1,
                (n - 1) / (FIELD_SIZE as int) + 1,
            ) {
                1nat
            } else {
                0nat
            }
        }
    }

    /// No cell is free for a new thing.
    pub open spec fn is_full(self) -> bool {
        forall|x: int, y: int| !#[trigger] self.is_empty_spot(x, y)
    }

    /// The state with `t` added to the things.
    pub open spec fn with_thing(self, t: ThingInField) -> WorldState {
        WorldState { things: self.things.push(t), ..self }
    }

    /// The state without the thing at index `k`.
    pub open spec fn without_thing(self, k: int) -> WorldState {
        WorldState { things: self.things.remove(k), ..self }
    }

    /// The state after an attempt to add a thing.
    pub open spec fn spawn(self, t: Option<ThingInField>) -> WorldState {
        match t {
            Some(t) => self.with_thing(t),
            None => self,
        }
    }

    /// `t` is food as it may appear in this state: on a free cell; lean only
    /// after enough food in a row, fat, or plain; lean and plain food with a
    /// lifetime, unless plain food lies on the rim.
    pub open spec fn is_food_drop(self, t: ThingInField) -> bool {
        &&& self.is_empty_spot(t.x as int, t.y as int)
        &&& t.picture_index < t.what.spec_pictures()
        &&& match t.what {
            Thing::Lean => self.eaten_food >= LEAN_AFTER_FOOD && t.lifetime == Some(LEAN_LIFETIME),
            Thing::Fat => t.lifetime == None::<u32>,
            Thing::Food => t.lifetime == if on_edge(t.x as int, t.y as int) {
                None
            } else {
                Some(FOOD_LIFETIME)
            },
            _ => false,
        }
    }

    /// `t` is an obstacle as it may appear in this state.
    pub open spec fn is_obstacle_drop(self, t: ThingInField) -> bool {
        &&& self.is_empty_spot(t.x as int, t.y as int)
        &&& t.picture_index < t.what.spec_pictures()
        &&& t.what == Thing::Obstacle
        &&& t.lifetime == Some(OBSTACLE_LIFETIME)
    }

    /// `t` is a mystery item as it may appear in this state.
    pub open spec fn is_mystery_drop(self, t: ThingInField) -> bool {
        &&& self.is_empty_spot(t.x as int, t.y as int)
        &&& t.picture_index < t.what.spec_pictures()
        &&& t.what == Thing::Mystery
        &&& t.lifetime == Some(MYSTERY_LIFETIME)
    }

    /// The state after the tail has followed, or has stayed because the snake
    /// is growing.
    pub open spec fn shed(self) -> WorldState {
        if self.grow == 0 {
            WorldState { snake: self.snake.drop_last(), ..self }
        } else {
            WorldState { grow: (self.grow - 1) as nat, ..self }
        }
    }

    /// The state with a new head on the cell `c`: it keeps the heading of the
    /// head before it, and alternates its `even`.
    pub open spec fn with_head(self, c: Coords) -> WorldState {
        let neck = self.snake[0];
        let head = SnakeCell { dir: neck.dir, prev_dir: neck.dir, coords: c, even: !neck.even };
        WorldState { snake: seq![head] + self.snake, ..self }
    }

    /// The first part of a tick: the snake moves one cell, unless it would
    /// leave the field or run into itself.
    pub open spec fn advance(self) -> (WorldState, Option<StepError>) {
        match self.snake[0].coords.spec_ahead(self.snake[0].dir) {
            None => (self, Some(StepError::OutOfField)),
            Some(c) => {
                let s = self.shed();
                if snake_covers(s.snake, c.x as int, c.y as int) {
                    (s, Some(StepError::SelfHit))
                } else {
                    (s.with_head(c), None)
                }
            },
        }
    }

    /// The state after food that makes the snake grow by `growth` was eaten.
    pub open spec fn fed(self, growth: nat) -> WorldState {
        WorldState {
            eaten_food: self.eaten_food + 1,
            score: self.score + 1,
            grow: self.grow + growth,
            ..self
        }
    }

    /// The state after a lean item was eaten.
    pub open spec fn slimmed(self) -> WorldState {
        WorldState { eaten_food: 0, score: self.score + 1, ..self }
    }

    /// The score, the ticks of growth to come, and the food eaten since the
    /// last lean item.
    pub open spec fn counts(self) -> (nat, nat, nat) {
        (self.score, self.grow, self.eaten_food)
    }

    /// The state after the head has come upon a thing of the kind `what`,
    /// as far as the counters go; `bonus` says how a mystery item pays out.
    pub open spec fn ate(self, what: Thing, bonus: bool) -> WorldState {
        match what {
            Thing::Food => self.fed(FOOD_GROW_SNAKE as nat),
            Thing::Fat => self.fed(FAT_GROW_SNAKE as nat),
            Thing::Lean => self.slimmed(),
            Thing::Mystery => self.surprised(bonus),
            Thing::Obstacle => self,
        }
    }

    /// The state after a mystery item was eaten.
    pub open spec fn surprised(self, bonus: bool) -> WorldState {
        if bonus {
            WorldState {
                score: self.score + MYSTERY_SCORE as nat,
                eaten_food: self.eaten_food + 1,
                ..self
            }
        } else {
            WorldState { grow: self.grow + MYSTERY_GROW_SNAKE as nat, ..self }
        }
    }
}

impl Sweep {
    /// The thing that is settled next.
    pub open spec fn thing(self) -> ThingInField {
        self.state.things[self.at]
    }

    /// The thing that is settled next has run out of time.
    pub open spec fn is_expired(self) -> bool {
        self.thing().lifetime == Some(0u32)
    }

    /// The thing that is settled next lies under the head.
    pub open spec fn is_hit(self) -> bool {
        cell_at(self.state.snake[0], self.thing().x as int, self.thing().y as int)
    }

    /// The state in which new food is looked for while the next thing is
    /// settled, if settling it calls for new food: food of any kind that is
    /// eaten, already taken from the field and counted; and plain or lean
    /// food that ran out of time, still in its place.
    pub open spec fn food_due(self) -> Option<WorldState> {
        let t = self.thing();
        let rest = self.state.without_thing(self.at);
        if self.is_hit() {
            match t.what {
                Thing::Food => Some(rest.fed(FOOD_GROW_SNAKE as nat)),
                Thing::Fat => Some(rest.fed(FAT_GROW_SNAKE as nat)),
                Thing::Lean => Some(rest.slimmed()),
                _ => None,
            }
        } else if self.is_expired() {
            if t.what == Thing::Food || t.what == Thing::Lean {
                Some(self.state)
            } else {
                None
            }
        } else {
            None
        }
    }

    /// What `c` holds could have come about while the next thing was
    /// settled: where food was due, it appeared as food may, or no cell was
    /// free for it.
    pub open spec fn admits(self, c: Chance) -> bool {
        match (self.food_due(), c.food) {
            (Some(s), Some(f)) => s.is_food_drop(f),
            (Some(s), None) => s.is_full(),
            _ => true,
        }
    }

    /// The sweep after the next thing was settled, with chance deciding `c`.
    ///
    /// An obstacle under the head ends the round, and nothing changes any
    /// more. Any other thing under the head is taken from the field: food is
    /// eaten and new food is due, a mystery item pays out one way or the
    /// other. Of the things not under the head, one that ran out of time
    /// leaves the field, and new food is due for plain and for lean food;
    /// one with time left moves to the end of the things, one tick older;
    /// and one without a lifetime stays where it is.
    pub open spec fn settle(self, c: Chance) -> Sweep {
        let s = self.state;
        let t = self.thing();
        let rest = s.without_thing(self.at);
        if self.is_hit() {
            match t.what {
                Thing::Obstacle => Sweep { outcome: Err(StepError::Obstacle), ..self },
                Thing::Mystery => Sweep {
                    state: rest.surprised(c.bonus),
                    outcome: Ok(StepOk::AteMystery),
                    ..self
                },
                _ => Sweep {
                    state: self.food_due().unwrap().spawn(c.food),
                    outcome: Ok(StepOk::AteFood),
                    ..self
                },
            }
        } else if self.is_expired() {
            match self.food_due() {
                Some(due) => Sweep { state: due.spawn(c.food).without_thing(self.at), ..self },
                None => Sweep { state: rest, ..self },
            }
        } else {
            match t.lifetime {
                Some(n) => Sweep {
                    state: rest.with_thing(ThingInField { lifetime: Some((n - 1) as u32), ..t }),
                    ..self
                },
                None => Sweep { at: self.at + 1, ..self },
            }
        }
    }
}

/// The second part of a tick, as far as the first `n` things: they are
/// settled in order, until an obstacle under the head ends the round.
pub open spec fn sweep(s: WorldState, n: nat, chances: Seq<Chance>) -> Sweep
    decreases n,
{
    if n == 0 {
        Sweep { state: s, at: 0, outcome: Ok(StepOk::Nothing) }
    } else {
        let w = sweep(s, (n - 1) as nat, chances);
        if w.outcome is Err {
            w
        } else {
            w.settle(chances[n - 1])
        }
    }
}

/// What `chances` holds could have come about while the first `n` things
/// were settled.
pub open spec fn sweep_fits(s: WorldState, n: nat, chances: Seq<Chance>) -> bool
    decreases n,
{
    n > 0 ==> {
        let w = sweep(s, (n - 1) as nat, chances);
        &&& sweep_fits(s, (n - 1) as nat, chances)
        &&& w.outcome is Ok ==> w.admits(chances[n - 1])
    }
}

/// The thing stays where it is when it is settled: the head has not come
/// upon it, and it has no lifetime.
pub open spec fn stays(t: ThingInField, head: SnakeCell) -> bool {
    !cell_at(head, t.x as int, t.y as int) && t.lifetime is None
}

/// The thing by itself, if there is one; else nothing.
pub open spec fn as_seq(t: Option<ThingInField>) -> Seq<ThingInField> {
    match t {
        Some(t) => seq![t],
        None => Seq::empty(),
    }
}

/// What goes to the end of the things when `t` is settled: the food that
/// chance brought, where the head has come upon food or where plain or lean
/// food ran out of time; `t` itself, one tick older, where it has time left
/// and the head has not come upon it; else nothing.
pub open spec fn left_behind(t: ThingInField, head: SnakeCell, c: Chance) -> Seq<ThingInField> {
    let food = as_seq(c.food);
    if cell_at(head, t.x as int, t.y as int) {
        match t.what {
            Thing::Obstacle => Seq::empty(),
            Thing::Mystery => Seq::empty(),
            _ => food,
        }
    } else {
        match t.lifetime {
            Some(n) => if n == 0 {
                if t.what == Thing::Food || t.what == Thing::Lean {
                    food
                } else {
                    Seq::empty()
                }
            } else {
                seq![ThingInField { lifetime: Some((n - 1) as u32), ..t }]
            },
            None => Seq::empty(),
        }
    }
}

/// Those of the first `n` things that stay where they are, in their order.
pub open spec fn kept(things: Seq<ThingInField>, head: SnakeCell, n: nat) -> Seq<ThingInField>
    decreases n,
{
    if n == 0 {
        Seq::empty()
    } else {
        kept(things, head, (n - 1) as nat) + if stays(things[n - 1], head) {
            seq![things[n - 1]]
        } else {
            Seq::empty()
        }
    }
}

/// What has gone to the end of the things when the first `n` of them were
/// settled, in order.
pub open spec fn appended(
    things: Seq<ThingInField>,
    head: SnakeCell,
    chances: Seq<Chance>,
    n: nat,
) -> Seq<ThingInField>
    decreases n,
{
    if n == 0 {
        Seq::empty()
    } else {
        appended(things, head, chances, (n - 1) as nat) + left_behind(
            things[n - 1],
            head,
            chances[n - 1],
        )
    }
}

/// What comes of the head moving onto a thing of this kind.
pub open spec fn verdict(what: Thing) -> Result<StepOk, StepError> {
    match what {
        Thing::Obstacle => Err(StepError::Obstacle),
        Thing::Mystery => Ok(StepOk::AteMystery),
        _ => Ok(StepOk::AteFood),
    }
}

/// What a tick that begins in `s` returns: the snake leaves the field, or
/// runs into itself, or else meets what lies on the cell ahead of it.
pub open spec fn outcome(s: WorldState) -> Result<StepOk, StepError> {
    let (moved, stop) = s.advance();
    let x = moved.snake[0].coords.x as int;
    let y = moved.snake[0].coords.y as int;
    match stop {
        Some(e) => Err(e),
        None => if exists|j: int| 0 <= j < s.things.len() && thing_at(#[trigger] s.things[j], x, y) {
            verdict(
                s.things[choose|j: int|
                    0 <= j < s.things.len() && thing_at(#[trigger] s.things[j], x, y)].what,
            )
        } else {
            Ok(StepOk::Nothing)
        },
    }
}

/// One tick: the snake moves; then each thing that was on the field is
/// settled; then, if the snake is still alive, an obstacle may appear, and
/// after it a mystery item.
pub open spec fn tick(s: WorldState, luck: Luck) -> (WorldState, Result<StepOk, StepError>) {
    let (moved, stop) = s.advance();
    match stop {
        Some(e) => (moved, Err(e)),
        None => {
            let w = sweep(moved, moved.things.len(), luck.chances);
            match w.outcome {
                Err(e) => (w.state, Err(e)),
                Ok(ok) => (w.state.spawn(luck.obstacle).spawn(luck.mystery), Ok(ok)),
            }
        },
    }
}

/// What `luck` holds could have come about in a tick that began in `s`.
pub open spec fn luck_fits(s: WorldState, luck: Luck) -> bool {
    let (moved, stop) = s.advance();
    let w = sweep(moved, moved.things.len(), luck.chances);
    stop is None ==> {
        &&& sweep_fits(moved, moved.things.len(), luck.chances)
        &&& w.outcome is Ok ==> {
            &&& luck.obstacle matches Some(o) ==> w.state.is_obstacle_drop(o)
            &&& luck.mystery matches Some(m) ==> w.state.spawn(luck.obstacle).is_mystery_drop(m)
        }
    }
}

} // verus!
