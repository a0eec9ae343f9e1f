//! The playing field and what lives on it.

use crate::lemmas::{
    lemma_chances_stop, free_cell_found, free_cells_at_most, free_cells_grow, lemma_advance, lemma_sweep, lemma_sweep_prefix,
    lemma_sweep_stops, lemma_tick, no_free_cells, start_has_room,
};
use crate::laws::drop_keeps_apart;
use crate::model::{
    apart, cell_at, in_field, luck_fits, on_edge, opposite, outcome, snake_covers, snake_linked,
    snake_ok, sweep, sweep_fits, thing_at, things_cover, things_ok, tick, verdict, Chance, Luck,
    Sweep, WorldState,
};
use crate::random::{Draw, RandomSource, ThreadRandom};
use crate::rolls::{
    chance_by, chances_by, drawn_by, food_by, free_cell, goes_on, luck_by, search, start_by, tick_by,
};
use vstd::prelude::*;

verus! {

/// Side of the square field; cells are numbered `1..=FIELD_SIZE` on both axes.
pub const FIELD_SIZE: u32 = 30;

/// Ticks a plain food item stays, unless it lies on the rim of the field.
pub const FOOD_LIFETIME: u32 = 60;

/// Ticks an obstacle stays.
pub const OBSTACLE_LIFETIME: u32 = 60;

/// Ticks a mystery item stays.
pub const MYSTERY_LIFETIME: u32 = 120;

/// Ticks a lean item stays.
pub const LEAN_LIFETIME: u32 = 60;

/// Points for the lucky outcome of a mystery item.
pub const MYSTERY_SCORE: u32 = 5;

/// Ticks of growth for the unlucky outcome of a mystery item.
pub const MYSTERY_GROW_SNAKE: u32 = 15;

/// Ticks of growth for a plain food item.
pub const FOOD_GROW_SNAKE: u32 = 3;

/// Ticks of growth for a fat item.
pub const FAT_GROW_SNAKE: u32 = 6;

/// Food items in a row after which lean items may appear.
pub const LEAN_AFTER_FOOD: u32 = 5;

/// The unit of the chances below: a chance of `P_SCALE` is certainty.
pub const P_SCALE: u32 = 10_000;

/// Chance per tick that an obstacle appears.
pub const OBSTACLE_P: u32 = 150;

/// Chance per tick that a mystery item appears.
pub const MYSTERY_P: u32 = 25;

/// Chance that new food is lean, once enough food was eaten in a row.
pub const LEAN_P: u32 = 5_000;

/// Chance that new food, when not lean, is fat.
pub const FAT_P: u32 = 1_000;

/// Chance that a mystery item pays out in points.
pub const MYSTERY_SCORE_P: u32 = 5_000;

/// How many cells are drawn at most in search of a free one, before the
/// field is gone through cell by cell.
pub const SPAWN_TRIES: u32 = 1_000;

/// How many cells the field has.
pub const CELLS: u32 = FIELD_SIZE * FIELD_SIZE;

/// Where the head of a new snake lies.
pub const SNAKE_INIT_X: u32 = FIELD_SIZE / 2;

/// Where the head of a new snake lies.
pub const SNAKE_INIT_Y: u32 = FIELD_SIZE / 2;

/// Why a tick ended the round.
#[derive(Clone, Copy, Debug, PartialEq, Eq, Structural)]
pub enum StepError {
    Obstacle,
    OutOfField,
    SelfHit,
}

/// What happened in a tick that the snake survived.
#[derive(Clone, Copy, Debug, PartialEq, Eq, Structural)]
pub enum StepOk {
    Nothing,
    AteFood,
    AteMystery,
}

/// A compass heading on the field. `Up` is towards smaller `y`.
#[derive(Clone, Copy, Debug, PartialEq, Eq, Structural)]
pub enum Direction {
    Up,
    Down,
    Left,
    Right,
}

impl Direction {
    /// The heading a quarter turn counter-clockwise from this one.
    pub open spec fn spec_left(self) -> Direction {
        match self {
            Direction::Down => Direction::Right,
            Direction::Right => Direction::Up,
            Direction::Up => Direction::Left,
            Direction::Left => Direction::Down,
        }
    }

    /// The heading a quarter turn clockwise from this one.
    pub open spec fn spec_right(self) -> Direction {
        match self {
            Direction::Down => Direction::Left,
            Direction::Right => Direction::Down,
            Direction::Up => Direction::Right,
            Direction::Left => Direction::Up,
        }
    }

    /// The heading a quarter turn counter-clockwise from this one.
    #[verifier::when_used_as_spec(spec_left)]
    pub fn left(self) -> (d: Direction)
        ensures
            d == self.spec_left(),
    {
        match self {
            Direction::Down => Direction::Right,
            Direction::Right => Direction::Up,
            Direction::Up => Direction::Left,
            Direction::Left => Direction::Down,
        }
    }

    /// The heading a quarter turn clockwise from this one.
    #[verifier::when_used_as_spec(spec_right)]
    pub fn right(self) -> (d: Direction)
        ensures
            d == self.spec_right(),
    {
        match self {
            Direction::Down => Direction::Left,
            Direction::Right => Direction::Down,
            Direction::Up => Direction::Right,
            Direction::Left => Direction::Up,
        }
    }

    /// Whether the two headings point away from each other.
    pub fn is_opposite(self, other: Direction) -> (b: bool)
        ensures
            b == opposite(self, other),
    {
        self.left().left() == other
    }
}

/// A cell of the field.
#[derive(Clone, Copy, Debug, PartialEq, Eq, Structural)]
pub struct Coords {
    pub x: u32,
    pub y: u32,
}

impl Coords {
    /// The neighbouring cell in direction `dir`, if the field has one.
    pub open spec fn spec_ahead(self, dir: Direction) -> Option<Coords> {
        match dir {
            Direction::Up => if self.y > 1 {
                Some(Coords { x: self.x, y: (self.y - 1) as u32 })
            } else {
                None
            },
            Direction::Down => if self.y < FIELD_SIZE {
                Some(Coords { x: self.x, y: (self.y + 1) as u32 })
            } else {
                None
            },
            Direction::Left => if self.x > 1 {
                Some(Coords { x: (self.x - 1) as u32, y: self.y })
            } else {
                None
            },
            Direction::Right => if self.x < FIELD_SIZE {
                Some(Coords { x: (self.x + 1) as u32, y: self.y })
            } else {
                None
            },
        }
    }

    /// The neighbouring cell in direction `dir`, if the field has one.
    #[verifier::when_used_as_spec(spec_ahead)]
    pub fn ahead(self, dir: Direction) -> (next: Option<Coords>)
        ensures
            next == self.spec_ahead(dir),
    {
        match dir {
            Direction::Up => if self.y > 1 {
                Some(Coords { x: self.x, y: self.y - 1 })
            } else {
                None
            },
            Direction::Down => if self.y < FIELD_SIZE {
                Some(Coords { x: self.x, y: self.y + 1 })
            } else {
                None
            },
            Direction::Left => if self.x > 1 {
                Some(Coords { x: self.x - 1, y: self.y })
            } else {
                None
            },
            Direction::Right => if self.x < FIELD_SIZE {
                Some(Coords { x: self.x + 1, y: self.y })
            } else {
                None
            },
        }
    }
}

/// One segment of the snake.
#[derive(Clone, Copy, Debug, PartialEq, Eq, Structural)]
pub struct SnakeCell {
    /// The heading of the segment.
    pub dir: Direction,
    /// The heading the snake had when it entered the cell.
    pub prev_dir: Direction,
    pub coords: Coords,
    /// Alternates from one segment to the next.
    pub even: bool,
}

/// The kinds of things that appear on the field.
#[derive(Clone, Copy, Debug, PartialEq, Eq, Structural)]
pub enum Thing {
    Fat,
    Food,
    Lean,
    Mystery,
    Obstacle,
}

impl Thing {
    /// How many pictures there are of this kind of thing.
    pub open spec fn spec_pictures(self) -> usize {
        match self {
            Thing::Mystery => 4,
            _ => 3,
        }
    }

    /// How many pictures there are of this kind of thing.
    #[verifier::when_used_as_spec(spec_pictures)]
    pub fn pictures(self) -> (n: usize)
        ensures
            n == self.spec_pictures(),
    {
        match self {
            Thing::Mystery => 4,
            _ => 3,
        }
    }

    /// The odds at which a thing of this kind is drawn when its turn comes,
    /// as so many in so many: an obstacle and a mystery item once in every
    /// tick; lean food where food is due and enough food was eaten; fat food
    /// where food is due and is not lean; and plain food, which is what is
    /// left, for certain.
    pub open spec fn spec_odds(self) -> (u32, u32) {
        match self {
            Thing::Obstacle => (OBSTACLE_P, P_SCALE),
            Thing::Mystery => (MYSTERY_P, P_SCALE),
            Thing::Lean => (LEAN_P, P_SCALE),
            Thing::Fat => (FAT_P, P_SCALE),
            Thing::Food => (P_SCALE, P_SCALE),
        }
    }

    /// The odds at which a thing of this kind is drawn when its turn comes.
    #[verifier::when_used_as_spec(spec_odds)]
    pub fn odds(self) -> (odds: (u32, u32))
        ensures
            odds == self.spec_odds(),
            0 < odds.1,
            odds.0 <= odds.1,
    {
        match self {
            Thing::Obstacle => (OBSTACLE_P, P_SCALE),
            Thing::Mystery => (MYSTERY_P, P_SCALE),
            Thing::Lean => (LEAN_P, P_SCALE),
            Thing::Fat => (FAT_P, P_SCALE),
            Thing::Food => (P_SCALE, P_SCALE),
        }
    }

    /// The odds at which a mystery item pays out in points.
    pub fn bonus_odds() -> (odds: (u32, u32))
        ensures
            odds == (MYSTERY_SCORE_P, P_SCALE),
    {
        (MYSTERY_SCORE_P, P_SCALE)
    }
}

/// A thing lying on the field.
#[derive(Clone, Copy, Debug, PartialEq, Eq)]
pub struct ThingInField {
    pub what: Thing,
    /// Which of the pictures of its kind shows it.
    pub picture_index: usize,
    /// Column, from 1 to `FIELD_SIZE`.
    pub x: u32,
    /// Row, from 1 to `FIELD_SIZE`.
    pub y: u32,
    /// Ticks left before it disappears; `None` for one that stays.
    pub lifetime: Option<u32>,
}

impl ThingInField {
    /// The food that appears on the cell `(x, y)` once chance has decided:
    /// lean if `lean` says so and `eaten_food` allows it, else fat if `fat`
    /// says so, else plain.
    pub open spec fn spec_food(
        eaten_food: u32,
        x: u32,
        y: u32,
        lean: bool,
        fat: bool,
        picture: usize,
    ) -> ThingInField {
        if eaten_food >= LEAN_AFTER_FOOD && lean {
            ThingInField {
                what: Thing::Lean,
                picture_index: picture,
                x,
                y,
                lifetime: Some(LEAN_LIFETIME),
            }
        } else if fat {
            ThingInField { what: Thing::Fat, picture_index: picture, x, y, lifetime: None }
        } else {
            ThingInField {
                what: Thing::Food,
                picture_index: picture,
                x,
                y,
                lifetime: if on_edge(x as int, y as int) {
                    None
                } else {
                    Some(FOOD_LIFETIME)
                },
            }
        }
    }

    /// The food that appears on the cell `(x, y)` once chance has decided.
    #[verifier::when_used_as_spec(spec_food)]
    pub fn food(eaten_food: u32, x: u32, y: u32, lean: bool, fat: bool, picture: usize) -> (t:
        ThingInField)
        ensures
            t == ThingInField::spec_food(eaten_food, x, y, lean, fat, picture),
    {
        if eaten_food >= LEAN_AFTER_FOOD && lean {
            ThingInField {
                what: Thing::Lean,
                picture_index: picture,
                x,
                y,
                lifetime: Some(LEAN_LIFETIME),
            }
        } else if fat {
            ThingInField { what: Thing::Fat, picture_index: picture, x, y, lifetime: None }
        } else {
            let lifetime = if x == 1 || y == 1 || x == FIELD_SIZE || y == FIELD_SIZE {
                None
            } else {
                Some(FOOD_LIFETIME)
            };
            ThingInField { what: Thing::Food, picture_index: picture, x, y, lifetime }
        }
    }
}

impl ThingInField {
    /// The food that appears once its cell was looked for and chance has
    /// decided on its kind and picture: none where no cell was found.
    pub open spec fn spec_food_on(
        eaten_food: u32,
        spot: Option<(u32, u32)>,
        lean: bool,
        fat: bool,
        picture: usize,
    ) -> Option<ThingInField> {
        match spot {
            Some(spot) => Some(
                ThingInField::spec_food(eaten_food, spot.0, spot.1, lean, fat, picture),
            ),
            None => None,
        }
    }

    /// The thing of the kind `what` that appears once chance has decided
    /// whether one is to appear, which `hit` says, and its cell was looked
    /// for: none where chance was against it or no cell was found.
    pub open spec fn spec_drawn(
        what: Thing,
        lifetime: u32,
        hit: bool,
        spot: Option<(u32, u32)>,
        picture: usize,
    ) -> Option<ThingInField> {
        match spot {
            Some(spot) => if hit {
                Some(
                    ThingInField {
                        what,
                        picture_index: picture,
                        x: spot.0,
                        y: spot.1,
                        lifetime: Some(lifetime),
                    },
                )
            } else {
                None
            },
            None => None,
        }
    }
}

/// A round of the game.
pub struct World {
    snake: Vec<SnakeCell>,
    things: Vec<ThingInField>,
    score: u32,
    grow: u32,
    eaten_food: u32,
}

impl View for World {
    type V = WorldState;

    closed spec fn view(&self) -> WorldState {
        WorldState {
            snake: self.snake@,
            things: self.things@,
            score: self.score as nat,
            grow: self.grow as nat,
            eaten_food: self.eaten_food as nat,
        }
    }
}

impl World {
    /// A new round: the snake in the middle of the field, heading up, and
    /// the first food.
    pub fn init() -> (w: World)
        ensures
            w@.wf(),
            w@.has_headroom(),
            w@.things.len() == 1,
            WorldState::start().is_food_drop(w@.things[0]),
            w@ == WorldState::start().with_thing(w@.things[0]),
            exists|rolls: Seq<Draw>| start_by(rolls, 0) == Some((w@, rolls.len() as int)),
    {
        let mut rng = ThreadRandom::new();
        let w = World::init_with(&mut rng);
        assert(start_by(rng.drawn(), 0) == Some((w@, rng.drawn().len() as int)));
        w
    }

    /// A new round, with chance taken from `rng`.
    pub fn init_with<R: RandomSource>(rng: &mut R) -> (w: World)
        ensures
            w@.wf(),
            w@.has_headroom(),
            w@.things.len() == 1,
            WorldState::start().is_food_drop(w@.things[0]),
            w@ == WorldState::start().with_thing(w@.things[0]),
            goes_on(old(rng).drawn(), final(rng).drawn()),
            start_by(final(rng).drawn(), old(rng).drawn().len() as int) == Some(
                (w@, final(rng).drawn().len() as int),
            ),
    {
        let mut snake: Vec<SnakeCell> = Vec::new();
        snake.push(
            SnakeCell {
                dir: Direction::Up,
                prev_dir: Direction::Up,
                coords: Coords { x: SNAKE_INIT_X, y: SNAKE_INIT_Y },
                even: false,
            },
        );
        snake.push(
            SnakeCell {
                dir: Direction::Up,
                prev_dir: Direction::Up,
                coords: Coords { x: SNAKE_INIT_X, y: SNAKE_INIT_Y + 1 },
                even: true,
            },
        );
        snake.push(
            SnakeCell {
                dir: Direction::Up,
                prev_dir: Direction::Up,
                coords: Coords { x: SNAKE_INIT_X, y: SNAKE_INIT_Y + 2 },
                even: false,
            },
        );
        let mut w = World { snake, things: Vec::new(), score: 0, grow: 0, eaten_food: 0 };
        assert(w@ == WorldState::start());
        let food = w.add_food(rng);
        proof {
            start_has_room();
            assert(goes_on(rng.drawn(), rng.drawn()));
        }
        w
    }

    /// The counters of a round are numbers that the machine can hold.
    pub proof fn counters_fit(&self)
        ensures
            self@.score <= u32::MAX,
            self@.grow <= u32::MAX,
            self@.eaten_food <= u32::MAX,
    {
    }

    /// The snake, head first.
    pub fn snake(&self) -> (snake: &Vec<SnakeCell>)
        ensures
            snake@ == self@.snake,
    {
        &self.snake
    }

    /// The things on the field.
    pub fn things(&self) -> (things: &Vec<ThingInField>)
        ensures
            things@ == self@.things,
    {
        &self.things
    }

    /// The points of the round so far.
    pub fn score(&self) -> (score: u32)
        ensures
            score == self@.score,
    {
        self.score
    }

    /// Ticks for which the tail will stay where it is.
    pub fn grow(&self) -> (grow: u32)
        ensures
            grow == self@.grow,
    {
        self.grow
    }

    /// Food eaten since the last lean item.
    pub fn eaten_food(&self) -> (eaten_food: u32)
        ensures
            eaten_food == self@.eaten_food,
    {
        self.eaten_food
    }

    /// Whether the counters leave room for another tick.
    pub fn has_headroom(&self) -> (b: bool)
        ensures
            b == self@.has_headroom(),
    {
        self.score <= u32::MAX - MYSTERY_SCORE && self.grow <= u32::MAX - MYSTERY_GROW_SNAKE
            && self.eaten_food < u32::MAX
    }

    /// Whether the segments of the snake lie on the field, on cells of their
    /// own.
    fn snake_is_ok(&self) -> (b: bool)
        ensures
            b == snake_ok(self@.snake),
    {
        let n = self.snake.len();
        let mut i: usize = 0;
        while i < n
            invariant
                n == self.snake@.len(),
                i <= n,
                forall|k: int|
                    #![trigger self.snake@[k]]
                    0 <= k < i ==> in_field(
                        self.snake@[k].coords.x as int,
                        self.snake@[k].coords.y as int,
                    ),
                forall|k: int, l: int|
                    #![trigger self.snake@[k], self.snake@[l]]
                    0 <= k < l < n && k < i ==> !cell_at(
                        self.snake@[k],
                        self.snake@[l].coords.x as int,
                        self.snake@[l].coords.y as int,
                    ),
            decreases n - i,
        {
            let c = self.snake[i].coords;
            if c.x < 1 || c.x > FIELD_SIZE || c.y < 1 || c.y > FIELD_SIZE {
                return false;
            }
            let mut j: usize = i + 1;
            while j < n
                invariant
                    n == self.snake@.len(),
                    i < j <= n,
                    c == self.snake@[i as int].coords,
                    forall|l: int|
                        #![trigger self.snake@[l]]
                        i < l < j ==> !cell_at(
                            self.snake@[i as int],
                            self.snake@[l].coords.x as int,
                            self.snake@[l].coords.y as int,
                        ),
                decreases n - j,
            {
                if self.snake[j].coords.x == c.x && self.snake[j].coords.y == c.y {
                    return false;
                }
                j += 1;
            }
            i += 1;
        }
        true
    }

    /// Whether the segments of the snake lie in a row, and none behind the
    /// head heads back.
    fn snake_is_linked(&self) -> (b: bool)
        ensures
            b == snake_linked(self@.snake),
    {
        let n = self.snake.len();
        let mut i: usize = 0;
        while i < n
            invariant
                n == self.snake@.len(),
                i <= n,
                forall|k: int, l: int|
                    #![trigger self.snake@[k], self.snake@[l]]
                    0 <= k && l == k + 1 && l < n && k < i ==> self.snake@[l].coords.spec_ahead(
                        self.snake@[k].prev_dir,
                    ) == Some(self.snake@[k].coords),
                forall|k: int|
                    #![trigger self.snake@[k]]
                    1 <= k < i ==> !opposite(self.snake@[k].dir, self.snake@[k].prev_dir),
            decreases n - i,
        {
            let cell = self.snake[i];
            if i > 0 && cell.dir.left().left() == cell.prev_dir {
                return false;
            }
            if i + 1 < n {
                let behind = self.snake[i + 1];
                match behind.coords.ahead(cell.prev_dir) {
                    Some(c) => {
                        if c.x != cell.coords.x || c.y != cell.coords.y {
                            return false;
                        }
                    },
                    None => {
                        return false;
                    },
                }
            }
            i += 1;
        }
        true
    }

    /// Whether the things lie on the field, on cells of their own, and have
    /// pictures.
    fn things_are_ok(&self) -> (b: bool)
        ensures
            b == things_ok(self@.things),
    {
        let n = self.things.len();
        let mut i: usize = 0;
        while i < n
            invariant
                n == self.things@.len(),
                i <= n,
                forall|k: int|
                    #![trigger self.things@[k]]
                    0 <= k < i ==> in_field(self.things@[k].x as int, self.things@[k].y as int)
                        && self.things@[k].picture_index < self.things@[k].what.spec_pictures(),
                forall|k: int, l: int|
                    #![trigger self.things@[k], self.things@[l]]
                    0 <= k < l < n && k < i ==> !thing_at(
                        self.things@[k],
                        self.things@[l].x as int,
                        self.things@[l].y as int,
                    ),
            decreases n - i,
        {
            let t = self.things[i];
            if t.x < 1 || t.x > FIELD_SIZE || t.y < 1 || t.y > FIELD_SIZE {
                return false;
            }
            if t.picture_index >= t.what.pictures() {
                return false;
            }
            let mut j: usize = i + 1;
            while j < n
                invariant
                    n == self.things@.len(),
                    i < j <= n,
                    t == self.things@[i as int],
                    forall|l: int|
                        #![trigger self.things@[l]]
                        i < l < j ==> !thing_at(
                            self.things@[i as int],
                            self.things@[l].x as int,
                            self.things@[l].y as int,
                        ),
                decreases n - j,
            {
                if self.things[j].x == t.x && self.things[j].y == t.y {
                    return false;
                }
                j += 1;
            }
            i += 1;
        }
        true
    }

    /// Whether no thing lies on the snake.
    fn things_are_apart(&self) -> (b: bool)
        ensures
            b == apart(self@.snake, self@.things),
    {
        let n = self.things.len();
        let mut j: usize = 0;
        while j < n
            invariant
                n == self.things@.len(),
                j <= n,
                forall|k: int, l: int|
                    #![trigger self.snake@[k], self.things@[l]]
                    0 <= k < self.snake@.len() && 0 <= l < j ==> !cell_at(
                        self.snake@[k],
                        self.things@[l].x as int,
                        self.things@[l].y as int,
                    ),
            decreases n - j,
        {
            if self.on_snake(self.things[j].x, self.things[j].y) {
                return false;
            }
            j += 1;
        }
        true
    }

    /// Whether the round is in play: whether a tick can be made.
    pub fn is_in_play(&self) -> (b: bool)
        ensures
            b == self@.wf(),
    {
        self.snake.len() >= 3 && self.snake_is_ok() && self.snake_is_linked() && self.things_are_ok()
            && self.things_are_apart()
    }

    /// Whether a segment of the snake lies on the cell `(x, y)`.
    pub fn on_snake(&self, x: u32, y: u32) -> (b: bool)
        ensures
            b == snake_covers(self@.snake, x as int, y as int),
    {
        let mut i: usize = 0;
        while i < self.snake.len()
            invariant
                i <= self.snake.len(),
                forall|k: int| 0 <= k < i ==> !cell_at(#[trigger] self.snake@[k], x as int, y as int),
            decreases self.snake.len() - i,
        {
            if self.snake[i].coords.x == x && self.snake[i].coords.y == y {
                return true;
            }
            i += 1;
        }
        false
    }

    /// Whether a thing lies on the cell `(x, y)`.
    pub fn on_thing(&self, x: u32, y: u32) -> (b: bool)
        ensures
            b == things_cover(self@.things, x as int, y as int),
    {
        let mut i: usize = 0;
        while i < self.things.len()
            invariant
                i <= self.things.len(),
                forall|k: int|
                    0 <= k < i ==> !thing_at(#[trigger] self.things@[k], x as int, y as int),
            decreases self.things.len() - i,
        {
            if self.things[i].x == x && self.things[i].y == y {
                return true;
            }
            i += 1;
        }
        false
    }

    /// Whether the cell `(x, y)` is free for a new thing.
    pub fn is_empty_spot(&self, x: u32, y: u32) -> (b: bool)
        requires
            self@.snake.len() > 0,
        ensures
            b == self@.is_empty_spot(x as int, y as int),
    {
        if x < 1 || x > FIELD_SIZE || y < 1 || y > FIELD_SIZE {
            return false;
        }
        if self.on_snake(x, y) {
            return false;
        }
        let hx = self.snake[0].coords.x;
        let hy = self.snake[0].coords.y;
        if (x < 3 || x - 3 < hx) && hx < x + 3 && (y < 3 || y - 3 < hy) && hy < y + 3 {
            return false;
        }
        !self.on_thing(x, y)
    }

    /// Goes through the field row by row, passes over the first `skip`
    /// free cells and returns the next; or, where the field has no more than
    /// `skip` free cells, how many it has.
    fn scan(&self, skip: u32) -> (r: Result<(u32, u32), u32>)
        requires
            self@.snake.len() > 0,
        ensures
            match r {
                Ok((x, y)) => self@.is_empty_spot(x as int, y as int) && self@.free_among(
                    CELLS as nat,
                ) > skip && free_cell(self@, skip as nat, CELLS as nat) == Some((x, y)),
                Err(n) => n == self@.free_among(CELLS as nat) && n <= skip,
            },
    {
        let mut seen: u32 = 0;
        let mut i: u32 = 0;
        while i < CELLS
            invariant
                self@.snake.len() > 0,
                i <= CELLS,
                seen == self@.free_among(i as nat),
                seen <= skip,
                seen <= i,
            decreases CELLS - i,
        {
            let x = i % FIELD_SIZE + 1;
            let y = i / FIELD_SIZE + 1;
            if self.is_empty_spot(x, y) {
                if seen == skip {
                    proof {
                        free_cells_grow(self@, i as nat + 1, CELLS as nat);
                        free_cell_found(self@, i as nat, CELLS as nat);
                    }
                    return Ok((x, y));
                }
                seen += 1;
            }
            i += 1;
        }
        Err(seen)
    }

    /// Looks for a free cell: draws cells at random, up to `SPAWN_TRIES`
    /// times; where none of them is free, goes through the field and draws
    /// one of the free cells, if there is any.
    fn empty_spot<R: RandomSource>(&self, rng: &mut R) -> (spot: Option<(u32, u32)>)
        requires
            self@.snake.len() > 0,
        ensures
            spot matches Some((x, y)) ==> self@.is_empty_spot(x as int, y as int),
            spot is None ==> self@.is_full(),
            goes_on(old(rng).drawn(), final(rng).drawn()),
            forall|rolls: Seq<Draw>| #[trigger]
                goes_on(final(rng).drawn(), rolls) ==> search(
                    self@,
                    rolls,
                    old(rng).drawn().len() as int,
                    SPAWN_TRIES as nat,
                ) == Some((spot, final(rng).drawn().len() as int)),
    {
        let ghost start = rng.drawn();
        let mut tries: u32 = 0;
        while tries < SPAWN_TRIES
            invariant
                self@.snake.len() > 0,
                tries <= SPAWN_TRIES,
                start == old(rng).drawn(),
                goes_on(start, rng.drawn()),
                forall|rolls: Seq<Draw>| #[trigger]
                    goes_on(rng.drawn(), rolls) ==> search(
                        self@,
                        rolls,
                        start.len() as int,
                        SPAWN_TRIES as nat,
                    ) == search(
                        self@,
                        rolls,
                        rng.drawn().len() as int,
                        (SPAWN_TRIES - tries) as nat,
                    ),
            decreases SPAWN_TRIES - tries,
        {
            let ghost before = rng.drawn();
            let x = rng.below(FIELD_SIZE) + 1;
            let y = rng.below(FIELD_SIZE) + 1;
            let free = self.is_empty_spot(x, y);
            proof {
                assert forall|rolls: Seq<Draw>| #[trigger] goes_on(rng.drawn(), rolls) implies search(
                    self@,
                    rolls,
                    start.len() as int,
                    SPAWN_TRIES as nat,
                ) == (if free {
                    Some((Some((x, y)), rng.drawn().len() as int))
                } else {
                    search(
                        self@,
                        rolls,
                        rng.drawn().len() as int,
                        (SPAWN_TRIES - tries - 1) as nat,
                    )
                }) by {
                    assert(goes_on(before, rolls));
                    assert(rolls[before.len() as int] == rng.drawn()[before.len() as int]);
                    assert(rolls[before.len() as int + 1] == rng.drawn()[before.len() as int + 1]);
                }
            }
            if free {
                return Some((x, y));
            }
            tries += 1;
        }
        match self.scan(CELLS) {
            Ok(spot) => {
                proof {
                    free_cells_at_most(self@, CELLS as nat);
                }
                Some(spot)
            },
            Err(free) => {
                if free == 0 {
                    proof {
                        no_free_cells(self@);
                    }
                    None
                } else {
                    let ghost before = rng.drawn();
                    let k = rng.below(free);
                    proof {
                        assert forall|rolls: Seq<Draw>| #[trigger]
                            goes_on(rng.drawn(), rolls) implies search(
                            self@,
                            rolls,
                            start.len() as int,
                            SPAWN_TRIES as nat,
                        ) == Some((free_cell(self@, k as nat, CELLS as nat), rng.drawn().len() as int))
                        by {
                            assert(goes_on(before, rolls));
                            assert(rolls[before.len() as int] == rng.drawn()[before.len() as int]);
                        }
                    }
                    match self.scan(k) {
                        Ok(spot) => Some(spot),
                        Err(_) => None,
                    }
                }
            },
        }
    }

    /// Puts on the field the food that was drawn: on the cell `spot`, lean
    /// if `lean` says so and enough food was eaten, else fat if `fat` says
    /// so, else plain; none where no cell was found.
    pub fn place_food(
        &mut self,
        spot: Option<(u32, u32)>,
        lean: bool,
        fat: bool,
        picture: usize,
    ) -> (food: Option<ThingInField>)
        ensures
            food == ThingInField::spec_food_on(
                old(self)@.eaten_food as u32,
                spot,
                lean,
                fat,
                picture,
            ),
            final(self)@ == old(self)@.spawn(food),
            old(self)@.wf() && picture < 3 && (spot matches Some(c) ==> old(self)@.is_empty_spot(
                c.0 as int,
                c.1 as int,
            )) ==> final(self)@.wf(),
    {
        match spot {
            Some((x, y)) => {
                let food = ThingInField::food(self.eaten_food, x, y, lean, fat, picture);
                proof {
                    if self@.wf() && picture < 3 && self@.is_empty_spot(x as int, y as int) {
                        drop_keeps_apart(self@, food);
                    }
                }
                self.things.push(food);
                Some(food)
            },
            None => None,
        }
    }

    /// Puts on the field the obstacle or the mystery item that was drawn:
    /// one of the kind `what` on the cell `spot`, where `hit` says that
    /// chance was for it; none where it was not or no cell was found.
    pub fn place_drawn(
        &mut self,
        what: Thing,
        lifetime: u32,
        hit: bool,
        spot: Option<(u32, u32)>,
        picture: usize,
    ) -> (thing: Option<ThingInField>)
        ensures
            thing == ThingInField::spec_drawn(what, lifetime, hit, spot, picture),
            final(self)@ == old(self)@.spawn(thing),
            old(self)@.wf() && picture < what.spec_pictures() && (spot matches Some(c)
                ==> old(self)@.is_empty_spot(c.0 as int, c.1 as int)) ==> final(self)@.wf(),
    {
        match spot {
            Some((x, y)) => {
                if hit {
                    let thing = ThingInField {
                        what,
                        picture_index: picture,
                        x,
                        y,
                        lifetime: Some(lifetime),
                    };
                    proof {
                        if self@.wf() && picture < what.spec_pictures() && self@.is_empty_spot(
                            x as int,
                            y as int,
                        ) {
                            drop_keeps_apart(self@, thing);
                        }
                    }
                    self.things.push(thing);
                    Some(thing)
                } else {
                    None
                }
            },
            None => None,
        }
    }

    /// Counts what the head has come upon: food makes the snake grow and
    /// scores, lean food scores and starts the count of food again, and a
    /// mystery item pays out in points where `bonus` says so and else in
    /// growth. Returns what the tick will return for it.
    pub fn eat(&mut self, what: Thing, bonus: bool) -> (r: Result<StepOk, StepError>)
        requires
            old(self)@.has_headroom(),
        ensures
            final(self)@ == old(self)@.ate(what, bonus),
            r == verdict(what),
    {
        match what {
            Thing::Obstacle => Err(StepError::Obstacle),
            Thing::Food => {
                self.eaten_food += 1;
                self.score += 1;
                self.grow += FOOD_GROW_SNAKE;
                Ok(StepOk::AteFood)
            },
            Thing::Fat => {
                self.eaten_food += 1;
                self.score += 1;
                self.grow += FAT_GROW_SNAKE;
                Ok(StepOk::AteFood)
            },
            Thing::Lean => {
                self.eaten_food = 0;
                self.score += 1;
                Ok(StepOk::AteFood)
            },
            Thing::Mystery => {
                if bonus {
                    self.score += MYSTERY_SCORE;
                    self.eaten_food += 1;
                } else {
                    self.grow += MYSTERY_GROW_SNAKE;
                }
                Ok(StepOk::AteMystery)
            },
        }
    }

    /// Puts new food on the field, unless no cell is free: looks for a cell,
    /// draws for lean food where enough food was eaten, for fat food where
    /// the food is not lean, and for the picture.
    fn add_food<R: RandomSource>(&mut self, rng: &mut R) -> (food: Ghost<Option<ThingInField>>)
        requires
            old(self)@.snake.len() > 0,
        ensures
            final(self)@ == old(self)@.spawn(food@),
            food@ matches Some(f) ==> old(self)@.is_food_drop(f),
            food@ is None ==> old(self)@.is_full(),
            goes_on(old(rng).drawn(), final(rng).drawn()),
            forall|rolls: Seq<Draw>| #[trigger]
                goes_on(final(rng).drawn(), rolls) ==> food_by(
                    old(self)@,
                    rolls,
                    old(rng).drawn().len() as int,
                ) == Some((food@, final(rng).drawn().len() as int)),
    {
        let spot = self.empty_spot(rng);
        let ghost found = rng.drawn();
        let mut lean = false;
        let mut fat = false;
        let mut picture: usize = 0;
        if spot.is_some() {
            if self.eaten_food >= LEAN_AFTER_FOOD {
                let odds = Thing::Lean.odds();
                lean = rng.ratio(odds.0, odds.1);
            }
            let ghost leaned = rng.drawn();
            if !lean {
                let odds = Thing::Fat.odds();
                fat = rng.ratio(odds.0, odds.1);
            }
            let ghost fatted = rng.drawn();
            picture = rng.below(Thing::Food.pictures() as u32) as usize;
            proof {
                assert forall|rolls: Seq<Draw>| #[trigger] goes_on(rng.drawn(), rolls) implies food_by(
                    self@,
                    rolls,
                    old(rng).drawn().len() as int,
                ) == Some(
                    (
                        ThingInField::spec_food_on(self.eaten_food, spot, lean, fat, picture),
                        rng.drawn().len() as int,
                    ),
                ) by {
                    assert(goes_on(found, rolls));
                    assert(rolls[found.len() as int] == rng.drawn()[found.len() as int]);
                    assert(rolls[leaned.len() as int] == rng.drawn()[leaned.len() as int]);
                    assert(rolls[fatted.len() as int] == rng.drawn()[fatted.len() as int]);
                }
            }
        } else {
            proof {
                assert forall|rolls: Seq<Draw>| #[trigger] goes_on(rng.drawn(), rolls) implies food_by(
                    self@,
                    rolls,
                    old(rng).drawn().len() as int,
                ) == Some((None::<ThingInField>, rng.drawn().len() as int)) by {
                    assert(goes_on(found, rolls));
                }
            }
        }
        let food = self.place_food(spot, lean, fat, picture);
        Ghost(food)
    }

    /// Draws for a thing of the kind `what` at the odds of its kind, and
    /// where chance is for it looks for a cell, draws a picture and puts the
    /// thing on the field.
    fn maybe_add<R: RandomSource>(&mut self, what: Thing, lifetime: u32, rng: &mut R) -> (thing:
        Ghost<Option<ThingInField>>)
        requires
            old(self)@.snake.len() > 0,
        ensures
            final(self)@ == old(self)@.spawn(thing@),
            thing@ matches Some(t) ==> old(self)@.is_empty_spot(t.x as int, t.y as int)
                && t.picture_index < what.spec_pictures() && t.what == what && t.lifetime == Some(
                lifetime,
            ),
            goes_on(old(rng).drawn(), final(rng).drawn()),
            forall|rolls: Seq<Draw>| #[trigger]
                goes_on(final(rng).drawn(), rolls) ==> drawn_by(
                    old(self)@,
                    what,
                    lifetime,
                    rolls,
                    old(rng).drawn().len() as int,
                ) == Some((thing@, final(rng).drawn().len() as int)),
    {
        let odds = what.odds();
        let hit = rng.ratio(odds.0, odds.1);
        let ghost asked = rng.drawn();
        let mut spot: Option<(u32, u32)> = None;
        let mut picture: usize = 0;
        if hit {
            spot = self.empty_spot(rng);
            let ghost found = rng.drawn();
            if spot.is_some() {
                picture = rng.below(what.pictures() as u32) as usize;
            }
            proof {
                assert forall|rolls: Seq<Draw>| #[trigger] goes_on(rng.drawn(), rolls) implies drawn_by(
                    self@,
                    what,
                    lifetime,
                    rolls,
                    old(rng).drawn().len() as int,
                ) == Some(
                    (
                        ThingInField::spec_drawn(what, lifetime, hit, spot, picture),
                        rng.drawn().len() as int,
                    ),
                ) by {
                    assert(goes_on(found, rolls));
                    assert(goes_on(asked, rolls));
                    assert(rolls[old(rng).drawn().len() as int] == asked[old(rng).drawn().len() as int]);
                    if spot is Some {
                        assert(rolls[found.len() as int] == rng.drawn()[found.len() as int]);
                    }
                }
            }
        } else {
            proof {
                assert forall|rolls: Seq<Draw>| #[trigger] goes_on(rng.drawn(), rolls) implies drawn_by(
                    self@,
                    what,
                    lifetime,
                    rolls,
                    old(rng).drawn().len() as int,
                ) == Some((None::<ThingInField>, rng.drawn().len() as int)) by {
                    assert(rolls[old(rng).drawn().len() as int] == asked[old(rng).drawn().len() as int]);
                }
            }
        }
        let thing = self.place_drawn(what, lifetime, hit, spot, picture);
        Ghost(thing)
    }

    /// With a chance of `OBSTACLE_P`, puts an obstacle on the field, unless
    /// no cell is free.
    fn maybe_add_obstacle<R: RandomSource>(&mut self, rng: &mut R) -> (obstacle: Ghost<
        Option<ThingInField>,
    >)
        requires
            old(self)@.snake.len() > 0,
        ensures
            final(self)@ == old(self)@.spawn(obstacle@),
            obstacle@ matches Some(t) ==> old(self)@.is_obstacle_drop(t),
            goes_on(old(rng).drawn(), final(rng).drawn()),
            forall|rolls: Seq<Draw>| #[trigger]
                goes_on(final(rng).drawn(), rolls) ==> drawn_by(
                    old(self)@,
                    Thing::Obstacle,
                    OBSTACLE_LIFETIME,
                    rolls,
                    old(rng).drawn().len() as int,
                ) == Some((obstacle@, final(rng).drawn().len() as int)),
    {
        self.maybe_add(Thing::Obstacle, OBSTACLE_LIFETIME, rng)
    }

    /// With a chance of `MYSTERY_P`, puts a mystery item on the field,
    /// unless no cell is free.
    fn maybe_add_mystery<R: RandomSource>(&mut self, rng: &mut R) -> (mystery: Ghost<
        Option<ThingInField>,
    >)
        requires
            old(self)@.snake.len() > 0,
        ensures
            final(self)@ == old(self)@.spawn(mystery@),
            mystery@ matches Some(t) ==> old(self)@.is_mystery_drop(t),
            goes_on(old(rng).drawn(), final(rng).drawn()),
            forall|rolls: Seq<Draw>| #[trigger]
                goes_on(final(rng).drawn(), rolls) ==> drawn_by(
                    old(self)@,
                    Thing::Mystery,
                    MYSTERY_LIFETIME,
                    rolls,
                    old(rng).drawn().len() as int,
                ) == Some((mystery@, final(rng).drawn().len() as int)),
    {
        self.maybe_add(Thing::Mystery, MYSTERY_LIFETIME, rng)
    }

    /// The first part of a tick: moves the snake one cell, unless it would
    /// leave the field or run into itself.
    fn advance(&mut self) -> (stop: Option<StepError>)
        requires
            old(self)@.wf(),
        ensures
            final(self)@ == old(self)@.advance().0,
            stop == old(self)@.advance().1,
    {
        let head = self.snake[0];
        match head.coords.ahead(head.dir) {
            None => Some(StepError::OutOfField),
            Some(c) => {
                if self.grow == 0 {
                    self.snake.pop();
                } else {
                    self.grow -= 1;
                }
                if self.on_snake(c.x, c.y) {
                    return Some(StepError::SelfHit);
                }
                let neck = self.snake[0];
                self.snake.insert(
                    0,
                    SnakeCell { dir: neck.dir, prev_dir: neck.dir, even: !neck.even, coords: c },
                );
                None
            },
        }
    }

    /// The second part of a tick: settles each thing that is on the field,
    /// until an obstacle under the head ends the round.
    fn sweep_things<R: RandomSource>(&mut self, rng: &mut R) -> (r: (
        Result<StepOk, StepError>,
        Ghost<Seq<Chance>>,
    ))
        requires
            old(self)@.wf_moved(),
            old(self)@.has_headroom(),
        ensures
            sweep_fits(old(self)@, old(self)@.things.len(), r.1@),
            sweep(old(self)@, old(self)@.things.len(), r.1@).state == final(self)@,
            sweep(old(self)@, old(self)@.things.len(), r.1@).outcome == r.0,
            goes_on(old(rng).drawn(), final(rng).drawn()),
            forall|rolls: Seq<Draw>| #[trigger]
                goes_on(final(rng).drawn(), rolls) ==> chances_by(
                    old(self)@,
                    old(self)@.things.len(),
                    rolls,
                    old(rng).drawn().len() as int,
                ) == Some((r.1@, final(rng).drawn().len() as int)),
    {
        let ghost a = self@;
        let ghost start = rng.drawn();
        let n = self.things.len();
        let head = self.snake[0].coords;
        let mut settled: usize = 0;
        let mut at: usize = 0;
        let mut outcome = StepOk::Nothing;
        let ghost mut chances: Seq<Chance> = Seq::empty();
        while settled < n
            invariant
                a == old(self)@,
                a.wf_moved(),
                a.has_headroom(),
                n == a.things.len(),
                settled <= n,
                head == a.snake[0].coords,
                chances.len() == settled,
                start == old(rng).drawn(),
                goes_on(start, rng.drawn()),
                forall|rolls: Seq<Draw>| #[trigger]
                    goes_on(rng.drawn(), rolls) ==> chances_by(
                        a,
                        settled as nat,
                        rolls,
                        start.len() as int,
                    ) == Some((chances, rng.drawn().len() as int)),
                sweep_fits(a, settled as nat, chances),
                sweep(a, settled as nat, chances) == (Sweep {
                    state: self@,
                    at: at as int,
                    outcome: Ok(outcome),
                }),
            decreases n - settled,
        {
            let ghost w = sweep(a, settled as nat, chances);
            let ghost before = rng.drawn();
            proof {
                lemma_sweep(a, settled as nat, chances);
            }
            let t = self.things[at];
            let ghost mut c = Chance { bonus: false, food: None };
            let expired = match t.lifetime {
                Some(left) => left == 0,
                None => false,
            };
            let mut stop = false;
            if t.x == head.x && t.y == head.y {
                match t.what {
                    Thing::Obstacle => {
                        stop = true;
                    },
                    Thing::Mystery => {
                        self.things.remove(at);
                        let odds = Thing::bonus_odds();
                        let bonus = rng.ratio(odds.0, odds.1);
                        self.eat(t.what, bonus);
                        outcome = StepOk::AteMystery;
                        proof {
                            c = Chance { bonus, food: None };
                        }
                    },
                    _ => {
                        self.things.remove(at);
                        self.eat(t.what, false);
                        outcome = StepOk::AteFood;
                        let food = self.add_food(rng);
                        proof {
                            c = Chance { bonus: false, food: food@ };
                        }
                    },
                }
            } else if expired {
                if t.what == Thing::Food || t.what == Thing::Lean {
                    let food = self.add_food(rng);
                    proof {
                        c = Chance { bonus: false, food: food@ };
                    }
                }
                self.things.remove(at);
            } else {
                match t.lifetime {
                    Some(left) => {
                        self.things.remove(at);
                        self.things.push(ThingInField { lifetime: Some(left - 1), ..t });
                    },
                    None => {
                        assert(at < self.things.len());
                        at += 1;
                    },
                }
            }
            proof {
                let longer = chances.push(c);
                lemma_sweep_prefix(a, settled as nat, chances, longer);
                assert forall|rolls: Seq<Draw>| #[trigger] goes_on(rng.drawn(), rolls) implies chances_by(
                    a,
                    (settled + 1) as nat,
                    rolls,
                    start.len() as int,
                ) == Some((longer, rng.drawn().len() as int)) by {
                    assert(goes_on(before, rolls));
                    assert(chance_by(w, rolls, before.len() as int) == Some(
                        (c, rng.drawn().len() as int),
                    )) by {
                        if before.len() < rng.drawn().len() {
                            assert(rolls[before.len() as int] == rng.drawn()[before.len() as int]);
                        }
                    }
                }
                chances = longer;
            }
            settled += 1;
            if stop {
                proof {
                    lemma_sweep_stops(a, settled as nat, n as nat, chances);
                    assert forall|rolls: Seq<Draw>| #[trigger] goes_on(rng.drawn(), rolls) implies chances_by(
                        a,
                        n as nat,
                        rolls,
                        start.len() as int,
                    ) == Some((chances, rng.drawn().len() as int)) by {
                        lemma_chances_stop(
                            a,
                            settled as nat,
                            n as nat,
                            rolls,
                            start.len() as int,
                        );
                    }
                }
                return (Err(StepError::Obstacle), Ghost(chances));
            }
        }
        (Ok(outcome), Ghost(chances))
    }

    /// One tick of the game, with chance taken from the thread's generator:
    /// see `step_with`.
    pub fn step(&mut self) -> (r: Result<StepOk, StepError>)
        requires
            old(self)@.wf(),
            old(self)@.has_headroom(),
        ensures
            exists|luck: Luck|
                luck_fits(old(self)@, luck) && tick(old(self)@, luck) == (final(self)@, r),
            exists|rolls: Seq<Draw>|
                tick_by(old(self)@, rolls, 0) == Some(((final(self)@, r), rolls.len() as int)),
            r == outcome(old(self)@),
            final(self)@.snake == old(self)@.advance().0.snake,
            final(self)@.score >= old(self)@.score,
            r matches Err(StepError::OutOfField) ==> final(self)@ == old(self)@,
            r is Ok ==> final(self)@.snake.len() == old(self)@.snake.len() + if old(self)@.grow
                > 0 {
                1int
            } else {
                0int
            },
            r is Ok || r == Err::<StepOk, StepError>(StepError::OutOfField) ==> final(self)@.wf(),
            r == Err::<StepOk, StepError>(StepError::Obstacle) ==> final(self)@.wf_moved()
                && final(self)@.counts() == old(self)@.advance().0.counts(),
    {
        let mut rng = ThreadRandom::new();
        let r = self.step_with(&mut rng);
        assert(tick_by(old(self)@, rng.drawn(), 0) == Some(((self@, r), rng.drawn().len() as int)));
        r
    }

    /// One tick of the game, with chance taken from `rng`: the snake moves
    /// one cell, unless it would leave the field or run into itself; each
    /// thing on the field is settled, until an obstacle under the head ends
    /// the round, after which nothing changes any more; then an obstacle may
    /// appear, and a mystery item.
    ///
    /// What is returned and where the snake lies afterwards is decided by
    /// the round as it was. In the rest chance has its part, which `luck`
    /// stands for: the round is afterwards as `tick` makes it of what chance
    /// decided. And what chance decided is what `luck_by` makes of the
    /// questions that `rng` was asked in the tick and of its answers, so that
    /// the round afterwards is decided by the round before and by the
    /// answers of `rng`.
    pub fn step_with<R: RandomSource>(&mut self, rng: &mut R) -> (r: Result<StepOk, StepError>)
        requires
            old(self)@.wf(),
            old(self)@.has_headroom(),
        ensures
            exists|luck: Luck|
                luck_fits(old(self)@, luck) && tick(old(self)@, luck) == (final(self)@, r),
            goes_on(old(rng).drawn(), final(rng).drawn()),
            tick_by(old(self)@, final(rng).drawn(), old(rng).drawn().len() as int) == Some(
                ((final(self)@, r), final(rng).drawn().len() as int),
            ),
            luck_by(old(self)@, final(rng).drawn(), old(rng).drawn().len() as int) matches Some(
                (luck, _),
            ) && luck_fits(old(self)@, luck),
            r == outcome(old(self)@),
            final(self)@.snake == old(self)@.advance().0.snake,
            final(self)@.score >= old(self)@.score,
            r matches Err(StepError::OutOfField) ==> final(self)@ == old(self)@,
            r is Ok ==> final(self)@.snake.len() == old(self)@.snake.len() + if old(self)@.grow
                > 0 {
                1int
            } else {
                0int
            },
            r is Ok || r == Err::<StepOk, StepError>(StepError::OutOfField) ==> final(self)@.wf(),
            r == Err::<StepOk, StepError>(StepError::Obstacle) ==> final(self)@.wf_moved()
                && final(self)@.counts() == old(self)@.advance().0.counts(),
    {
        proof {
            lemma_advance(old(self)@);
        }
        match self.advance() {
            Some(e) => {
                proof {
                    // chance has had no part in the tick
                    let luck = Luck { chances: Seq::empty(), obstacle: None, mystery: None };
                    assert(luck_fits(old(self)@, luck));
                    assert(luck_by(old(self)@, rng.drawn(), rng.drawn().len() as int) == Some(
                        (luck, rng.drawn().len() as int),
                    ));
                }
                Err(e)
            },
            None => {
                let (swept, chances) = self.sweep_things(rng);
                match swept {
                    Err(e) => {
                        proof {
                            let luck = Luck { chances: chances@, obstacle: None, mystery: None };
                            lemma_tick(old(self)@, luck);
                            assert(goes_on(rng.drawn(), rng.drawn()));
                            assert(luck_by(
                                old(self)@,
                                rng.drawn(),
                                old(rng).drawn().len() as int,
                            ) == Some((luck, rng.drawn().len() as int)));
                        }
                        Err(e)
                    },
                    Ok(ok) => {
                        proof {
                            lemma_sweep(old(self)@.advance().0, old(self)@.things.len(), chances@);
                        }
                        let ghost swept_at = rng.drawn();
                        let obstacle = self.maybe_add_obstacle(rng);
                        let ghost obstacle_at = rng.drawn();
                        let mystery = self.maybe_add_mystery(rng);
                        proof {
                            let luck = Luck {
                                chances: chances@,
                                obstacle: obstacle@,
                                mystery: mystery@,
                            };
                            lemma_tick(old(self)@, luck);
                            assert(goes_on(rng.drawn(), rng.drawn()));
                            assert(goes_on(obstacle_at, rng.drawn()));
                            assert(goes_on(swept_at, rng.drawn()));
                            assert(luck_by(
                                old(self)@,
                                rng.drawn(),
                                old(rng).drawn().len() as int,
                            ) == Some((luck, rng.drawn().len() as int)));
                        }
                        Ok(ok)
                    },
                }
            },
        }
    }

    /// Turns the head a quarter turn counter-clockwise.
    pub fn turn_left(&mut self)
        requires
            old(self)@.snake.len() > 0,
        ensures
            final(self)@ == old(self)@.turned_left(),
            old(self)@.wf() ==> final(self)@.wf(),
    {
        let head = self.snake[0];
        self.snake.set(0, SnakeCell { dir: head.dir.left(), ..head });
    }

    /// Turns the head a quarter turn clockwise.
    pub fn turn_right(&mut self)
        requires
            old(self)@.snake.len() > 0,
        ensures
            final(self)@ == old(self)@.turned_right(),
            old(self)@.wf() ==> final(self)@.wf(),
    {
        let head = self.snake[0];
        self.snake.set(0, SnakeCell { dir: head.dir.right(), ..head });
    }
}

} // verus!
