//! What chance decides in a tick, as a function of what the source of
//! chance was asked and what it answered.
//!
//! Each function here reads the record of a source from a place `at` on, and
//! gives what was decided together with the place where reading goes on; it
//! gives nothing where the record does not hold the questions that the game
//! asks.

use crate::model::{sweep, tick, Chance, Luck, Sweep, WorldState};
use crate::random::Draw;
use crate::world::{
    StepError, StepOk, Thing, ThingInField, CELLS, FIELD_SIZE, LEAN_AFTER_FOOD,
    MYSTERY_LIFETIME, MYSTERY_SCORE_P, OBSTACLE_LIFETIME, P_SCALE, SPAWN_TRIES,
};
use vstd::prelude::*;

verus! {

/// The record `rolls` holds all of `record`, and may go on after it.
pub open spec fn goes_on(record: Seq<Draw>, rolls: Seq<Draw>) -> bool {
    &&& record.len() <= rolls.len()
    &&& forall|i: int| 0 <= i < record.len() ==> #[trigger] rolls[i] == record[i]
}

/// The answer to the question for a number in `0..n` at the place `at`.
pub open spec fn ask_below(rolls: Seq<Draw>, at: int, n: u32) -> Option<(u32, int)> {
    if 0 <= at < rolls.len() {
        match rolls[at] {
            Draw::Below { n: asked, r } => if asked == n {
                Some((r, at + 1))
            } else {
                None
            },
            _ => None,
        }
    } else {
        None
    }
}

/// The answer to the question for a yes or no at the given odds at the
/// place `at`.
pub open spec fn ask_ratio(rolls: Seq<Draw>, at: int, odds: (u32, u32)) -> Option<(bool, int)> {
    if 0 <= at < rolls.len() {
        match rolls[at] {
            Draw::Ratio { numerator, denominator, b } => if numerator == odds.0 && denominator
                == odds.1 {
                Some((b, at + 1))
            } else {
                None
            },
            _ => None,
        }
    } else {
        None
    }
}

/// The free cell with the number `k` among the first `n` cells of the field,
/// the free cells counted from zero, row by row.
pub open spec fn free_cell(s: WorldState, k: nat, n: nat) -> Option<(u32, u32)>
    decreases n,
{
    if n == 0 {
        None
    } else {
        let x = (n - 1) % (FIELD_SIZE as int) + 1;
        let y = (n - 1) / (FIELD_SIZE as int) + 1;
        if s.is_empty_spot(x, y) && s.free_among((n - 1) as nat) == k {
            Some((x as u32, y as u32))
        } else {
            free_cell(s, k, (n - 1) as nat)
        }
    }
}

/// The cell that the search for a free cell finds: the first free one among
/// up to `tries` cells that are drawn; and where none of them is free, the
/// free cell whose number is drawn, if any cell is free.
pub open spec fn search(s: WorldState, rolls: Seq<Draw>, at: int, tries: nat) -> Option<
    (Option<(u32, u32)>, int),
>
    decreases tries,
{
    if tries == 0 {
        let free = s.free_among(CELLS as nat);
        if free == 0 {
            Some((None, at))
        } else {
            match ask_below(rolls, at, free as u32) {
                Some((k, next)) => Some((free_cell(s, k as nat, CELLS as nat), next)),
                None => None,
            }
        }
    } else {
        match ask_below(rolls, at, FIELD_SIZE) {
            Some((x, mid)) => match ask_below(rolls, mid, FIELD_SIZE) {
                Some((y, next)) => if s.is_empty_spot(x + 1, y + 1) {
                    Some((Some(((x + 1) as u32, (y + 1) as u32)), next))
                } else {
                    search(s, rolls, next, (tries - 1) as nat)
                },
                None => None,
            },
            None => None,
        }
    }
}

/// The food that a pass for food brings: a cell is looked for; lean food is
/// drawn for where enough food was eaten, fat food where the food is not
/// lean; and then the picture.
pub open spec fn food_by(s: WorldState, rolls: Seq<Draw>, at: int) -> Option<
    (Option<ThingInField>, int),
> {
    match search(s, rolls, at, SPAWN_TRIES as nat) {
        None => None,
        Some((None, next)) => Some((None, next)),
        Some((Some(spot), next)) => {
            let lean = if s.eaten_food >= LEAN_AFTER_FOOD {
                ask_ratio(rolls, next, Thing::Lean.spec_odds())
            } else {
                Some((false, next))
            };
            match lean {
                None => None,
                Some((lean, next)) => {
                    let fat = if lean {
                        Some((false, next))
                    } else {
                        ask_ratio(rolls, next, Thing::Fat.spec_odds())
                    };
                    match fat {
                        None => None,
                        Some((fat, next)) => match ask_below(
                            rolls,
                            next,
                            Thing::Food.spec_pictures() as u32,
                        ) {
                            None => None,
                            Some((picture, next)) => Some(
                                (
                                    ThingInField::spec_food_on(
                                        s.eaten_food as u32,
                                        Some(spot),
                                        lean,
                                        fat,
                                        picture as usize,
                                    ),
                                    next,
                                ),
                            ),
                        },
                    }
                },
            }
        },
    }
}

/// The obstacle or the mystery item that a pass for one brings: it is drawn
/// for at the odds of its kind; where chance is for it a cell is looked for,
/// and where one is found the picture is drawn.
pub open spec fn drawn_by(s: WorldState, what: Thing, lifetime: u32, rolls: Seq<Draw>, at: int)
    -> Option<(Option<ThingInField>, int)> {
    match ask_ratio(rolls, at, what.spec_odds()) {
        None => None,
        Some((false, next)) => Some((None, next)),
        Some((true, next)) => match search(s, rolls, next, SPAWN_TRIES as nat) {
            None => None,
            Some((None, next)) => Some((None, next)),
            Some((Some(spot), next)) => match ask_below(rolls, next, what.spec_pictures() as u32) {
                None => None,
                Some((picture, next)) => Some(
                    (
                        ThingInField::spec_drawn(what, lifetime, true, Some(spot), picture as usize),
                        next,
                    ),
                ),
            },
        },
    }
}

/// What chance decides while the next thing of a sweep is settled: how a
/// mystery item under the head pays out, and the food that comes where food
/// is due.
pub open spec fn chance_by(w: Sweep, rolls: Seq<Draw>, at: int) -> Option<(Chance, int)> {
    if w.is_hit() && w.thing().what == Thing::Mystery {
        match ask_ratio(rolls, at, (MYSTERY_SCORE_P, P_SCALE)) {
            Some((bonus, next)) => Some((Chance { bonus, food: None }, next)),
            None => None,
        }
    } else {
        match w.food_due() {
            Some(due) => match food_by(due, rolls, at) {
                Some((food, next)) => Some((Chance { bonus: false, food }, next)),
                None => None,
            },
            None => Some((Chance { bonus: false, food: None }, at)),
        }
    }
}

/// What chance decides while the first `n` things are settled, or as many
/// as are settled before an obstacle ends the round.
pub open spec fn chances_by(a: WorldState, n: nat, rolls: Seq<Draw>, at: int) -> Option<
    (Seq<Chance>, int),
>
    decreases n,
{
    if n == 0 {
        Some((Seq::empty(), at))
    } else {
        match chances_by(a, (n - 1) as nat, rolls, at) {
            None => None,
            Some((chances, next)) => if sweep(a, (n - 1) as nat, chances).outcome is Err {
                Some((chances, next))
            } else {
                match chance_by(sweep(a, (n - 1) as nat, chances), rolls, next) {
                    Some((c, next)) => Some((chances.push(c), next)),
                    None => None,
                }
            },
        }
    }
}

/// What chance decides in a tick that begins in `s`.
pub open spec fn luck_by(s: WorldState, rolls: Seq<Draw>, at: int) -> Option<(Luck, int)> {
    let (moved, stop) = s.advance();
    if stop is Some {
        Some((Luck { chances: Seq::empty(), obstacle: None, mystery: None }, at))
    } else {
        match chances_by(moved, moved.things.len(), rolls, at) {
            None => None,
            Some((chances, next)) => {
                let w = sweep(moved, moved.things.len(), chances);
                if w.outcome is Err {
                    Some((Luck { chances, obstacle: None, mystery: None }, next))
                } else {
                    match drawn_by(w.state, Thing::Obstacle, OBSTACLE_LIFETIME, rolls, next) {
                        None => None,
                        Some((obstacle, next)) => match drawn_by(
                            w.state.spawn(obstacle),
                            Thing::Mystery,
                            MYSTERY_LIFETIME,
                            rolls,
                            next,
                        ) {
                            None => None,
                            Some((mystery, next)) => Some(
                                (Luck { chances, obstacle, mystery }, next),
                            ),
                        },
                    }
                }
            },
        }
    }
}

/// The round after a tick that begins in `s`, and what the tick returns, by
/// what the source was asked and answered from the place `at` on; and the
/// place where the record goes on after the tick.
pub open spec fn tick_by(s: WorldState, rolls: Seq<Draw>, at: int) -> Option<
    ((WorldState, Result<StepOk, StepError>), int),
> {
    match luck_by(s, rolls, at) {
        Some((luck, next)) => Some((tick(s, luck), next)),
        None => None,
    }
}

/// The round that begins, by what the source was asked and answered.
pub open spec fn start_by(rolls: Seq<Draw>, at: int) -> Option<(WorldState, int)> {
    match food_by(WorldState::start(), rolls, at) {
        Some((food, next)) => Some((WorldState::start().spawn(food), next)),
        None => None,
    }
}

/// From the place `to` on, the record `other` holds what `rolls` holds from
/// `at` up to `next`.
pub open spec fn same_part(rolls: Seq<Draw>, at: int, next: int, other: Seq<Draw>, to: int) -> bool {
    &&& 0 <= at
    &&& 0 <= to
    &&& to + (next - at) <= other.len()
    &&& forall|i: int| at <= i < next ==> #[trigger] other[to + (i - at)] == rolls[i]
}

/// The search for a free cell reads the part of the record that it passes
/// over and nothing else.
pub proof fn search_reads_its_part(
    s: WorldState,
    rolls: Seq<Draw>,
    at: int,
    tries: nat,
    other: Seq<Draw>,
    to: int,
)
    requires
        search(s, rolls, at, tries) is Some,
        same_part(rolls, at, search(s, rolls, at, tries).unwrap().1, other, to),
    ensures
        at <= search(s, rolls, at, tries).unwrap().1,
        search(s, other, to, tries) == Some(
            (
                search(s, rolls, at, tries).unwrap().0,
                to + (search(s, rolls, at, tries).unwrap().1 - at),
            ),
        ),
    decreases tries,
{
    let next = search(s, rolls, at, tries).unwrap().1;
    if tries > 0 {
        let x = ask_below(rolls, at, FIELD_SIZE).unwrap().0;
        let y = ask_below(rolls, at + 1, FIELD_SIZE).unwrap().0;
        if !s.is_empty_spot(x + 1, y + 1) {
            assert(same_part(rolls, at + 2, next, other, to + 2)) by {
                assert forall|i: int| at + 2 <= i < next implies #[trigger] other[to + 2 + (i - (at
                    + 2))] == rolls[i] by {
                    assert(other[to + (i - at)] == rolls[i]);
                }
                search_grows(s, rolls, at + 2, (tries - 1) as nat);
            }
            search_reads_its_part(s, rolls, at + 2, (tries - 1) as nat, other, to + 2);
        }
        assert(other[to + (at - at)] == rolls[at]);
        assert(other[to + (at + 1 - at)] == rolls[at + 1]);
    } else if s.free_among(CELLS as nat) > 0 {
        assert(other[to + (at - at)] == rolls[at]);
    }
}

/// The search for a free cell goes forward in the record.
pub proof fn search_grows(s: WorldState, rolls: Seq<Draw>, at: int, tries: nat)
    requires
        search(s, rolls, at, tries) is Some,
    ensures
        at <= search(s, rolls, at, tries).unwrap().1,
    decreases tries,
{
    if tries > 0 {
        let x = ask_below(rolls, at, FIELD_SIZE).unwrap().0;
        let y = ask_below(rolls, at + 1, FIELD_SIZE).unwrap().0;
        if !s.is_empty_spot(x + 1, y + 1) {
            search_grows(s, rolls, at + 2, (tries - 1) as nat);
        }
    }
}

/// What holds the same part holds every part of it.
pub proof fn same_part_within(
    rolls: Seq<Draw>,
    at: int,
    next: int,
    other: Seq<Draw>,
    to: int,
    from: int,
    till: int,
)
    requires
        same_part(rolls, at, next, other, to),
        at <= from <= till <= next,
    ensures
        same_part(rolls, from, till, other, to + (from - at)),
        from < till ==> other[to + (from - at)] == rolls[from],
{
    assert forall|i: int| from <= i < till implies #[trigger] other[to + (from - at) + (i - from)]
        == rolls[i] by {
        assert(other[to + (i - at)] == rolls[i]);
    }
    if from < till {
        assert(other[to + (from - at)] == rolls[from]);
    }
}

/// A pass for food reads the part of the record that it passes over and
/// nothing else.
pub proof fn food_reads_its_part(s: WorldState, rolls: Seq<Draw>, at: int, other: Seq<Draw>, to: int)
    requires
        food_by(s, rolls, at) is Some,
        same_part(rolls, at, food_by(s, rolls, at).unwrap().1, other, to),
    ensures
        at <= food_by(s, rolls, at).unwrap().1,
        food_by(s, other, to) == Some(
            (food_by(s, rolls, at).unwrap().0, to + (food_by(s, rolls, at).unwrap().1 - at)),
        ),
{
    let end = food_by(s, rolls, at).unwrap().1;
    let (spot, found) = search(s, rolls, at, SPAWN_TRIES as nat).unwrap();
    search_grows(s, rolls, at, SPAWN_TRIES as nat);
    same_part_within(rolls, at, end, other, to, at, found);
    search_reads_its_part(s, rolls, at, SPAWN_TRIES as nat, other, to);
    if spot is Some {
        let leaned = if s.eaten_food >= LEAN_AFTER_FOOD {
            found + 1
        } else {
            found
        };
        let lean = s.eaten_food >= LEAN_AFTER_FOOD && ask_ratio(
            rolls,
            found,
            Thing::Lean.spec_odds(),
        ).unwrap().0;
        let fatted = if lean {
            leaned
        } else {
            leaned + 1
        };
        same_part_within(rolls, at, end, other, to, found, end);
        same_part_within(rolls, at, end, other, to, leaned, end);
        same_part_within(rolls, at, end, other, to, fatted, end);
    }
}

/// A pass for an obstacle or a mystery item reads the part of the record
/// that it passes over and nothing else.
pub proof fn drawn_reads_its_part(
    s: WorldState,
    what: Thing,
    lifetime: u32,
    rolls: Seq<Draw>,
    at: int,
    other: Seq<Draw>,
    to: int,
)
    requires
        drawn_by(s, what, lifetime, rolls, at) is Some,
        same_part(rolls, at, drawn_by(s, what, lifetime, rolls, at).unwrap().1, other, to),
    ensures
        at <= drawn_by(s, what, lifetime, rolls, at).unwrap().1,
        drawn_by(s, what, lifetime, other, to) == Some(
            (
                drawn_by(s, what, lifetime, rolls, at).unwrap().0,
                to + (drawn_by(s, what, lifetime, rolls, at).unwrap().1 - at),
            ),
        ),
{
    let end = drawn_by(s, what, lifetime, rolls, at).unwrap().1;
    let hit = ask_ratio(rolls, at, what.spec_odds()).unwrap().0;
    if hit {
        let (spot, found) = search(s, rolls, at + 1, SPAWN_TRIES as nat).unwrap();
        search_grows(s, rolls, at + 1, SPAWN_TRIES as nat);
        same_part_within(rolls, at, end, other, to, at, end);
        same_part_within(rolls, at, end, other, to, at + 1, found);
        search_reads_its_part(s, rolls, at + 1, SPAWN_TRIES as nat, other, to + 1);
        same_part_within(rolls, at, end, other, to, found, end);
    } else {
        same_part_within(rolls, at, end, other, to, at, end);
    }
}

/// What chance decides while a thing is settled is read from the part of
/// the record that is passed over and from nothing else.
pub proof fn chance_reads_its_part(w: Sweep, rolls: Seq<Draw>, at: int, other: Seq<Draw>, to: int)
    requires
        chance_by(w, rolls, at) is Some,
        same_part(rolls, at, chance_by(w, rolls, at).unwrap().1, other, to),
    ensures
        at <= chance_by(w, rolls, at).unwrap().1,
        chance_by(w, other, to) == Some(
            (chance_by(w, rolls, at).unwrap().0, to + (chance_by(w, rolls, at).unwrap().1 - at)),
        ),
{
    let end = chance_by(w, rolls, at).unwrap().1;
    if w.is_hit() && w.thing().what == Thing::Mystery {
        same_part_within(rolls, at, end, other, to, at, end);
    } else if w.food_due() is Some {
        food_reads_its_part(w.food_due().unwrap(), rolls, at, other, to);
    }
}

/// What chance decides while things are settled is read from the part of
/// the record that is passed over and from nothing else.
pub proof fn chances_read_their_part(
    a: WorldState,
    n: nat,
    rolls: Seq<Draw>,
    at: int,
    other: Seq<Draw>,
    to: int,
)
    requires
        chances_by(a, n, rolls, at) is Some,
        same_part(rolls, at, chances_by(a, n, rolls, at).unwrap().1, other, to),
    ensures
        at <= chances_by(a, n, rolls, at).unwrap().1,
        chances_by(a, n, other, to) == Some(
            (
                chances_by(a, n, rolls, at).unwrap().0,
                to + (chances_by(a, n, rolls, at).unwrap().1 - at),
            ),
        ),
    decreases n,
{
    if n > 0 {
        let end = chances_by(a, n, rolls, at).unwrap().1;
        let (chances, mid) = chances_by(a, (n - 1) as nat, rolls, at).unwrap();
        let w = sweep(a, (n - 1) as nat, chances);
        chances_grow(a, (n - 1) as nat, rolls, at);
        if w.outcome is Ok {
            chance_grows(w, rolls, mid);
            same_part_within(rolls, at, end, other, to, at, mid);
            chances_read_their_part(a, (n - 1) as nat, rolls, at, other, to);
            same_part_within(rolls, at, end, other, to, mid, end);
            chance_reads_its_part(w, rolls, mid, other, to + (mid - at));
        } else {
            chances_read_their_part(a, (n - 1) as nat, rolls, at, other, to);
        }
    }
}

/// A pass for food goes forward in the record.
pub proof fn food_grows(s: WorldState, rolls: Seq<Draw>, at: int)
    requires
        food_by(s, rolls, at) is Some,
    ensures
        at <= food_by(s, rolls, at).unwrap().1,
{
    search_grows(s, rolls, at, SPAWN_TRIES as nat);
}

/// A pass for an obstacle or a mystery item goes forward in the record.
pub proof fn drawn_grows(s: WorldState, what: Thing, lifetime: u32, rolls: Seq<Draw>, at: int)
    requires
        drawn_by(s, what, lifetime, rolls, at) is Some,
    ensures
        at <= drawn_by(s, what, lifetime, rolls, at).unwrap().1,
{
    if ask_ratio(rolls, at, what.spec_odds()).unwrap().0 {
        search_grows(s, rolls, at + 1, SPAWN_TRIES as nat);
    }
}

/// Settling a thing goes forward in the record.
pub proof fn chance_grows(w: Sweep, rolls: Seq<Draw>, at: int)
    requires
        chance_by(w, rolls, at) is Some,
    ensures
        at <= chance_by(w, rolls, at).unwrap().1,
{
    if !(w.is_hit() && w.thing().what == Thing::Mystery) && w.food_due() is Some {
        food_grows(w.food_due().unwrap(), rolls, at);
    }
}

/// Settling things goes forward in the record.
pub proof fn chances_grow(a: WorldState, n: nat, rolls: Seq<Draw>, at: int)
    requires
        chances_by(a, n, rolls, at) is Some,
    ensures
        at <= chances_by(a, n, rolls, at).unwrap().1,
    decreases n,
{
    if n > 0 {
        chances_grow(a, (n - 1) as nat, rolls, at);
        let (chances, mid) = chances_by(a, (n - 1) as nat, rolls, at).unwrap();
        let w = sweep(a, (n - 1) as nat, chances);
        if w.outcome is Ok {
            chance_grows(w, rolls, mid);
        }
    }
}

} // verus!
