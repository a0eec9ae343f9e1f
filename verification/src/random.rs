//! Where the game gets its chance from.
//!
//! A source answers two kinds of questions, and keeps a record of the
//! questions and of its answers. Nothing is proved of how likely an answer
//! is; what is proved of the game is proved of every answer.

use rand::Rng;
use vstd::prelude::*;

verus! {

/// One question to a source, and its answer.
pub enum Draw {
    /// A number in `0..n` was asked for, and `r` was the answer.
    Below { n: u32, r: u32 },
    /// A yes or no at the given odds was asked for, and `b` was the answer.
    Ratio { numerator: u32, denominator: u32, b: bool },
}

/// A source of random numbers for the game.
pub trait RandomSource {
    /// All that the source has been asked so far, with its answers, the
    /// oldest first.
    spec fn drawn(&self) -> Seq<Draw>;

    /// A number in `0..n`, each equally likely.
    fn below(&mut self, n: u32) -> (r: u32)
        requires
            n > 0,
        ensures
            r < n,
            final(self).drawn() == old(self).drawn().push(Draw::Below { n, r }),
    ;

    /// `true` with a chance of `numerator` in `denominator`: always, where
    /// the two are equal, and never, where `numerator` is zero.
    fn ratio(&mut self, numerator: u32, denominator: u32) -> (b: bool)
        requires
            0 < denominator,
            numerator <= denominator,
        ensures
            numerator == denominator ==> b,
            numerator == 0 ==> !b,
            final(self).drawn() == old(self).drawn().push(
                Draw::Ratio { numerator, denominator, b },
            ),
    ;
}

/// Calls `Rng::gen_range` of the `rand` crate for the range `0..n`, on the
/// generator that `rand::thread_rng` hands out. The contract is believed, not
/// proved: the call panics on an empty range, and the number it returns lies
/// in the range.
#[verifier::external_body]
fn thread_below(n: u32) -> (r: u32)
    requires
        n > 0,
    ensures
        r < n,
{
    rand::thread_rng().gen_range(0..n)
}

/// Calls `Rng::gen_ratio` of the `rand` crate, on the generator that
/// `rand::thread_rng` hands out. The contract is believed, not proved: the
/// call panics where the denominator is zero or less than the numerator; it
/// returns `true` where the two are equal and `false` where the numerator is
/// zero; of what it returns otherwise nothing is claimed.
#[verifier::external_body]
fn thread_ratio(numerator: u32, denominator: u32) -> (b: bool)
    requires
        0 < denominator,
        numerator <= denominator,
    ensures
        numerator == denominator ==> b,
        numerator == 0 ==> !b,
{
    rand::thread_rng().gen_ratio(numerator, denominator)
}

/// The thread-local generator of the `rand` crate, with a record of what it
/// was asked.
pub struct ThreadRandom {
    drawn: Ghost<Seq<Draw>>,
}

impl ThreadRandom {
    /// The generator, not asked anything yet.
    pub fn new() -> (rng: ThreadRandom)
        ensures
            rng.drawn() == Seq::<Draw>::empty(),
    {
        ThreadRandom { drawn: Ghost(Seq::empty()) }
    }
}

impl RandomSource for ThreadRandom {
    closed spec fn drawn(&self) -> Seq<Draw> {
        self.drawn@
    }

    fn below(&mut self, n: u32) -> (r: u32) {
        let r = thread_below(n);
        self.drawn = Ghost(self.drawn@.push(Draw::Below { n, r }));
        r
    }

    fn ratio(&mut self, numerator: u32, denominator: u32) -> (b: bool) {
        let b = thread_ratio(numerator, denominator);
        self.drawn = Ghost(self.drawn@.push(Draw::Ratio { numerator, denominator, b }));
        b
    }
}

/// A source without chance: it hands out the numbers of a list in order,
/// and begins again at the end of the list. An empty list stands for zeros.
pub struct Replay {
    rolls: Vec<u32>,
    next: usize,
    drawn: Ghost<Seq<Draw>>,
}

impl Replay {
    /// The list that is handed out.
    pub closed spec fn rolls(&self) -> Seq<u32> {
        self.rolls@
    }

    /// Where in the list the next number lies.
    pub closed spec fn position(&self) -> int {
        if self.next < self.rolls@.len() {
            self.next as int
        } else {
            0
        }
    }

    /// The next number.
    pub open spec fn peek(&self) -> u32 {
        if self.rolls().len() == 0 {
            0
        } else {
            self.rolls()[self.position()]
        }
    }

    /// Where the next number lies once one was handed out.
    pub open spec fn position_after(&self) -> int {
        if self.position() + 1 < self.rolls().len() {
            self.position() + 1
        } else {
            0
        }
    }

    /// A source that hands out `rolls`, from the first.
    pub fn new(rolls: Vec<u32>) -> (r: Replay)
        ensures
            r.rolls() == rolls@,
            r.position() == 0,
            r.drawn() == Seq::<Draw>::empty(),
    {
        Replay { rolls, next: 0, drawn: Ghost(Seq::empty()) }
    }

    /// Hands out the next number as it is, which is no question by the
    /// rules of a source and is not recorded as one.
    pub fn roll(&mut self) -> (v: u32)
        ensures
            v == old(self).peek(),
            final(self).rolls() == old(self).rolls(),
            final(self).position() == old(self).position_after(),
            final(self).drawn() == old(self).drawn(),
    {
        let len = self.rolls.len();
        if len == 0 {
            0
        } else {
            let i = if self.next < len {
                self.next
            } else {
                0
            };
            self.next = if i + 1 < len {
                i + 1
            } else {
                0
            };
            self.rolls[i]
        }
    }
}

impl RandomSource for Replay {
    closed spec fn drawn(&self) -> Seq<Draw> {
        self.drawn@
    }

    /// The next number of the list, reduced to `0..n`.
    fn below(&mut self, n: u32) -> (r: u32)
        ensures
            r == old(self).peek() % n,
            final(self).rolls() == old(self).rolls(),
            final(self).position() == old(self).position_after(),
    {
        let r = self.roll() % n;
        self.drawn = Ghost(self.drawn@.push(Draw::Below { n, r }));
        r
    }

    /// Whether the next number of the list, reduced to `0..denominator`, is
    /// below `numerator`.
    fn ratio(&mut self, numerator: u32, denominator: u32) -> (b: bool)
        ensures
            b == (old(self).peek() % denominator < numerator),
            final(self).rolls() == old(self).rolls(),
            final(self).position() == old(self).position_after(),
    {
        let b = self.roll() % denominator < numerator;
        self.drawn = Ghost(self.drawn@.push(Draw::Ratio { numerator, denominator, b }));
        b
    }
}

} // verus!
