//! What all widgets have in common, and what is fed to them.

use vstd::prelude::*;

verus! {

/// A key of the keyboard, as far as the menus tell keys apart.
#[derive(Clone, Copy, Debug, PartialEq, Eq, Structural)]
pub enum Key {
    Return,
    Space,
    Left,
    Right,
    Up,
    Down,
    Escape,
    Other,
}

/// What reaches a menu from outside.
#[derive(Clone, Copy, Debug, PartialEq, Eq, Structural)]
pub enum Event {
    /// The window is to be closed.
    Quit,
    /// A key went down.
    KeyDown(Key),
    /// Anything else.
    Other,
}

/// The index before `chosen` among `total`, and the last one before the first.
pub open spec fn before(chosen: int, total: int) -> int {
    if chosen == 0 {
        total - 1
    } else {
        chosen - 1
    }
}

/// The index after `chosen` among `total`, and the first one after the last.
pub open spec fn after(chosen: int, total: int) -> int {
    if chosen + 1 == total {
        0
    } else {
        chosen + 1
    }
}

/// Going to the index before or after is counting round and round: adding
/// one, or taking one away, and keeping the remainder by `total`.
pub proof fn going_round(chosen: int, total: int)
    requires
        0 <= chosen < total,
    ensures
        before(chosen, total) == (chosen + total - 1) % total,
        after(chosen, total) == (chosen + 1) % total,
        0 <= before(chosen, total) < total,
        0 <= after(chosen, total) < total,
{
    assert(before(chosen, total) == (chosen + total - 1) % total) by (nonlinear_arith)
        requires
            0 <= chosen < total,
            before(chosen, total) == if chosen == 0 {
                total - 1
            } else {
                chosen - 1
            },
    ;
    assert(after(chosen, total) == (chosen + 1) % total) by (nonlinear_arith)
        requires
            0 <= chosen < total,
            after(chosen, total) == if chosen + 1 == total {
                0
            } else {
                chosen + 1
            },
    ;
}

/// A line of a menu.
pub trait Widget {
    /// The widget is in order: its methods ask for that and keep it so.
    spec fn valid(&self) -> bool;

    /// The widget can be marked and fed events.
    spec fn activatable(&self) -> bool;

    /// The text that stands for the widget.
    spec fn text(&self) -> Seq<char>;

    /// The widget holds a result that can be asked for.
    spec fn holds_result(&self) -> bool;

    /// Feeding `event` to the widget closes the menu.
    spec fn closes(&self, event: Event) -> bool;

    fn can_activate(&self) -> (b: bool)
        requires
            self.valid(),
        ensures
            b == self.activatable(),
    ;

    fn present(&self) -> (text: &String)
        requires
            self.valid(),
        ensures
            text@ == self.text(),
    ;

    fn result(&self) -> (r: usize)
        requires
            self.valid(),
            self.holds_result(),
    ;

    /// Feeds an event to the widget, and says whether the menu it belongs to
    /// is to be closed.
    fn feed(&mut self, event: Event) -> (close: bool)
        requires
            old(self).valid(),
            old(self).activatable(),
        ensures
            final(self).valid(),
            final(self).activatable() == old(self).activatable(),
            final(self).holds_result() == old(self).holds_result(),
            close == old(self).closes(event),
    ;
}

} // verus!
