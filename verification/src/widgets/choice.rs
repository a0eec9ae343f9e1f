//! A line on which one of several items is chosen with the arrow keys.

use crate::widgets::widget::{after, before, Event, Key, Widget};
use vstd::prelude::*;
use vstd::string::StringExecFns;

verus! {

/// The text for a choice named `name` on which `item` is chosen.
pub open spec fn presentation(name: Seq<char>, item: Seq<char>) -> Seq<char> {
    name + " > "@ + item + " <"@
}

/// A line of a menu that shows one of several items, the one that is
/// chosen.
pub struct Choice<'a> {
    name: String,
    content: &'a Vec<String>,
    chosen: usize,
    presentation: String,
}

impl<'a> Choice<'a> {
    /// What the choice is about.
    pub closed spec fn name(&self) -> Seq<char> {
        self.name@
    }

    /// The items to choose from.
    pub closed spec fn items(&self) -> Seq<String> {
        self.content@
    }

    /// The index of the item that is chosen.
    pub closed spec fn chosen(&self) -> int {
        self.chosen as int
    }

    /// The text that is kept for showing.
    pub closed spec fn shown(&self) -> Seq<char> {
        self.presentation@
    }

    /// A choice named `name` among `content`, with the item at `chosen`
    /// chosen to begin with.
    pub fn new(name: String, content: &'a Vec<String>, chosen: usize) -> (c: Self)
        requires
            chosen < content.len(),
        ensures
            c.valid(),
            c.name() == name@,
            c.items() == content@,
            c.chosen() == chosen,
    {
        let presentation = name.clone().concat(" > ").concat(content[chosen].as_str()).concat(" <");
        Self { name, content, chosen, presentation }
    }

    /// Makes the text show the item that is chosen.
    fn update_presentation(&mut self)
        requires
            old(self).chosen() < old(self).items().len(),
        ensures
            final(self).valid(),
            final(self).name() == old(self).name(),
            final(self).items() == old(self).items(),
            final(self).chosen() == old(self).chosen(),
    {
        self.presentation = self.name.clone().concat(" > ").concat(
            self.content[self.chosen].as_str(),
        ).concat(" <");
    }
}

impl<'a> Widget for Choice<'a> {
    /// An item is chosen, and the text shows it.
    open spec fn valid(&self) -> bool {
        &&& 0 <= self.chosen() < self.items().len()
        &&& self.shown() == presentation(self.name(), self.items()[self.chosen()]@)
    }

    open spec fn activatable(&self) -> bool {
        true
    }

    open spec fn text(&self) -> Seq<char> {
        self.shown()
    }

    open spec fn holds_result(&self) -> bool {
        true
    }

    open spec fn closes(&self, event: Event) -> bool {
        false
    }

    fn can_activate(&self) -> (b: bool) {
        true
    }

    fn present(&self) -> (text: &String) {
        &self.presentation
    }

    /// The index of the item that is chosen.
    fn result(&self) -> (r: usize)
        ensures
            r == self.chosen(),
    {
        self.chosen
    }

    /// The left arrow chooses the item before, the right arrow the item
    /// after, going round at the ends; other events change nothing.
    fn feed(&mut self, event: Event) -> (close: bool)
        ensures
            final(self).name() == old(self).name(),
            final(self).items() == old(self).items(),
            final(self).chosen() == match event {
                Event::KeyDown(Key::Left) => before(old(self).chosen(), old(self).items().len() as int),
                Event::KeyDown(Key::Right) => after(old(self).chosen(), old(self).items().len() as int),
                _ => old(self).chosen(),
            },
    {
        let total = self.content.len();
        match event {
            Event::KeyDown(Key::Left) => {
                self.chosen = if self.chosen == 0 {
                    total - 1
                } else {
                    self.chosen - 1
                };
                self.update_presentation();
            },
            Event::KeyDown(Key::Right) => {
                self.chosen = if self.chosen + 1 == total {
                    0
                } else {
                    self.chosen + 1
                };
                self.update_presentation();
            },
            _ => {},
        }
        false
    }
}

} // verus!
