//! A line that closes the menu when it is chosen.

use crate::widgets::widget::{Event, Key, Widget};
use vstd::prelude::*;

verus! {

/// A line of a menu that closes the menu when it is chosen.
pub struct Action {
    content: String,
}

impl Action {
    /// The text of the action.
    pub closed spec fn content(&self) -> Seq<char> {
        self.content@
    }

    /// An action with the given text.
    pub fn new(content: String) -> (a: Action)
        ensures
            a.content() == content@,
    {
        Self { content }
    }
}

impl Widget for Action {
    open spec fn valid(&self) -> bool {
        true
    }

    open spec fn activatable(&self) -> bool {
        true
    }

    open spec fn text(&self) -> Seq<char> {
        self.content()
    }

    open spec fn holds_result(&self) -> bool {
        false
    }

    /// Return and the space bar choose the action.
    open spec fn closes(&self, event: Event) -> bool {
        event == Event::KeyDown(Key::Return) || event == Event::KeyDown(Key::Space)
    }

    fn can_activate(&self) -> (b: bool) {
        true
    }

    fn present(&self) -> (text: &String) {
        &self.content
    }

    /// Not to be called: an action holds no result, so that no caller can
    /// say of one that it does.
    fn result(&self) -> (r: usize) {
        0
    }

    fn feed(&mut self, event: Event) -> (close: bool)
        ensures
            final(self).content() == old(self).content(),
    {
        match event {
            Event::KeyDown(Key::Return) => true,
            Event::KeyDown(Key::Space) => true,
            _ => false,
        }
    }
}

} // verus!
