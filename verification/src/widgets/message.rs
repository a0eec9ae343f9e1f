//! A line that only shows a text.

use crate::widgets::widget::{Event, Widget};
use vstd::prelude::*;

verus! {

/// A line of a menu that only shows a text.
pub struct Message {
    content: String,
}

impl Message {
    /// The text of the message.
    pub closed spec fn content(&self) -> Seq<char> {
        self.content@
    }

    /// A message with the given text.
    pub fn new(content: String) -> (m: Message)
        ensures
            m.content() == content@,
    {
        Self { content }
    }
}

impl Widget for Message {
    open spec fn valid(&self) -> bool {
        true
    }

    open spec fn activatable(&self) -> bool {
        false
    }

    open spec fn text(&self) -> Seq<char> {
        self.content()
    }

    open spec fn holds_result(&self) -> bool {
        false
    }

    open spec fn closes(&self, event: Event) -> bool {
        false
    }

    fn can_activate(&self) -> (b: bool) {
        false
    }

    fn present(&self) -> (text: &String) {
        &self.content
    }

    /// Not to be called: a message holds no result, so that no caller can
    /// say of one that it does.
    fn result(&self) -> (r: usize) {
        0
    }

    /// Not to be called: a message cannot be activated, so that no caller
    /// can say of one that it can, and a menu feeds it nothing.
    fn feed(&mut self, event: Event) -> (close: bool) {
        false
    }
}

} // verus!
