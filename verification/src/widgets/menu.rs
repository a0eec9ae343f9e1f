//! A menu: lines of which one is marked, and what the keys do to it.

use crate::widgets::widget::{after, before, Event, Key, Widget};
use vstd::prelude::*;
use vstd::string::StringExecFns;

verus! {

/// How a menu was closed by a key that closes any menu.
#[derive(Clone, Copy, Debug, PartialEq, Eq, Structural)]
pub enum DialogResult {
    Okay,
    Cancel,
}

/// How a menu was closed.
#[derive(Clone, Copy, Debug, PartialEq, Eq, Structural)]
pub enum DialogReturn {
    /// By a key that closes any menu.
    Result(DialogResult),
    /// By the widget at this index.
    Index(usize),
}

/// What a menu asks of whoever runs it, after an event.
#[derive(Clone, Copy, Debug, PartialEq, Eq, Structural)]
pub struct Reaction {
    /// The event was a key that the menu took: a click is to be heard.
    pub click: bool,
    /// The menu is closed, and this is what it returns.
    pub close: Option<DialogReturn>,
}

/// How many of the first `i` flags are set.
pub open spec fn rank(flags: Seq<bool>, i: int) -> int
    decreases i,
{
    if i <= 0 {
        0
    } else {
        rank(flags, i - 1) + if flags[i - 1] {
            1int
        } else {
            0int
        }
    }
}

/// The count of flags that are set does not fall as more are counted.
pub proof fn rank_grows(flags: Seq<bool>, i: int, j: int)
    requires
        i <= j,
    ensures
        rank(flags, i) <= rank(flags, j),
    decreases j - i,
{
    if i < j {
        rank_grows(flags, i, j - 1);
    }
}

/// The text of a line that is marked.
pub open spec fn marked(text: Seq<char>) -> Seq<char> {
    "- "@ + text + " -"@
}

/// What a menu does on an event, the widgets aside: whether it clicks, the
/// widget that is marked afterwards, and whether it closes by itself.
pub open spec fn reaction(total: int, activated: int, event: Event) -> (bool, int, Option<DialogResult>) {
    match event {
        Event::KeyDown(key) => if (key == Key::Down) && total > 0 {
            (true, after(activated, total), None)
        } else if (key == Key::Up) && total > 0 {
            (true, before(activated, total), None)
        } else if (key == Key::Space) && total == 0 {
            (true, activated, Some(DialogResult::Okay))
        } else if key == Key::Escape {
            (true, activated, Some(DialogResult::Cancel))
        } else {
            (total > 0, activated, None)
        },
        _ => (false, activated, None),
    }
}

/// The event is one that a menu hands on to the widget it has marked.
pub open spec fn is_handed_on(total: int, event: Event) -> bool {
    event matches Event::KeyDown(key) && total > 0 && key != Key::Down && key != Key::Up && key
        != Key::Escape
}

/// For each of the widgets, whether it can be activated.
pub open spec fn flags_of(widgets: Seq<&mut dyn Widget>) -> Seq<bool> {
    Seq::new(widgets.len(), |i: int| widgets[i].activatable())
}

/// For each of the widgets, its text.
pub open spec fn texts_of(widgets: Seq<&mut dyn Widget>) -> Seq<Seq<char>> {
    Seq::new(widgets.len(), |i: int| widgets[i].text())
}

/// A menu: widgets one below the other, of which one is marked.
pub struct Menu<'a> {
    widgets: Vec<&'a mut dyn Widget>,
    /// How many widgets can be activated.
    total: usize,
    /// Which of the widgets that can be activated is marked, counting those
    /// only.
    activated: usize,
    /// The widget that was marked when the menu was last shown.
    shown: Option<usize>,
}

impl<'a> Menu<'a> {
    /// How many widgets the menu has.
    pub closed spec fn len(&self) -> int {
        self.widgets@.len() as int
    }

    /// For each widget, whether it can be activated.
    pub closed spec fn flags(&self) -> Seq<bool> {
        flags_of(self.widgets@)
    }

    /// For each widget, its text.
    pub closed spec fn texts(&self) -> Seq<Seq<char>> {
        texts_of(self.widgets@)
    }

    /// For each widget, whether feeding it `event` closes the menu.
    pub closed spec fn closing(&self, event: Event) -> Seq<bool> {
        Seq::new(self.widgets@.len(), |i: int| self.widgets@[i].closes(event))
    }

    /// How many widgets can be activated.
    pub open spec fn total(&self) -> int {
        rank(self.flags(), self.len())
    }

    /// Which of the widgets that can be activated is marked, counting those
    /// only.
    pub closed spec fn activated(&self) -> int {
        self.activated as int
    }

    /// The index of the widget that was marked when the menu was last shown.
    pub closed spec fn shown(&self) -> Option<int> {
        match self.shown {
            Some(k) => Some(k as int),
            None => None,
        }
    }

    /// The menu is in order: its widgets are; the widget that is marked is
    /// one of those that can be activated, and so is the one that was marked
    /// when the menu was last shown; and one was, if any can be activated.
    pub closed spec fn wf(&self) -> bool {
        &&& forall|i: int|
            #![trigger self.widgets@[i]]
            0 <= i < self.widgets@.len() ==> self.widgets@[i].valid()
        &&& self.total == rank(self.flags(), self.len())
        &&& self.total > 0 ==> self.activated < self.total
        &&& self.total > 0 ==> self.shown is Some
        &&& self.shown matches Some(k) ==> k < self.widgets@.len() && self.widgets@[k as int].activatable()
    }

    /// The widget at index `i` is the one that is marked.
    pub open spec fn is_marked(&self, i: int) -> bool {
        0 <= i < self.len() && self.flags()[i] && rank(self.flags(), i) == self.activated()
    }

    /// A menu of `widgets`, with the first that can be activated marked.
    pub fn new(widgets: Vec<&'a mut dyn Widget>) -> (m: Self)
        requires
            forall|i: int| #![trigger widgets@[i]] 0 <= i < widgets@.len() ==> widgets@[i].valid(),
        ensures
            m.wf(),
            m.len() == widgets@.len(),
            m.flags() == flags_of(widgets@),
            m.texts() == texts_of(widgets@),
            m.activated() == 0,
            m.shown() matches Some(k) ==> m.is_marked(k),
            m.total() > 0 ==> m.shown() is Some,
    {
        let ghost given = widgets@;
        let mut m = Menu { widgets, total: 0, activated: 0, shown: None };
        let mut total: usize = 0;
        let mut i: usize = 0;
        while i < m.widgets.len()
            invariant
                m.widgets@ == given,
                i <= m.widgets@.len(),
                total == rank(m.flags(), i as int),
                total <= i,
                forall|k: int|
                    #![trigger m.widgets@[k]]
                    0 <= k < m.widgets@.len() ==> m.widgets@[k].valid(),
                m.shown matches Some(k) ==> k < i && m.is_marked(k as int),
                total > 0 ==> m.shown is Some,
                m.activated == 0,
            decreases m.widgets@.len() - i,
        {
            if m.widgets[i].can_activate() {
                if total == 0 {
                    m.shown = Some(i);
                }
                total += 1;
            }
            i += 1;
        }
        m.total = total;
        m
    }

    /// The lines of the menu as they are to be shown: the text of each
    /// widget, and that of the marked one between dashes. The menu
    /// remembers which one that was.
    pub fn show(&mut self) -> (lines: Vec<String>)
        requires
            old(self).wf(),
        ensures
            final(self).wf(),
            final(self).len() == old(self).len(),
            final(self).flags() == old(self).flags(),
            final(self).texts() == old(self).texts(),
            final(self).activated() == old(self).activated(),
            final(self).shown() matches Some(k) ==> final(self).is_marked(k),
            final(self).total() > 0 ==> final(self).shown() is Some,
            lines@.len() == final(self).len(),
            forall|i: int|
                0 <= i < lines@.len() ==> (#[trigger] lines@[i])@ == if final(self).is_marked(i) {
                    marked(final(self).texts()[i])
                } else {
                    final(self).texts()[i]
                },
    {
        let mut lines: Vec<String> = Vec::new();
        let mut current: usize = 0;
        let mut found: Option<usize> = None;
        let mut i: usize = 0;
        while i < self.widgets.len()
            invariant
                self.wf(),
                i <= self.widgets@.len(),
                current == rank(self.flags(), i as int),
                current <= i,
                found matches Some(k) ==> k < i && self.is_marked(k as int),
                current > self.activated ==> found is Some,
                lines@.len() == i,
                forall|k: int|
                    0 <= k < i ==> (#[trigger] lines@[k])@ == if self.is_marked(k) {
                        marked(self.texts()[k])
                    } else {
                        self.texts()[k]
                    },
            decreases self.widgets@.len() - i,
        {
            proof {
                rank_grows(self.flags(), i as int + 1, self.len());
            }
            let text = self.widgets[i].present();
            let mut line = text.clone();
            if self.total > 0 && self.widgets[i].can_activate() {
                if self.activated == current {
                    line = String::from_str("- ").concat(text.as_str()).concat(" -");
                    found = Some(i);
                }
                current += 1;
            }
            lines.push(line);
            i += 1;
        }
        self.shown = found;
        lines
    }

    /// What the menu does on an event. The arrows up and down move the mark,
    /// going round at the ends; escape closes the menu, and so does the
    /// space bar where no widget can be activated; any other key goes to the
    /// widget that was marked when the menu was last shown, which may close
    /// the menu. Each key that does one of these clicks.
    pub fn feed(&mut self, event: Event) -> (r: Reaction)
        requires
            old(self).wf(),
        ensures
            final(self).wf(),
            final(self).len() == old(self).len(),
            final(self).flags() == old(self).flags(),
            final(self).shown() == old(self).shown(),
            r.click == reaction(old(self).total(), old(self).activated(), event).0,
            final(self).activated() == reaction(old(self).total(), old(self).activated(), event).1,
            r.close == if is_handed_on(old(self).total(), event) {
                if old(self).closing(event)[old(self).shown().unwrap()] {
                    Some(DialogReturn::Index(old(self).shown().unwrap() as usize))
                } else {
                    None
                }
            } else {
                match reaction(old(self).total(), old(self).activated(), event).2 {
                    Some(result) => Some(DialogReturn::Result(result)),
                    None => None,
                }
            },
            forall|i: int|
                0 <= i < old(self).len() && !(is_handed_on(old(self).total(), event) && old(
                    self,
                ).shown() == Some(i)) ==> final(self).texts()[i] == old(self).texts()[i],
    {
        let total = self.total;
        match event {
            Event::KeyDown(key) => {
                if key == Key::Down && total > 0 {
                    self.activated = if self.activated + 1 == total {
                        0
                    } else {
                        self.activated + 1
                    };
                    Reaction { click: true, close: None }
                } else if key == Key::Up && total > 0 {
                    self.activated = if self.activated == 0 {
                        total - 1
                    } else {
                        self.activated - 1
                    };
                    Reaction { click: true, close: None }
                } else if key == Key::Space && total == 0 {
                    Reaction { click: true, close: Some(DialogReturn::Result(DialogResult::Okay)) }
                } else if key == Key::Escape {
                    Reaction { click: true, close: Some(DialogReturn::Result(DialogResult::Cancel)) }
                } else if total > 0 {
                    let number = self.shown.unwrap();
                    let closed = self.widgets[number].feed(event);
                    assert(self.flags() =~= old(self).flags());
                    if closed {
                        Reaction { click: true, close: Some(DialogReturn::Index(number)) }
                    } else {
                        Reaction { click: true, close: None }
                    }
                } else {
                    Reaction { click: false, close: None }
                }
            },
            _ => Reaction { click: false, close: None },
        }
    }
}

} // verus!
