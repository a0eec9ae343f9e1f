//! The parts of which a menu is made.

pub mod action;
pub mod choice;
pub mod widget;
pub mod menu;
pub mod message;

pub use action::Action;
pub use choice::Choice;
pub use widget::{Event, Key, Widget};
pub use menu::{DialogResult, DialogReturn, Menu, Reaction};
pub use message::Message;
