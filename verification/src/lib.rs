//! The game of the snake, as far as it can be proved right: a snake on a
//! bounded field, the short-lived things that appear around it, and the rules
//! of one tick; and around that the menus, the settings, and what the picture
//! and the sound of a round are made of.
//!
//! `world` holds the round and its tick, `model` says in mathematics what a
//! tick does, and `laws` what holds of it. Chance comes in through `random`,
//! whose sources keep a record of what they were asked; `rolls` says what a
//! tick makes of that record.

pub mod config;
pub mod laws;
pub mod lemmas;
pub mod model;
pub mod play;
pub mod random;
pub mod rolls;
pub mod screen;
pub mod sound;
pub mod widgets;
pub mod world;
