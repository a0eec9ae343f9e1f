//! What the game asks of whatever plays its sounds.

use vstd::prelude::*;

verus! {

/// The volume of the mixer that one level of the settings stands for.
pub const VOLUME_STEP: i32 = 16;

/// The sounds and the music as a whole.
pub trait Player {
    /// Whether anything can be heard at all.
    fn sound_enabled(&self) -> bool;

    fn set_music_volume(&self, level: usize);

    fn play_music(&self);

    fn set_fx_volume(&mut self, level: usize);
}

/// The sound effects of the game, one method each.
pub trait Fx {
    fn boom(&self);

    fn food(&self);

    fn mystery(&self);

    fn obstacle(&self);

    fn start(&self);

    fn wall(&self);
}

/// All a game needs to be heard.
pub trait SoundPlayer: Fx + Player {
}

/// A player for a machine without sound: it plays nothing.
pub struct NoSounds;

impl Player for NoSounds {
    fn sound_enabled(&self) -> (enabled: bool)
        ensures
            !enabled,
    {
        false
    }

    fn set_music_volume(&self, _level: usize) {
    }

    fn play_music(&self) {
    }

    fn set_fx_volume(&mut self, _level: usize) {
    }
}

impl Fx for NoSounds {
    fn boom(&self) {
    }

    fn food(&self) {
    }

    fn mystery(&self) {
    }

    fn obstacle(&self) {
    }

    fn start(&self) {
    }

    fn wall(&self) {
    }
}

impl SoundPlayer for NoSounds {
}

/// The choice of a player, and what the settings mean to one.
pub struct Sound;

impl Sound {
    /// The volume of the mixer for a level of the settings.
    pub fn volume(level: usize) -> (volume: i32)
        requires
            VOLUME_STEP * level <= i32::MAX,
        ensures
            volume == VOLUME_STEP * level,
    {
        VOLUME_STEP * (level as i32)
    }

    /// A player that plays nothing, for when sound cannot be had.
    pub fn silent() -> NoSounds {
        NoSounds
    }
}

} // verus!
