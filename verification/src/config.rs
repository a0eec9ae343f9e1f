//! The settings of the game, and how they change.

use crate::widgets::menu::{DialogResult, DialogReturn};
use vstd::prelude::*;

verus! {

/// The version of the settings that this game writes.
pub const RNAKE_CONFIG_VERSION: u8 = 2;

/// How many speeds there are to choose from.
pub const SPEEDS: usize = 3;

/// The loudest level of the music, the menu sounds and the game sounds.
pub const MAX_VOLUME: usize = 8;

/// The settings as version 1 of the game wrote them.
#[derive(Clone, Copy, Debug, PartialEq, Eq, Structural)]
pub struct RnakeConfigV1 {
    pub chosen_level: usize,
    pub last_level: usize,
    pub speed_index: usize,
    pub version: u8,
}

impl Default for RnakeConfigV1 {
    fn default() -> (cfg: Self)
        ensures
            cfg == (RnakeConfigV1 { chosen_level: 1, last_level: 1, speed_index: 1, version: 1 }),
    {
        Self { chosen_level: 1, last_level: 1, speed_index: 1, version: 1 }
    }
}

/// The settings.
#[derive(Clone, Copy, Debug, PartialEq, Eq, Structural)]
pub struct RnakeConfigV2 {
    /// The level to play, counted from 1.
    pub chosen_level: usize,
    /// The highest level that can be chosen.
    pub last_level: usize,
    /// 0 for slow, 1 for normal, 2 for fast.
    pub speed_index: usize,
    pub music_volume: usize,
    pub menu_volume: usize,
    pub fx_volume: usize,
    pub version: u8,
}

/// The settings as this game writes them.
pub type Configuration = RnakeConfigV2;

/// What to do with the settings that are stored, by the version they have.
#[derive(Clone, Copy, Debug, PartialEq, Eq, Structural)]
pub enum Stored {
    /// They are of this version: read them.
    Current,
    /// There are none: take the defaults and store them.
    Missing,
    /// They are of version 1: read them, bring them up to date and store
    /// them.
    Version1,
}

/// The levels of the three kinds of sound.
#[derive(Clone, Copy, Debug, PartialEq, Eq, Structural)]
pub struct Volumes {
    pub music: usize,
    pub menu: usize,
    pub fx: usize,
}

/// What the player chose in the dialog of the settings.
#[derive(Clone, Copy, Debug, PartialEq, Eq, Structural)]
pub struct Chosen {
    /// The index of the speed.
    pub speed: usize,
    /// The index of the level, which is one less than the level.
    pub level: usize,
    /// The levels of the sounds, where there is sound.
    pub volumes: Option<Volumes>,
}

impl Default for RnakeConfigV2 {
    fn default() -> (cfg: Self)
        ensures
            cfg == RnakeConfigV2::spec_default(),
    {
        Self {
            chosen_level: 1,
            last_level: 1,
            speed_index: 1,
            music_volume: 4,
            menu_volume: 6,
            fx_volume: 6,
            version: RNAKE_CONFIG_VERSION,
        }
    }
}

impl RnakeConfigV2 {
    /// The settings of a game that has none yet.
    pub open spec fn spec_default() -> RnakeConfigV2 {
        RnakeConfigV2 {
            chosen_level: 1,
            last_level: 1,
            speed_index: 1,
            music_volume: 4,
            menu_volume: 6,
            fx_volume: 6,
            version: RNAKE_CONFIG_VERSION,
        }
    }

    /// The settings can be shown in the dialog: the speed is one of those
    /// there are, the level one of those that were reached, and no volume is
    /// above the loudest.
    pub open spec fn spec_is_valid(&self) -> bool {
        &&& self.speed_index < SPEEDS
        &&& 1 <= self.chosen_level <= self.last_level
        &&& self.music_volume <= MAX_VOLUME
        &&& self.menu_volume <= MAX_VOLUME
        &&& self.fx_volume <= MAX_VOLUME
    }

    /// Whether the settings can be shown in the dialog.
    #[verifier::when_used_as_spec(spec_is_valid)]
    pub fn is_valid(&self) -> (b: bool)
        ensures
            b == self.spec_is_valid(),
    {
        self.speed_index < SPEEDS && 1 <= self.chosen_level && self.chosen_level <= self.last_level
            && self.music_volume <= MAX_VOLUME && self.menu_volume <= MAX_VOLUME && self.fx_volume
            <= MAX_VOLUME
    }

    /// What to do with stored settings of the given version; version 0
    /// stands for none.
    pub fn stored(version: u8) -> (s: Stored)
        requires
            version <= RNAKE_CONFIG_VERSION,
        ensures
            s == match version {
                0 => Stored::Missing,
                1 => Stored::Version1,
                _ => Stored::Current,
            },
    {
        if version == RNAKE_CONFIG_VERSION {
            Stored::Current
        } else if version == 0 {
            Stored::Missing
        } else {
            Stored::Version1
        }
    }

    /// The settings of version 1 brought up to date: level and speed are
    /// kept, the volumes are those of a game that has no settings yet.
    pub fn upgraded(old: RnakeConfigV1) -> (cfg: Self)
        ensures
            cfg == (RnakeConfigV2 {
                speed_index: old.speed_index,
                last_level: old.last_level,
                chosen_level: old.chosen_level,
                ..RnakeConfigV2::spec_default()
            }),
    {
        let mut cfg = RnakeConfigV2::default();
        cfg.speed_index = old.speed_index;
        cfg.last_level = old.last_level;
        cfg.chosen_level = old.chosen_level;
        cfg
    }

    /// The milliseconds between two ticks at the chosen speed.
    pub fn frame_delta(&self) -> (ms: u64)
        requires
            self.speed_index < SPEEDS,
        ensures
            ms == match self.speed_index {
                0 => 180u64,
                1 => 120u64,
                _ => 90u64,
            },
    {
        if self.speed_index == 0 {
            180
        } else if self.speed_index == 1 {
            120
        } else {
            90
        }
    }

    /// Whether a dialog of the settings that was closed with `closed` asks
    /// for what was chosen to be taken over: it does when it was closed by
    /// the widget at `save_index`, and not when it was closed by the widget
    /// after that or by escape.
    pub fn is_saved(closed: DialogReturn, save_index: usize) -> (saved: bool)
        requires
            save_index < usize::MAX,
            closed == DialogReturn::Index(save_index) || closed == DialogReturn::Index(
                (save_index + 1) as usize,
            ) || closed == DialogReturn::Result(DialogResult::Cancel),
        ensures
            saved == (closed == DialogReturn::Index(save_index)),
    {
        match closed {
            DialogReturn::Index(n) => n == save_index,
            DialogReturn::Result(_) => false,
        }
    }

    /// Takes over what was chosen in the dialog.
    pub fn accept(&mut self, chosen: Chosen)
        requires
            chosen.level < usize::MAX,
        ensures
            *final(self) == (RnakeConfigV2 {
                speed_index: chosen.speed,
                chosen_level: (chosen.level + 1) as usize,
                music_volume: match chosen.volumes {
                    Some(v) => v.music,
                    None => old(self).music_volume,
                },
                menu_volume: match chosen.volumes {
                    Some(v) => v.menu,
                    None => old(self).menu_volume,
                },
                fx_volume: match chosen.volumes {
                    Some(v) => v.fx,
                    None => old(self).fx_volume,
                },
                ..*old(self)
            }),
    {
        self.speed_index = chosen.speed;
        self.chosen_level = chosen.level + 1;
        match chosen.volumes {
            Some(volumes) => {
                self.music_volume = volumes.music;
                self.menu_volume = volumes.menu;
                self.fx_volume = volumes.fx;
            },
            None => {},
        }
    }
}

} // verus!
