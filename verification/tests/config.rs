use rnake::config::{
    Chosen, Configuration, RnakeConfigV1, RnakeConfigV2, Stored, Volumes, MAX_VOLUME,
    RNAKE_CONFIG_VERSION, SPEEDS,
};
use rnake::sound::{Fx, NoSounds, Player, Sound, VOLUME_STEP};
use rnake::widgets::{DialogResult, DialogReturn};

#[test]
fn settings_of_a_game_that_has_none() {
    let cfg = RnakeConfigV2::default();
    assert_eq!(
        cfg,
        RnakeConfigV2 {
            chosen_level: 1,
            last_level: 1,
            speed_index: 1,
            music_volume: 4,
            menu_volume: 6,
            fx_volume: 6,
            version: 2,
        }
    );
    assert_eq!(RNAKE_CONFIG_VERSION, 2);
    assert!(cfg.is_valid());
    let old = RnakeConfigV1::default();
    assert_eq!(
        old,
        RnakeConfigV1 { chosen_level: 1, last_level: 1, speed_index: 1, version: 1 }
    );
}

#[test]
fn settings_of_version_one_keep_level_and_speed() {
    let old = RnakeConfigV1 { chosen_level: 3, last_level: 7, speed_index: 2, version: 1 };
    let cfg: Configuration = RnakeConfigV2::upgraded(old);
    assert_eq!(
        cfg,
        RnakeConfigV2 {
            chosen_level: 3,
            last_level: 7,
            speed_index: 2,
            music_volume: 4,
            menu_volume: 6,
            fx_volume: 6,
            version: 2,
        }
    );
}

#[test]
fn what_to_do_with_stored_settings() {
    assert_eq!(RnakeConfigV2::stored(0), Stored::Missing);
    assert_eq!(RnakeConfigV2::stored(1), Stored::Version1);
    assert_eq!(RnakeConfigV2::stored(2), Stored::Current);
}

#[test]
fn the_faster_the_shorter_the_tick() {
    let mut cfg = RnakeConfigV2::default();
    assert_eq!(cfg.frame_delta(), 120);
    cfg.speed_index = 0;
    assert_eq!(cfg.frame_delta(), 180);
    cfg.speed_index = 2;
    assert_eq!(cfg.frame_delta(), 90);
    assert_eq!(SPEEDS, 3);
}

#[test]
fn settings_that_cannot_be_shown() {
    let good = RnakeConfigV2 { last_level: 4, chosen_level: 4, ..RnakeConfigV2::default() };
    assert!(good.is_valid());
    assert!(!RnakeConfigV2 { speed_index: 3, ..good }.is_valid());
    assert!(!RnakeConfigV2 { chosen_level: 0, ..good }.is_valid());
    assert!(!RnakeConfigV2 { chosen_level: 5, ..good }.is_valid());
    assert!(!RnakeConfigV2 { music_volume: 9, ..good }.is_valid());
    assert!(!RnakeConfigV2 { menu_volume: 9, ..good }.is_valid());
    assert!(!RnakeConfigV2 { fx_volume: 9, ..good }.is_valid());
    assert!(RnakeConfigV2 { fx_volume: 8, music_volume: 0, ..good }.is_valid());
}

#[test]
fn only_the_save_line_saves() {
    assert!(Configuration::is_saved(DialogReturn::Index(5), 5));
    assert!(!Configuration::is_saved(DialogReturn::Index(6), 5));
    assert!(!Configuration::is_saved(DialogReturn::Result(DialogResult::Cancel), 5));
    assert!(Configuration::is_saved(DialogReturn::Index(2), 2));
    assert!(!Configuration::is_saved(DialogReturn::Index(3), 2));
}

#[test]
fn what_was_chosen_is_taken_over() {
    let mut cfg = RnakeConfigV2 { last_level: 9, ..RnakeConfigV2::default() };
    cfg.accept(Chosen {
        speed: 2,
        level: 4,
        volumes: Some(Volumes { music: 1, menu: 2, fx: 3 }),
    });
    assert_eq!(
        cfg,
        RnakeConfigV2 {
            chosen_level: 5,
            last_level: 9,
            speed_index: 2,
            music_volume: 1,
            menu_volume: 2,
            fx_volume: 3,
            version: 2,
        }
    );
    // without sound the volumes stay
    cfg.accept(Chosen { speed: 0, level: 0, volumes: None });
    assert_eq!(
        cfg,
        RnakeConfigV2 {
            chosen_level: 1,
            last_level: 9,
            speed_index: 0,
            music_volume: 1,
            menu_volume: 2,
            fx_volume: 3,
            version: 2,
        }
    );
}

#[test]
fn a_level_of_sound_is_sixteen_of_the_mixer() {
    assert_eq!(VOLUME_STEP, 16);
    for level in 0..=MAX_VOLUME {
        assert_eq!(Sound::volume(level), 16 * level as i32);
    }
    assert_eq!(Sound::volume(8), 128);
    assert_eq!(Sound::volume(0), 0);
}

#[test]
fn no_sound_plays_nothing() {
    let mut player: NoSounds = Sound::silent();
    assert!(!player.sound_enabled());
    player.set_music_volume(3);
    player.set_fx_volume(3);
    player.play_music();
    player.boom();
    player.food();
    player.mystery();
    player.obstacle();
    player.start();
    player.wall();
    assert!(!player.sound_enabled());
}
