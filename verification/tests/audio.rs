use sokoterm::game::audio::{
    background_music_fields_of_ice, BackgroundMusic, BackgroundMusicId, BackgroundMusicTracks, SoundEffect,
};

static DATA: [u8; 3] = [1, 2, 3];
static EFFECTS: [&[u8]; 1] = [&DATA];

#[test]
fn music_tracks_are_found_by_id() {
    let first: &'static BackgroundMusic = Box::leak(Box::new(background_music_fields_of_ice(None, &DATA)));
    let second: &'static BackgroundMusic =
        Box::leak(Box::new(BackgroundMusic::new(BackgroundMusicId::new(5), "Second", "Someone", Some(&DATA), &DATA)));
    let tracks = BackgroundMusicTracks::new([first, second]);
    assert_eq!(tracks.check_id(1).unwrap().id(), 1);
    assert_eq!(tracks.check_id(5).unwrap().id(), 5);
    assert!(tracks.check_id(2).is_none());
    assert_eq!(tracks.get_track_by_id(BackgroundMusicId::new(5)).display_name(), "Second");
    assert_eq!(tracks.tracks().len(), 2);
    assert_eq!(first.display_name(), "Fields of Ice");
    assert_eq!(first.creator(), "Jonathan So");
    assert!(first.intro_audio_data().is_none());
    assert_eq!(first.main_loop_audio_data(), &DATA);
}

#[test]
fn sound_effect_keeps_its_recordings() {
    let effect = SoundEffect::new(&EFFECTS);
    assert_eq!(effect.sound_effects().len(), 1);
}
