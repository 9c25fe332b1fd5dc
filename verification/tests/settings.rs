use sokoterm::game::{AnimationSpeed, GameSettings, TileMode};

#[test]
fn default_settings() {
    let s = GameSettings::new();
    assert_eq!(s.color_scheme_index(), 0);
    assert_eq!(s.tile_mode(), TileMode::Graphical);
    assert!(s.background_music());
    assert_eq!(s.animation_speed(), AnimationSpeed::Normal);
    assert_eq!(GameSettings::default(), s);
}

#[test]
fn settings_text_is_read() {
    let s = GameSettings::from_text(
        "color_scheme_index = 7\ntile_mode = Ascii\nbackground_music = false\nanimation_speed = VeryFast\n",
    );
    assert_eq!(s.color_scheme_index(), 7);
    assert_eq!(s.tile_mode(), TileMode::Ascii);
    assert!(!s.background_music());
    assert_eq!(s.animation_speed(), AnimationSpeed::VeryFast);
}

#[test]
fn invalid_settings_lines_are_ignored() {
    let s = GameSettings::from_text(
        "color_scheme_index = x\ntile_mode = Pictures\nbackground_music = no\nunknown = 3\nnonsense\n\n   \nanimation_speed=Fast\n",
    );
    assert_eq!(s, GameSettings::new());
}

#[test]
fn later_settings_lines_win() {
    let s = GameSettings::from_text("tile_mode = Ascii\ntile_mode = Graphical\n");
    assert_eq!(s.tile_mode(), TileMode::Graphical);
}

#[test]
fn settings_text_round_trip() {
    let s = GameSettings::from_text("color_scheme_index = 3\nanimation_speed = Slow\n");
    let text = s.to_text();
    assert_eq!(
        text,
        "color_scheme_index = 3\ntile_mode = Graphical\nbackground_music = true\nanimation_speed = Slow\n"
    );
    assert_eq!(GameSettings::from_text(&text), s);
}

#[test]
fn tile_mode_names() {
    assert_eq!(TileMode::from_str("Ascii").unwrap(), TileMode::Ascii);
    assert_eq!(TileMode::from_str("ascii").unwrap_err().message(), "Invalid tile mode \"{s}\"");
    assert_eq!(TileMode::Ascii.display_name(), "Ascii");
    assert_eq!(TileMode::Ascii.toggle(), TileMode::Graphical);
    assert_eq!(TileMode::Graphical.toggle().toggle(), TileMode::Graphical);
    assert_eq!(TileMode::default(), TileMode::Graphical);
}

#[test]
fn animation_speed_names_and_cycle() {
    assert_eq!(AnimationSpeed::from_str("VeryFast").unwrap(), AnimationSpeed::VeryFast);
    assert_eq!(AnimationSpeed::from_str("Very fast").unwrap_err().message(), "Invalid animation speed \"{s}\"");
    assert_eq!(AnimationSpeed::VeryFast.display_name(), "Very fast");
    assert_eq!(AnimationSpeed::Slow.next_setting(), AnimationSpeed::Normal);
    assert_eq!(AnimationSpeed::VeryFast.next_setting(), AnimationSpeed::Slow);
    let mut a = AnimationSpeed::Fast;
    for _ in 0..4 {
        a = a.next_setting();
    }
    assert_eq!(a, AnimationSpeed::Fast);
}
