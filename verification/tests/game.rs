use sokoterm::game::audio::{background_music_fields_of_ice, BackgroundMusic, BackgroundMusicTracks};
use sokoterm::game::engine::Game;
use sokoterm::game::help_page::{HelpPage, SectionLabelBuilder};
use sokoterm::game::level::LevelSoundEffect;
use sokoterm::game::level_pack::LevelPack;
use sokoterm::game::screen::dialog::Dialog;
use sokoterm::game::screen::in_game::ScreenInGame;
use sokoterm::game::screen::select_level::ScreenSelectLevel;
use sokoterm::game::screen::{ScreenAbout, ScreenId};
use sokoterm::game::state::{GameState, HostRequest, Sound};
use sokoterm::game::{AnimationSpeed, GameSettings};
use sokoterm::io::console::{Color, Key};

fn key(code: u16) -> Key {
    Key::from_code(code)
}

fn music() -> &'static BackgroundMusic {
    Box::leak(Box::new(background_music_fields_of_ice(None, &[])))
}

const PACK: &str = "Name: Demo\nBackground Music: 1\nLevels: 2\n\nw: 5, h: 1\n#P@x#\n\nw: 4, h: 1\nP@x-\n";

fn pack() -> LevelPack {
    let tracks = BackgroundMusicTracks::new([music()]);
    LevelPack::from_level_pack_data("demo", "built-in:demo", PACK, false, &tracks).unwrap()
}

fn state() -> GameState {
    GameState::new(pack(), GameSettings::new())
}

fn help_page() -> HelpPage {
    let mut b = SectionLabelBuilder::new();
    let sections = vec![(b.new_section("Basic controls"), 2), (b.new_sub_section("Keyboard"), 3)];
    HelpPage::new(74, 23, sections)
}

fn game() -> Game {
    Game::new(74, 23, pack(), GameSettings::new(), help_page(), ScreenAbout::new(2, 1, 10), music()).unwrap()
}

fn sounds(requests: &[HostRequest]) -> Vec<Sound> {
    requests
        .iter()
        .filter_map(|r| match r {
            HostRequest::PlaySound(s) => Some(*s),
            _ => None,
        })
        .collect()
}

#[test]
fn game_state_queues_requests_in_order() {
    let mut gs = state();
    assert_eq!(gs.current_screen_id(), ScreenId::StartMenu);
    gs.play_sound_effect_ui_select();
    gs.play_level_sound_effect(LevelSoundEffect::DoorUnlocked);
    gs.play_level_sound_effect(LevelSoundEffect::KeyFall);
    gs.request_save_game();
    assert_eq!(
        gs.take_requests(),
        vec![
            HostRequest::PlaySound(Sound::UiSelect),
            HostRequest::PlaySound(Sound::DoorOpen),
            HostRequest::PlaySound(Sound::BoxFall),
            HostRequest::SaveGame,
        ]
    );
    assert!(gs.take_requests().is_empty());
}

#[test]
fn game_state_dialogs_and_help() {
    let mut gs = state();
    assert!(gs.open_dialog(Dialog::new_yes_no("Exit game?".to_string())));
    assert!(gs.is_dialog_opened());
    assert_eq!(gs.dialog().unwrap().lines(), ["Exit game?".to_string()]);
    gs.close_dialog();
    assert!(!gs.is_dialog_opened());
    assert!(gs.open_dialog(Dialog::new_ok_error("Cannot save: disk full".to_string())));
    assert!(!gs.open_dialog(Dialog::new_ok("Caf\u{e9}".to_string())));
    gs.open_help_page();
    assert!(gs.is_help());
    gs.close_help_page();
    assert!(!gs.is_help());
    assert_eq!(
        sounds(&gs.take_requests()),
        vec![Sound::UiDialogOpen, Sound::UiError, Sound::BookOpen, Sound::UiSelect]
    );
}

#[test]
fn background_music_is_started_once_and_follows_the_setting() {
    let mut gs = state();
    let id = music().id();
    gs.set_background_music_loop_by_id(id);
    gs.set_background_music_loop_by_id(id);
    assert_eq!(gs.take_requests(), vec![HostRequest::PlayBackgroundMusic(id)]);
    gs.set_and_save_background_music_enabled(false);
    assert_eq!(gs.current_background_music_id(), Some(id));
    assert_eq!(gs.take_requests(), vec![HostRequest::StopBackgroundMusic, HostRequest::SaveSettings]);
    gs.set_and_save_background_music_enabled(true);
    assert_eq!(
        gs.take_requests(),
        vec![HostRequest::StopBackgroundMusic, HostRequest::PlayBackgroundMusic(id), HostRequest::SaveSettings]
    );
    gs.stop_background_music();
    assert_eq!(gs.current_background_music_id(), None);
}

#[test]
fn settings_changes_ask_to_be_saved() {
    let mut gs = state();
    gs.set_and_save_animation_speed(AnimationSpeed::Fast);
    gs.set_and_save_color_scheme_index(2);
    assert_eq!(gs.settings().animation_speed(), AnimationSpeed::Fast);
    assert_eq!(gs.settings().color_scheme_index(), 2);
    assert_eq!(gs.take_requests(), vec![HostRequest::SaveSettings, HostRequest::SaveSettings]);
    assert_eq!(AnimationSpeed::Slow.animation_quarters_per_update(), 3);
    assert_eq!(AnimationSpeed::VeryFast.animation_quarters_per_update(), 8);
}

#[test]
fn select_level_lists_levels_and_refuses_locked_ones() {
    let mut gs = state();
    let mut screen = ScreenSelectLevel::new();
    screen.on_set_screen(&gs);
    let elements = screen.level_list().elements();
    assert_eq!(elements.len(), 3);
    assert_eq!(elements[0].display_text(), "<<");
    assert_eq!(elements[1].display_text(), " 1");
    assert_eq!(elements[1].bg_color(), Color::Yellow);
    assert_eq!(elements[2].bg_color(), Color::Red);
    assert_eq!(screen.level_list().cursor_index(), 1);
    screen.on_key_pressed(&mut gs, key(Key::RIGHT));
    screen.on_key_pressed(&mut gs, key(Key::ENTER));
    assert_eq!(gs.current_screen_id(), ScreenId::StartMenu);
    assert_eq!(sounds(&gs.take_requests()), vec![Sound::UiError]);
    screen.on_key_pressed(&mut gs, key(Key::LEFT));
    screen.on_key_pressed(&mut gs, key(Key::ENTER));
    assert_eq!(gs.current_screen_id(), ScreenId::InGame);
    assert_eq!(gs.get_level_index(), 0);
    screen.on_key_pressed(&mut gs, key(Key::P));
    assert!(screen.is_level_preview());
    screen.on_key_pressed(&mut gs, key(Key::ESC));
    assert!(!screen.is_level_preview());
    screen.on_key_pressed(&mut gs, key(Key::ESC));
    assert_eq!(gs.current_screen_id(), ScreenId::StartMenu);
}

#[test]
fn select_level_click_on_back_element() {
    let mut gs = state();
    let mut screen = ScreenSelectLevel::new();
    screen.on_set_screen(&gs);
    screen.on_mouse_pressed(&mut gs, 0, 1);
    assert_eq!(gs.current_screen_id(), ScreenId::StartMenu);
    assert_eq!(screen.level_list().cursor_index(), 0);
    screen.on_mouse_pressed(&mut gs, 30, 5);
    assert!(screen.is_level_preview());
}

#[test]
fn winning_a_level_records_progress() {
    let mut gs = state();
    let mut screen = ScreenInGame::new();
    screen.on_set_screen(&mut gs);
    assert!(screen.level().is_some());
    assert_eq!(gs.take_requests(), vec![HostRequest::PlayBackgroundMusic(music().id())]);
    screen.on_key_pressed(&mut gs, key(Key::D), 1000);
    assert!(screen.is_continue());
    let pack = gs.get_current_level_pack().unwrap();
    assert_eq!(pack.min_level_not_completed(), 1);
    assert_eq!(pack.levels()[0].best_moves(), Some(1));
    assert_eq!(pack.levels()[0].best_time(), Some(0));
    assert_eq!(
        gs.take_requests(),
        vec![
            HostRequest::SaveGame,
            HostRequest::PlaySound(Sound::LevelComplete),
            HostRequest::PlaySound(Sound::Step),
        ]
    );
    screen.on_key_pressed(&mut gs, key(Key::ENTER), 2000);
    assert!(!screen.is_continue());
    assert_eq!(gs.get_level_index(), 1);
    screen.on_key_pressed(&mut gs, key(Key::RIGHT), 3000);
    screen.on_key_pressed(&mut gs, key(Key::SPACE), 4000);
    assert!(screen.is_game_over());
    assert_eq!(gs.get_current_level_pack().unwrap().min_level_not_completed(), 2);
    screen.on_key_pressed(&mut gs, key(Key::ENTER), 5000);
    assert_eq!(gs.current_screen_id(), ScreenId::SelectLevel);
}

#[test]
fn in_game_undo_invalid_moves_and_clock() {
    let mut gs = state();
    let mut screen = ScreenInGame::new();
    screen.on_set_screen(&mut gs);
    gs.take_requests();
    screen.on_key_pressed(&mut gs, key(Key::A), 500);
    assert_eq!(sounds(&gs.take_requests()), vec![Sound::NoPath]);
    screen.on_key_pressed(&mut gs, key(Key::U), 600);
    assert!(gs.take_requests().is_empty());
    screen.update(&gs, 700);
    assert_eq!(screen.time(), (0, 0, 0));
    screen.on_key_pressed(&mut gs, key(Key::Q), 800);
    assert!(screen.is_show_floor());
    screen.on_key_pressed(&mut gs, key(Key::ESC), 900);
    assert!(gs.is_dialog_opened());
    assert_eq!(gs.dialog().unwrap().lines(), ["Back to level selection?".to_string()]);
}

#[test]
fn game_new_checks_console_and_levels() {
    let small = Game::new(73, 23, pack(), GameSettings::new(), help_page(), ScreenAbout::new(2, 1, 10), music());
    assert_eq!(small.err().unwrap().message(), "Console is to small (Min: 74 x 23)!");
    let wide = "Name: Wide\nLevels: 2\nw: 1, h: 1\nP\nw: 75, h: 1\nP".to_string() + &"-".repeat(74) + "\n";
    let tracks = BackgroundMusicTracks::new([music()]);
    let pack = LevelPack::from_level_pack_data("wide", "wide.lvl", &wide, false, &tracks).unwrap();
    let err = Game::new(80, 30, pack, GameSettings::new(), help_page(), ScreenAbout::new(2, 1, 10), music());
    assert_eq!(
        err.err().unwrap().message(),
        "Error while loading level pack \"wide\": Level 2 is too large (Max: 74x22)"
    );
}

#[test]
fn game_update_runs_menus_help_and_exit() {
    let mut g = game();
    assert_eq!(g.take_requests(), vec![HostRequest::PlayBackgroundMusic(music().id())]);
    let out = g.update(Some(key(Key::ENTER)), None, 0);
    assert!(!out.should_stop);
    assert_eq!(g.game_state().current_screen_id(), ScreenId::SelectLevel);
    assert_eq!(g.select_level().level_list().elements().len(), 3);
    g.update(Some(key(Key::F1)), None, 40);
    assert!(g.game_state().is_help());
    g.update(Some(key(Key::DOWN)), None, 80);
    assert_eq!(g.help_page().page(), 1);
    g.update(Some(key(Key::ESC)), None, 120);
    assert!(!g.game_state().is_help());
    g.update(Some(key(Key::ENTER)), None, 160);
    assert_eq!(g.game_state().current_screen_id(), ScreenId::InGame);
    assert!(g.in_game().level().is_some());
    g.update(Some(key(Key::ESC)), None, 200);
    assert!(g.game_state().is_dialog_opened());
    g.update(Some(key(Key::Y)), None, 240);
    assert_eq!(g.game_state().current_screen_id(), ScreenId::SelectLevel);
    g.update(Some(key(Key::ESC)), None, 280);
    assert_eq!(g.game_state().current_screen_id(), ScreenId::StartMenu);
    g.update(Some(key(Key::ESC)), None, 320);
    g.update(Some(key(Key::Y)), None, 360);
    assert!(g.update(None, None, 400).should_stop);
}

#[test]
fn game_update_settings_keys_and_about_clicks() {
    let mut g = game();
    g.take_requests();
    g.update(Some(key(Key::F7)), None, 0);
    assert_eq!(g.game_state().settings().animation_speed(), AnimationSpeed::Fast);
    let requests = g.take_requests();
    assert_eq!(requests, vec![HostRequest::PlaySound(Sound::UiSelect), HostRequest::SaveSettings]);
    g.update(Some(key(Key::A)), None, 40);
    assert_eq!(g.game_state().current_screen_id(), ScreenId::About);
    let out = g.update(None, Some((73, 5)), 80);
    assert_eq!(out.about_click, Some((73, 5)));
    let out = g.update(Some(key(Key::DOWN)), None, 120);
    assert_eq!(out.about_click, None);
    assert_eq!(g.about().scroll_position_row, 1);
}

#[test]
fn player_background_blinks() {
    let mut g = game();
    for _ in 0..11 {
        g.update(None, None, 0);
        assert!(!g.game_state().is_player_background());
    }
    g.update(None, None, 0);
    assert!(g.game_state().is_player_background());
    for _ in 0..12 {
        g.update(None, None, 0);
        assert!(g.game_state().is_player_background());
    }
    g.update(None, None, 0);
    assert!(!g.game_state().is_player_background());
}
