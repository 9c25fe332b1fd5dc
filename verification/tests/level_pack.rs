use sokoterm::game::audio::{background_music_fields_of_ice, BackgroundMusic, BackgroundMusicTracks};
use sokoterm::game::level::Level;
use sokoterm::game::level_pack::format::LevelPackError;
use sokoterm::game::level_pack::LevelPack;

fn tracks() -> BackgroundMusicTracks<1> {
    let music: &'static BackgroundMusic = Box::leak(Box::new(background_music_fields_of_ice(None, &[])));
    BackgroundMusicTracks::new([music])
}

const PACK: &str = "Name: Demo\nThumbnail Level: 1\nBackground Music: 1\nLevels: 2\n\nw: 3, h: 1\nP@x\n\nw: 2, h: 2\nP-\n-x\n";

fn parse(id: &str, data: &str, editor: bool) -> Result<LevelPack, LevelPackError> {
    LevelPack::from_level_pack_data(id, "packs/demo.lvl", data, editor, &tracks())
}

fn error_message(id: &str, data: &str, editor: bool) -> String {
    parse(id, data, editor).unwrap_err().message().to_string()
}

#[test]
fn level_pack_reads_header_and_levels() {
    let pack = parse("demo", PACK, false).unwrap();
    assert_eq!(pack.name(), "Demo");
    assert_eq!(pack.id(), "demo");
    assert_eq!(pack.path(), "packs/demo.lvl");
    assert_eq!(pack.thumbnail_level_index(), Some(1));
    assert_eq!(pack.background_music_id().unwrap().id(), 1);
    assert_eq!(pack.level_count(), 2);
    assert_eq!(pack.levels()[0].level().to_str(), "w: 3, h: 1\nP@x\n");
    assert_eq!(pack.levels()[1].level().to_str(), "w: 2, h: 2\nP-\n-x\n");
    assert_eq!(pack.min_level_not_completed(), 0);
    assert_eq!(pack.levels()[0].best_time(), None);
    assert_eq!(pack.level_pack_best_time_sum(), None);
}

#[test]
fn level_pack_without_name_is_named_by_id() {
    let pack = parse("my_pack", "Levels: 1\nw: 1, h: 1\nP\n", false).unwrap();
    assert_eq!(pack.name(), "my_pack");
    assert_eq!(pack.thumbnail_level_index(), None);
    assert!(pack.background_music_id().is_none());
}

#[test]
fn level_pack_error_messages() {
    assert_eq!(error_message("demo", "", false), "The level pack file \"packs/demo.lvl\" is empty!");
    assert_eq!(
        error_message("demo", "Name: 12345678901234567890123456\nLevels: 0\n", true),
        "The level pack name \"12345678901234567890123456\" is too long!"
    );
    assert_eq!(
        error_message("demo", "Name: Demo", false),
        "The level pack file \"packs/demo.lvl\" does not contain level count!"
    );
    assert_eq!(
        error_message("demo", "Thumbnail Level: x\nLevels: 0\n", true),
        "The thumbnail level index \"Thumbnail Level: x\" is invalid in the level pack file \"packs/demo.lvl\"!"
    );
    assert_eq!(
        error_message("demo", "Background Music: x\nLevels: 0\n", true),
        "The background music id \"Background Music: x\" is invalid in the level pack file \"packs/demo.lvl\"!"
    );
    assert_eq!(
        error_message("demo", "Background Music: 7\nLevels: 0\n", true),
        "The background music \"7\" from level pack file \"packs/demo.lvl\" does not exist (Make sure that you are playing the latest version of SokoTerm)!"
    );
    assert_eq!(
        error_message("demo", "Level: 1\n", false),
        "The level count is missing in the level pack file \"packs/demo.lvl\"!"
    );
    assert_eq!(
        error_message("demo", "Levels: many\n", false),
        "The level count \"many\" is invalid in the level pack file \"packs/demo.lvl\"!"
    );
    assert_eq!(
        error_message("demo", "Levels: 191\n", false),
        "There are too many levels in the level pack file \"packs/demo.lvl\" (Count: 191, Max: 190)!"
    );
    assert_eq!(
        error_message("demo", "Thumbnail Level: 2\nLevels: 2\n", false),
        "The thumbnail level index 2 is out of bounds (Should be less then 2) in the level pack file \"packs/demo.lvl\"!"
    );
}

#[test]
fn level_pack_level_error_messages() {
    assert_eq!(
        error_message("demo", "Levels: 2\nw: 1, h: 1\nP\n", false),
        "EOF was reached early in the level pack file \"packs/demo.lvl\" (Read: 2 levels, Expected: 2 levels)!"
    );
    assert_eq!(
        error_message("demo", "Levels: 1\nwidth 1\nP\n", false),
        "Level 1 is invalid in the level pack file \"packs/demo.lvl\"!"
    );
    assert_eq!(
        error_message("demo", "Levels: 1\nw: 1, h: 2\nP\n", false),
        "EOF was reached early during parsing of level 1 is invalid in the level pack file \"packs/demo.lvl\"!"
    );
    assert_eq!(
        error_message("demo", "Levels: 1\nw: 2, h: 1\nPQ\n", false),
        "\"Invalid tile\" occurred during parsing of level 1 is invalid in the level pack file \"packs/demo.lvl\"!"
    );
    assert_eq!(
        error_message("demo", "Levels: 1\nw: 1, h: 1\n-\n", false),
        "Error while loading level pack \"demo\": Level 1 does not contain a player tile"
    );
    assert_eq!(
        error_message("demo", "Levels: 1\nw: 2, h: 1\nPP\n", false),
        "Error while loading level pack \"demo\": Level 1 contains too many player tiles"
    );
    assert_eq!(
        error_message("demo", "Levels: 1\nw: 1, h: 1\nP\nP\n", false),
        "Additional data was found after last level was parsed in the level pack file \"packs/demo.lvl\"!"
    );
    assert_eq!(
        error_message("demo", "Levels: 0\n", false),
        "Error while loading level pack \"demo\": Level pack contains no levels"
    );
}

#[test]
fn level_pack_error_kinds() {
    assert!(matches!(parse("demo", "Levels: 0\n", false), Err(LevelPackError::Game(_))));
    assert!(matches!(parse("demo", "", false), Err(LevelPackError::Loading(_))));
}

#[test]
fn edited_level_pack_accepts_levels_without_player() {
    let pack = parse("edit", "Levels: 1\nw: 1, h: 1\n-\n", true).unwrap();
    assert_eq!(pack.level_count(), 1);
    let empty = parse("edit", "Levels: 0\n", true).unwrap();
    assert_eq!(empty.level_count(), 0);
}

#[test]
fn save_game_new_and_old_format() {
    let pack = LevelPack::read_from_save_game(
        "demo",
        "packs/demo.lvl",
        PACK,
        false,
        Some("1\nms1500,12\n3,7\n"),
        &tracks(),
    )
    .unwrap();
    assert_eq!(pack.min_level_not_completed(), 1);
    assert_eq!(pack.levels()[0].best_time(), Some(1500));
    assert_eq!(pack.levels()[0].best_moves(), Some(12));
    assert_eq!(pack.levels()[1].best_time(), Some(3999));
    assert_eq!(pack.levels()[1].best_moves(), Some(7));
    assert_eq!(pack.level_pack_best_time_sum(), Some(5499));
    assert_eq!(pack.level_pack_best_moves_sum(), Some(19));
}

#[test]
fn save_game_with_bad_lines() {
    let pack = LevelPack::read_from_save_game(
        "demo",
        "packs/demo.lvl",
        PACK,
        false,
        Some("2\nms-1,-1\n1,2,3\n"),
        &tracks(),
    )
    .unwrap();
    assert_eq!(pack.min_level_not_completed(), 2);
    assert_eq!(pack.levels()[0].best_time(), None);
    assert_eq!(pack.levels()[0].best_moves(), None);
    assert_eq!(pack.levels()[1].best_time(), None);
    assert_eq!(pack.level_pack_best_time_sum(), None);
}

#[test]
fn save_game_with_bad_first_line_is_ignored() {
    let pack = LevelPack::read_from_save_game("demo", "p", PACK, false, Some("x\nms5,5\n"), &tracks()).unwrap();
    assert_eq!(pack.min_level_not_completed(), 0);
    assert_eq!(pack.levels()[0].best_time(), None);
}

#[test]
fn save_game_old_format_wraps_around() {
    let pack = LevelPack::read_from_save_game(
        "demo",
        "p",
        PACK,
        false,
        Some("0\n18446744073709551615,1\n"),
        &tracks(),
    )
    .unwrap();
    assert_eq!(pack.levels()[0].best_time(), Some(18446744073709551615u64.wrapping_mul(1000).wrapping_add(999)));
}

#[test]
fn edited_save_game_has_no_progress_line() {
    let pack =
        LevelPack::read_from_save_game("demo", "p", PACK, true, Some("ms10,2\nms20,3\n"), &tracks()).unwrap();
    assert_eq!(pack.min_level_not_completed(), 0);
    assert_eq!(pack.levels()[1].best_time(), Some(20));
    assert_eq!(pack.level_pack_best_moves_sum(), Some(5));
}

#[test]
fn export_text_of_pack() {
    let pack = parse("demo", PACK, false).unwrap();
    assert_eq!(
        pack.export_editor_level_pack_text(),
        "Name: Demo\nThumbnail Level: 1\nBackground Music: 1\nLevels: 2\n\nw: 3, h: 1\nP@x\n\nw: 2, h: 2\nP-\n-x\n"
    );
}

#[test]
fn exported_pack_reads_back() {
    let pack = parse("demo", PACK, true).unwrap();
    let text = pack.export_editor_level_pack_text();
    let again = parse("demo", &text, true).unwrap();
    assert_eq!(again.export_editor_level_pack_text(), text);
    assert_eq!(again.name(), pack.name());
}

#[test]
fn save_game_text_of_pack() {
    let mut pack = parse("demo", PACK, false).unwrap();
    assert_eq!(pack.save_game_text(false), "0\n");
    assert_eq!(pack.save_game_text(true), "ms-1,-1\nms-1,-1\n");
    pack.update_stats(0, 1234, 9).unwrap();
    pack.set_min_level_not_completed(1);
    assert_eq!(pack.save_game_text(false), "1\nms1234,9\n");
    assert_eq!(pack.level_pack_best_time_sum(), None);
}

#[test]
fn save_game_text_reads_back() {
    let mut pack = parse("demo", PACK, false).unwrap();
    pack.update_stats(0, 1234, 9).unwrap();
    pack.update_stats(1, 77, 3).unwrap();
    pack.set_min_level_not_completed(2);
    let save = pack.save_game_text(false);
    let again = LevelPack::read_from_save_game("demo", "p", PACK, false, Some(&save), &tracks()).unwrap();
    assert_eq!(again.min_level_not_completed(), 2);
    assert_eq!(again.levels()[1].best_time(), Some(77));
    assert_eq!(again.level_pack_best_time_sum(), Some(1311));
}

#[test]
fn update_stats_keeps_best_values() {
    let mut pack = parse("demo", PACK, false).unwrap();
    assert!(pack.update_stats(5, 1, 1).is_none());
    pack.update_stats(0, 500, 10).unwrap();
    pack.update_stats(0, 700, 8).unwrap();
    assert_eq!(pack.levels()[0].best_time(), Some(500));
    assert_eq!(pack.levels()[0].best_moves(), Some(8));
}

#[test]
fn add_level_appends_without_stats() {
    let mut pack = LevelPack::new("Name".to_string(), "id".to_string(), "path".to_string());
    assert_eq!(pack.level_count(), 0);
    pack.add_level(Level::new(2, 2));
    assert_eq!(pack.level_count(), 1);
    assert_eq!(pack.levels()[0].best_moves(), None);
    assert_eq!(pack.level_pack_best_moves_sum(), None);
}
