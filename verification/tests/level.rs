use sokoterm::game::level::{Direction, Level, MoveResult, PlayingLevel, Tile};

fn level(text: &str) -> Level {
    Level::from_str(text).unwrap()
}

#[test]
fn tile_ascii_round_trip() {
    let tiles = [
        Tile::Empty, Tile::FragileFloor, Tile::Ice, Tile::OneWayLeft, Tile::OneWayUp, Tile::OneWayRight,
        Tile::OneWayDown, Tile::Wall, Tile::Player, Tile::PlayerOnFragileFloor, Tile::PlayerOnIce, Tile::Key,
        Tile::KeyInGoal, Tile::KeyOnFragileFloor, Tile::KeyOnIce, Tile::LockedDoor, Tile::Box, Tile::BoxInGoal,
        Tile::BoxOnFragileFloor, Tile::BoxOnIce, Tile::Goal, Tile::Hole, Tile::BoxInHole, Tile::DecorationBlank,
        Tile::Secret,
    ];
    for t in tiles {
        assert_eq!(Tile::from_ascii(t.to_ascii()).unwrap(), t);
    }
    assert_eq!(Tile::Wall.to_ascii(), b'#');
    assert_eq!(Tile::Player.to_ascii(), b'P');
}

#[test]
fn tile_from_unknown_character_is_an_error() {
    let err = Tile::from_ascii(b'Q').unwrap_err();
    assert_eq!(err.message(), "Invalid tile");
}

#[test]
fn floor_tile_of_objects() {
    assert_eq!(Tile::BoxInGoal.floor_tile(), Tile::Goal);
    assert_eq!(Tile::PlayerOnIce.floor_tile(), Tile::Ice);
    assert_eq!(Tile::KeyOnFragileFloor.floor_tile(), Tile::FragileFloor);
    assert_eq!(Tile::Wall.floor_tile(), Tile::Wall);
}

#[test]
fn level_text_round_trip() {
    let text = "w: 4, h: 2\n#P@x\n####\n";
    let l = level(text);
    assert_eq!(l.width(), 4);
    assert_eq!(l.height(), 2);
    assert_eq!(l.get_tile(1, 0), Some(Tile::Player));
    assert_eq!(l.get_tile(4, 0), Some(Tile::Wall));
    assert_eq!(l.get_tile(0, 2), None);
    assert_eq!(l.to_str(), text);
    assert_eq!(Level::from_str(&l.to_str()).unwrap().to_str(), text);
}

#[test]
fn level_rows_are_trimmed_and_crlf_accepted() {
    let l = level("  w: 2, h: 1  \r\n  #P  \r\n");
    assert_eq!(l.to_str(), "w: 2, h: 1\n#P\n");
}

#[test]
fn level_errors() {
    assert_eq!(Level::from_str("").unwrap_err().message(), "Level is invalid!");
    assert_eq!(Level::from_str("w: 2, h: 1\n#\n").unwrap_err().message(), "Level is invalid!");
    assert_eq!(Level::from_str("w: 2, h: 1\n#Q\n").unwrap_err().message(), "Invalid tile");
    assert_eq!(Level::from_str("w: 2, h: 2\n#P\n").unwrap_err().message(), "Level is invalid!");
    assert_eq!(Level::from_str("w: 0, h: 0\n").unwrap_err().message(), "Level is invalid!");
    assert_eq!(Level::from_str("x: 2, h: 1\n#P\n").unwrap_err().message(), "Level is invalid!");
}

#[test]
fn set_tile_changes_one_tile() {
    let mut l = Level::new(3, 2);
    assert_eq!(l.get_tile(2, 1), Some(Tile::Empty));
    l.set_tile(2, 1, Tile::Wall);
    assert_eq!(l.get_tile(2, 1), Some(Tile::Wall));
    assert_eq!(l.to_str(), "w: 3, h: 2\n---\n--#\n");
    *l.get_tile_mut(0, 0).unwrap() = Tile::Goal;
    assert_eq!(l.get_tile(0, 0), Some(Tile::Goal));
}

#[test]
fn direction_updates_wrap_around() {
    assert_eq!(Direction::Left.update_x(0, 5), 4);
    assert_eq!(Direction::Left.update_x(3, 5), 2);
    assert_eq!(Direction::Right.update_x(4, 5), 0);
    assert_eq!(Direction::Up.update_y(0, 3), 2);
    assert_eq!(Direction::Up.update_x(3, 5), 3);
    assert_eq!(Direction::Down.update_xy(1, 1, 3, 3), (1, 2));
}

#[test]
fn playing_level_needs_exactly_one_player() {
    let none = level("w: 2, h: 1\n--\n");
    assert_eq!(PlayingLevel::new(&none, 10).unwrap_err().message(), "Level does not contain a player tile!");
    let two = level("w: 2, h: 1\nPP\n");
    assert_eq!(PlayingLevel::new(&two, 10).unwrap_err().message(), "Level contains too many player tiles!");
}

#[test]
fn pushing_box_onto_goal_wins() {
    let l = level("w: 5, h: 1\n#P@x#\n");
    let mut playing = PlayingLevel::new(&l, 10).unwrap();
    assert_eq!(playing.current_playing_level().1, (1, 0));
    let result = playing.move_player(Direction::Right);
    assert!(result.is_valid());
    assert!(result.has_won());
    assert_eq!(playing.current_playing_level().1, (2, 0));
    assert_eq!(playing.current_playing_level().0.to_str(), "w: 5, h: 1\n#-P+#\n");
}

#[test]
fn moving_into_wall_changes_nothing() {
    let l = level("w: 3, h: 1\n#P-\n");
    let mut playing = PlayingLevel::new(&l, 10).unwrap();
    let result = playing.move_player(Direction::Left);
    assert!(result.is_invalid());
    assert_eq!(playing.current_move_index(), 0);
    assert_eq!(playing.current_playing_level().0.to_str(), "w: 3, h: 1\n#P-\n");
}

#[test]
fn undo_and_redo_moves() {
    let l = level("w: 4, h: 1\nP---\n");
    let mut playing = PlayingLevel::new(&l, 10).unwrap();
    assert!(playing.move_player(Direction::Right).is_valid());
    assert!(playing.move_player(Direction::Right).is_valid());
    assert_eq!(playing.current_move_index(), 2);
    assert_eq!(playing.undo_move().unwrap().1, (1, 0));
    assert_eq!(playing.undo_move().unwrap().1, (0, 0));
    assert!(playing.undo_move().is_none());
    assert_eq!(playing.redo_move().unwrap().1, (1, 0));
    assert_eq!(playing.original_level().to_str(), "w: 4, h: 1\nP---\n");
}

#[test]
fn move_result_predicates() {
    let r = MoveResult::Invalid;
    assert!(r.is_invalid());
    assert!(!r.is_valid());
    assert!(!r.has_won());
    assert!(!r.is_animation());
}

#[test]
fn floor_view_shows_what_lies_under_objects() {
    assert_eq!(Tile::Player.floor_view_tile(Some(Tile::Ice)), Tile::Ice);
    assert_eq!(Tile::PlayerOnIce.floor_view_tile(Some(Tile::PlayerOnIce)), Tile::Ice);
    assert_eq!(Tile::Player.floor_view_tile(Some(Tile::Goal)), Tile::Goal);
    assert_eq!(Tile::Player.floor_view_tile(Some(Tile::Hole)), Tile::BoxInHole);
    assert_eq!(Tile::Player.floor_view_tile(Some(Tile::Player)), Tile::Empty);
    assert_eq!(Tile::Player.floor_view_tile(None), Tile::Empty);
    assert_eq!(Tile::Box.floor_view_tile(Some(Tile::BoxInHole)), Tile::BoxInHole);
    assert_eq!(Tile::Key.floor_view_tile(Some(Tile::Wall)), Tile::Empty);
    assert_eq!(Tile::BoxInGoal.floor_view_tile(Some(Tile::Box)), Tile::Goal);
    assert_eq!(Tile::Wall.floor_view_tile(Some(Tile::Empty)), Tile::Wall);
}
