use sokoterm::game::level::Tile;
use sokoterm::io::console::{
    Color, ConsoleBufferSelection, ConsoleCharacter, ConsoleDrawBuffer, ConsoleState, GraphicalCharacter, Key,
    NamedKey, CONSOLE_HEIGHT, CONSOLE_WIDTH,
};

fn row_text(state: &ConsoleState, row: usize, from: usize, len: usize) -> String {
    let buffer = state.current_buffer().text_buffer();
    (from..from + len).map(|x| buffer[row * CONSOLE_WIDTH + x].data as char).collect()
}

fn console() -> ConsoleState {
    ConsoleState::new::<74, 23>()
}

#[test]
fn new_console_is_blank() {
    let state = console();
    assert_eq!(state.get_console_size(), (74, 23));
    assert_eq!(state.current_buffer().text_buffer().len(), CONSOLE_WIDTH * CONSOLE_HEIGHT);
    assert!(state.current_buffer().text_buffer().iter().all(|c| c.data == b' '));
    assert!(state.current_buffer().text_color_buffer().iter().all(|c| *c == (Color::White, Color::Black)));
    let buffer = ConsoleDrawBuffer::new::<2, 3>();
    assert_eq!(buffer.text_buffer().len(), 6);
}

#[test]
fn draw_text_writes_at_cursor_in_color() {
    let mut state = console();
    state.set_cursor_pos(3, 2);
    state.set_color(Color::Red, Color::Blue);
    state.draw_text(b"Hi");
    assert_eq!(row_text(&state, 2, 3, 2), "Hi");
    assert_eq!(state.current_buffer().text_color_buffer()[2 * 74 + 3], (Color::Red, Color::Blue));
    assert_eq!(state.current_buffer().text_color_buffer()[2 * 74 + 5], (Color::White, Color::Black));
}

#[test]
fn draw_text_lines_and_cursor() {
    let mut state = console();
    state.set_cursor_pos(5, 0);
    state.draw_text(b"ab\ncd");
    assert_eq!(row_text(&state, 0, 5, 2), "ab");
    assert_eq!(row_text(&state, 1, 0, 2), "cd");
    state.draw_text(b"e");
    assert_eq!(row_text(&state, 1, 2, 1), "e");
    state.draw_text(b"\n");
    state.draw_text(b"f");
    assert_eq!(row_text(&state, 2, 0, 1), "f");
}

#[test]
fn draw_text_cuts_off_at_the_right_edge() {
    let mut state = console();
    state.set_cursor_pos(72, 0);
    state.draw_text(b"xyz");
    assert_eq!(row_text(&state, 0, 72, 2), "xy");
    assert_eq!(row_text(&state, 1, 0, 1), " ");
}

#[test]
fn draw_text_outside_changes_nothing() {
    let mut state = console();
    state.set_cursor_pos(0, 23);
    state.draw_text(b"abc");
    assert!(state.current_buffer().text_buffer().iter().all(|c| c.data == b' '));
    state.set_cursor_pos(0, 22);
    state.draw_text(b"a\nb");
    assert_eq!(row_text(&state, 22, 0, 1), "a");
}

#[test]
fn clear_and_swap_buffers() {
    let mut state = console();
    state.draw_text(b"abc");
    state.swap_buffer_selection();
    assert!(state.current_buffer().text_buffer().iter().all(|c| c.data == b' '));
    state.swap_buffer();
    assert_eq!(row_text(&state, 0, 0, 3), "abc");
    state.clear_screen();
    assert!(state.current_buffer().text_buffer().iter().all(|c| c.data == b' '));
    assert_eq!(ConsoleBufferSelection::Primary.swap(), ConsoleBufferSelection::Secondary);
}

#[test]
fn graphical_characters() {
    let mut state = console();
    state.set_cursor_pos(1, 1);
    state.draw_graphical_character(GraphicalCharacter::Wall, Color::Yellow, Color::Default);
    let c = state.current_buffer().text_buffer()[74 + 1];
    assert_eq!(c.get(), Err(GraphicalCharacter::Wall));
    assert_eq!(GraphicalCharacter::from_id(GraphicalCharacter::BoxInHole.id()), Some(GraphicalCharacter::BoxInHole));
    assert_eq!(GraphicalCharacter::from_id(18), None);
    assert_eq!(GraphicalCharacter::from_tile(Tile::BoxOnIce), Some(GraphicalCharacter::Box));
    assert_eq!(GraphicalCharacter::from_tile(Tile::Player), None);
    assert_eq!(ConsoleCharacter::from(b'a').get(), Ok(b'a'));
    assert_eq!(ConsoleCharacter::from(GraphicalCharacter::Ice).get(), Err(GraphicalCharacter::Ice));
    assert_eq!(ConsoleCharacter::from(200u8).get(), Ok(b'?'));
    assert_eq!(Color::Default.index(), -1);
    assert_eq!(Color::LightWhite.index(), 15);
}

#[test]
fn key_input_mapping() {
    assert_eq!(Key::from_key_input(None, Some("A")), Some(Key::from_code(Key::A)));
    assert_eq!(Key::from_key_input(None, Some("~")), Some(Key::from_code(Key::TILDE)));
    assert_eq!(Key::from_key_input(Some(NamedKey::Enter), Some("\r")), Some(Key::from_code(Key::ENTER)));
    assert_eq!(Key::from_key_input(Some(NamedKey::Backspace), None), Some(Key::from_code(Key::DELETE)));
    assert_eq!(Key::from_key_input(None, Some("ab")), None);
    assert_eq!(Key::from_key_input(None, None), None);
}

#[test]
fn key_classes() {
    assert!(Key::from_code(Key::LEFT).is_arrow_key());
    assert!(!Key::from_code(Key::ESC).is_arrow_key());
    assert_eq!(Key::from_code(Key::Z).to_ascii(), Some(b'z'));
    assert_eq!(Key::from_code(Key::F1).to_ascii(), None);
    assert!(Key::from_code(Key::DIGIT_5).is_numeric());
    assert!(!Key::from_code(Key::A).is_numeric());
    assert!(Key::from_code(Key::A).is_alphanumeric());
    assert!(!Key::from_code(Key::DOT).is_alphanumeric());
}

#[test]
fn input_queues() {
    let mut state = console();
    assert!(!state.has_input());
    state.input_queue_keyboard_mut().push_back(Key::from_code(Key::UP));
    state.input_queue_mouse_mut().push_back((3, 4));
    assert!(state.has_input());
    assert_eq!(state.get_key(), Some(Key::from_code(Key::UP)));
    assert_eq!(state.get_key(), None);
    assert_eq!(state.get_mouse_pos_clicked(), Some((3, 4)));
}

#[test]
fn tiles_are_drawn_as_characters_or_pictures() {
    assert_eq!(Tile::Wall.tile_look(false), (Color::LightGreen, Color::Default, b'#'));
    assert_eq!(Tile::Player.tile_look(true), (Color::Default, Color::Yellow, b'P'));
    assert_eq!(Tile::BoxInHole.tile_look(false), (Color::Default, Color::LightBlue, b'@'));
    let mut c = console();
    c.set_tile_mode(sokoterm::game::TileMode::Ascii);
    c.set_cursor_pos(2, 0);
    c.draw_tile(Tile::Goal, false, true);
    assert_eq!(row_text(&c, 0, 2, 1), "x");
    assert_eq!(c.current_buffer().text_color_buffer()[2], (Color::Default, Color::LightRed));
    c.set_tile_mode(sokoterm::game::TileMode::Graphical);
    c.draw_tile(Tile::Wall, true, false);
    assert!(c.current_buffer().text_buffer()[3].data >= 128);
    assert_eq!(c.current_buffer().text_color_buffer()[3], (Color::Yellow, Color::Default));
    c.draw_tile(Tile::Player, false, false);
    assert_eq!(row_text(&c, 0, 4, 1), "P");
}

#[test]
fn text_tiles_outside_the_console_change_nothing() {
    let mut c = console();
    c.set_tile_mode(sokoterm::game::TileMode::Ascii);
    c.set_cursor_pos(0, 23);
    c.draw_tile(Tile::Wall, false, false);
    assert!(c.current_buffer().text_buffer().iter().all(|ch| ch.data == b' '));
    c.set_tile_mode(sokoterm::game::TileMode::Graphical);
    c.set_cursor_pos(80, 0);
    c.draw_tile(Tile::Player, false, false);
    assert!(c.current_buffer().text_buffer().iter().all(|ch| ch.data == b' '));
}
