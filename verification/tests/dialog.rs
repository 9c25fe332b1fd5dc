use sokoterm::game::screen::dialog::{Dialog, DialogOption, DialogSelection, DialogType, RenderedDialog};
use sokoterm::io::console::{Color, Key};

fn lines(dialog: &RenderedDialog) -> Vec<String> {
    dialog.lines().to_vec()
}

#[test]
fn dialog_types_and_colors() {
    assert_eq!(DialogType::Information.text_color(), Color::Black);
    assert_eq!(DialogType::Error.text_color(), Color::LightRed);
    let d = Dialog::new_ok_error("Oops".to_string());
    assert_eq!(d.dialog_type(), DialogType::Error);
    assert_eq!(d.message(), "Oops");
    assert_eq!(d.options().len(), 1);
    assert_eq!(d.options()[0].text(), "[O]k");
    assert_eq!(d.options()[0].action(), DialogSelection::Okay);
    assert_eq!(d.options()[0].keys().len(), 4);
}

#[test]
fn short_message_is_one_row() {
    let d = Dialog::new_ok("  short  ".to_string()).render(74, 23);
    assert_eq!(lines(&d), vec!["  short  ".to_string()]);
}

#[test]
fn long_message_breaks_after_spaces() {
    let d = Dialog::new_ok("aaaa bbbb cccc".to_string()).render(12, 23);
    assert_eq!(lines(&d), vec!["aaaa bbbb".to_string(), "cccc".to_string()]);
}

#[test]
fn message_breaks_at_dashes_then_slashes_then_width() {
    let d = Dialog::new_ok("abc-defghij".to_string()).render(8, 23);
    assert_eq!(lines(&d), vec!["abc-".to_string(), "defghi".to_string(), "j".to_string()]);
    let d = Dialog::new_ok("ab/cdefghij".to_string()).render(8, 23);
    assert_eq!(lines(&d), vec!["ab/".to_string(), "cdefgh".to_string(), "ij".to_string()]);
    let d = Dialog::new_ok("abcdefghijklmn".to_string()).render(8, 23);
    assert_eq!(lines(&d), vec!["abcdef".to_string(), "ghijkl".to_string(), "mn".to_string()]);
}

#[test]
fn message_line_breaks_are_kept() {
    let d = Dialog::new_ok("a\nb".to_string()).render(74, 23);
    assert_eq!(lines(&d), vec!["a".to_string(), "b".to_string()]);
}

#[test]
fn keys_choose_options() {
    let d = Dialog::new_yes_cancel_no("Save?".to_string()).render(74, 23);
    assert_eq!(d.on_key_pressed(Key::from_code(Key::Y)), Some(DialogSelection::Yes));
    assert_eq!(d.on_key_pressed(Key::from_code(Key::ESC)), Some(DialogSelection::Cancel));
    assert_eq!(d.on_key_pressed(Key::from_code(Key::N)), Some(DialogSelection::No));
    assert_eq!(d.on_key_pressed(Key::from_code(Key::O)), None);
    let ok = Dialog::new_ok("Done".to_string()).render(74, 23);
    assert_eq!(ok.on_key_pressed(Key::from_code(Key::ENTER)), Some(DialogSelection::Okay));
    assert_eq!(ok.on_key_pressed(Key::from_code(Key::SPACE)), Some(DialogSelection::Okay));
}

#[test]
fn layout_of_yes_no_dialog() {
    let d = Dialog::new_yes_no("Exit game?".to_string()).render(74, 23);
    let l = d.layout();
    assert_eq!(l.option_len, 5 + 3 + 4 + 3);
    assert_eq!(l.max_char_count, 10);
    assert_eq!(l.width, 17);
    assert_eq!(l.x_start, (74 - 17 - 2) / 2);
    assert_eq!(l.y_start, (23 - 1 - 5) / 2);
}

#[test]
fn mouse_chooses_options() {
    let d = Dialog::new_yes_no("Exit game?".to_string()).render(74, 23);
    let row = (23 - 1 - 5) / 2 + 1 + 3;
    let x0 = (74 - 17 - 2) / 2 + (17 - 15 + 3) / 2 + 1;
    assert_eq!(d.on_mouse_pressed(x0, row), Some(DialogSelection::Yes));
    assert_eq!(d.on_mouse_pressed(x0 + 4, row), Some(DialogSelection::Yes));
    assert_eq!(d.on_mouse_pressed(x0 + 5, row), None);
    assert_eq!(d.on_mouse_pressed(x0 + 8, row), Some(DialogSelection::No));
    assert_eq!(d.on_mouse_pressed(x0 + 12, row), None);
    assert_eq!(d.on_mouse_pressed(x0 - 1, row), None);
    assert_eq!(d.on_mouse_pressed(x0, row + 1), None);
}

#[test]
fn custom_options() {
    let opt = DialogOption::new("[X]", DialogSelection::Cancel, vec![Key::from_code(Key::X)]);
    let d = Dialog::new(DialogType::Information, "Pick".to_string(), vec![opt, DialogOption::ok()]);
    let r = RenderedDialog::new(d, 40, 10);
    assert_eq!(r.on_key_pressed(Key::from_code(Key::X)), Some(DialogSelection::Cancel));
    assert_eq!(r.dialog().options().len(), 2);
}

#[test]
fn standard_buttons_keep_their_keys() {
    let d = Dialog::new_yes_cancel_no("Save?".to_string());
    let options = d.options();
    assert_eq!(options.len(), 3);
    assert_eq!(options[0].keys(), &[Key::from_code(Key::Y)]);
    assert_eq!(options[1].keys(), &[Key::from_code(Key::C), Key::from_code(Key::ESC)]);
    assert_eq!(options[2].keys(), &[Key::from_code(Key::N)]);
    let ok = Dialog::new_ok("Saved".to_string());
    assert_eq!(ok.dialog_type(), DialogType::Information);
    assert_eq!(
        ok.options()[0].keys(),
        &[Key::from_code(Key::O), Key::from_code(Key::ENTER), Key::from_code(Key::SPACE), Key::from_code(Key::ESC)]
    );
    let r = Dialog::new_yes_cancel_no("q".to_string()).render(74, 23);
    assert_eq!(r.on_key_pressed(Key::from_code(Key::ESC)), Some(DialogSelection::Cancel));
}

#[test]
fn wrapped_rows_fit_and_are_trimmed() {
    let d = Dialog::new_ok("  one two, three; four.  five!six?seven  eight nine ten".to_string()).render(12, 23);
    let rows = lines(&d);
    assert!(rows.len() > 1);
    for row in rows {
        assert!(row.len() <= 10);
        assert_eq!(row.trim(), row);
    }
}
