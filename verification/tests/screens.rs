use sokoterm::game::help_page::{
    help_outline, help_sections, HeadingDepth, HelpPage, SectionLabel, SectionLabelBuilder, SectionLayer, TableOfContents,
};
use sokoterm::game::screen::components::{Rect, UIList, UIListElement};
use sokoterm::game::screen::dialog::DialogSelection;
use sokoterm::game::screen::utils::number_to_string_leading_ascii;
use sokoterm::game::screen::{ScreenAbout, ScreenAction, ScreenId, ScreenSettings, ScreenStartMenu};
use sokoterm::io::console::{Color, Key};

fn key(code: u16) -> Key {
    Key::from_code(code)
}

#[test]
fn number_with_leading_letter() {
    assert_eq!(number_to_string_leading_ascii(3, 5, true), "005");
    assert_eq!(number_to_string_leading_ascii(3, 5, false), "  5");
    assert_eq!(number_to_string_leading_ascii(2, 100, false), "A0");
    assert_eq!(number_to_string_leading_ascii(2, 359, true), "Z9");
    assert_eq!(number_to_string_leading_ascii(1, 10, true), "A");
    assert_eq!(number_to_string_leading_ascii(3, 1234, true), "C34");
    assert_eq!(number_to_string_leading_ascii(4, 1234, false), "1234");
}

fn list(n: usize) -> UIList {
    let elements = (0..n).map(|i| UIListElement::new(format!("{:2}", i), Color::Black, Color::White)).collect();
    UIList::new(Rect::new(0, 0, 10, 10), elements)
}

#[test]
fn list_cursor_moves_inside() {
    let mut l = list(7);
    assert_eq!(l.cursor_index(), 0);
    assert_eq!(l.on_key_press(key(Key::LEFT)), None);
    assert_eq!(l.cursor_index(), 0);
    l.on_key_press(key(Key::D));
    assert_eq!(l.cursor_index(), 1);
    l.on_key_press(key(Key::DOWN));
    assert_eq!(l.cursor_index(), 4);
    l.on_key_press(key(Key::DOWN));
    assert_eq!(l.cursor_index(), 4);
    l.on_key_press(key(Key::UP));
    assert_eq!(l.cursor_index(), 1);
    l.on_key_press(key(Key::UP));
    assert_eq!(l.cursor_index(), 1);
    l.set_cursor_index(6);
    l.on_key_press(key(Key::RIGHT));
    assert_eq!(l.cursor_index(), 6);
    assert_eq!(l.on_key_press(key(Key::ENTER)), Some(6));
    l.set_cursor_index(9);
    assert_eq!(l.on_key_press(key(Key::SPACE)), None);
}

#[test]
fn list_click_chooses_element() {
    let mut l = list(7);
    assert_eq!(l.on_mouse_pressed(4, 2), Some(4));
    assert_eq!(l.cursor_index(), 4);
    assert_eq!(l.on_mouse_pressed(8, 4), None);
    assert_eq!(l.cursor_index(), 4);
    let mut shifted = UIList::new(Rect::new(5, 5, 10, 10), Vec::new());
    assert_eq!(shifted.on_mouse_pressed(1, 1), None);
    assert_eq!(l.elements()[2].display_text(), " 2");
    assert_eq!(l.elements()[2].fg_color(), Color::Black);
    assert_eq!(l.elements()[2].bg_color(), Color::White);
}

#[test]
fn start_menu_actions() {
    let menu = ScreenStartMenu::new();
    assert_eq!(menu.on_key_pressed(key(Key::ESC), 0, 3), ScreenAction::OpenExitDialog);
    assert_eq!(menu.on_key_pressed(key(Key::A), 0, 3), ScreenAction::SetScreen(ScreenId::About));
    assert_eq!(menu.on_key_pressed(key(Key::S), 0, 3), ScreenAction::SetScreen(ScreenId::Settings));
    assert_eq!(menu.on_key_pressed(key(Key::ENTER), 2, 3), ScreenAction::SelectLevel(2));
    assert_eq!(menu.on_key_pressed(key(Key::SPACE), 3, 3), ScreenAction::SelectLevel(0));
    assert_eq!(menu.on_key_pressed(key(Key::Q), 0, 3), ScreenAction::Nothing);
    assert_eq!(menu.on_mouse_pressed(30, 16, 1, 3), ScreenAction::SelectLevel(1));
    assert_eq!(menu.on_mouse_pressed(70, 21, 1, 3), ScreenAction::OpenHelp);
    assert_eq!(menu.on_mouse_pressed(70, 20, 1, 3), ScreenAction::SetScreen(ScreenId::About));
    assert_eq!(menu.on_mouse_pressed(62, 19, 1, 3), ScreenAction::SetScreen(ScreenId::Settings));
    assert_eq!(menu.on_mouse_pressed(61, 19, 1, 3), ScreenAction::Nothing);
    assert_eq!(menu.on_dialog_selection(DialogSelection::Yes), ScreenAction::Exit);
    assert_eq!(menu.on_dialog_selection(DialogSelection::No), ScreenAction::Nothing);
}

#[test]
fn about_scrolls_inside_the_text() {
    let mut about = ScreenAbout::new(2, 1, 3);
    assert_eq!(about.scroll_position_row_max, 11 + 3 + 10 + 3 + 5 + 3 + 12 - 22);
    assert_eq!(about.on_key_pressed(key(Key::UP)), ScreenAction::Nothing);
    assert_eq!(about.scroll_position_row, 0);
    for _ in 0..100 {
        about.on_key_pressed(key(Key::DOWN));
    }
    assert_eq!(about.scroll_position_row, about.scroll_position_row_max);
    assert_eq!(about.on_key_pressed(key(Key::ESC)), ScreenAction::SetScreen(ScreenId::StartMenu));
    assert_eq!(about.visible_row(about.scroll_position_row + 1), None);
    assert_eq!(about.visible_row(about.scroll_position_row + 2), Some(2));
    assert_eq!(about.visible_row(about.scroll_position_row + 23), None);
    assert_eq!(ScreenSettings::new().on_key_pressed(key(Key::ESC)), ScreenAction::SetScreen(ScreenId::StartMenu));
}

#[test]
fn section_labels_are_numbered() {
    let mut b = SectionLabelBuilder::new();
    let a = b.new_section("Basics");
    let a1 = b.new_sub_section("Keys");
    let a11 = b.new_sub_sub_section("Menu");
    let a12 = b.new_sub_sub_section("Game");
    let c = b.new_section("More");
    let c1 = b.new_sub_section("Mouse");
    assert_eq!(a.layer(), SectionLayer::Section(1));
    assert_eq!(a1.layer(), SectionLayer::SubSection(1, 1));
    assert_eq!(a11.layer(), SectionLayer::SubSubSection(1, 1, 1));
    assert_eq!(a12.layer(), SectionLayer::SubSubSection(1, 1, 2));
    assert_eq!(c.layer(), SectionLayer::Section(2));
    assert_eq!(c1.layer(), SectionLayer::SubSection(2, 1));
    assert_eq!(a12.reference_text(), "1.1.2 Game");
    assert_eq!(SectionLayer::Section(1).get_heading_color(), Color::Blue);
    assert_eq!(SectionLayer::SubSection(1, 1).get_heading_color(), Color::Green);
    assert_eq!(SectionLayer::SubSubSection(1, 1, 1).get_heading_color(), Color::Cyan);
}

#[test]
fn table_of_contents_entries() {
    let label = SectionLabel::new(SectionLayer::SubSection(2, 3), "Keys", 4);
    assert_eq!(label.page_entry_text(16), "  2.3 Keys.....5");
    let toc = TableOfContents::new(vec![
        SectionLabel::new(SectionLayer::Section(1), "A", 1),
        SectionLabel::new(SectionLayer::Section(2), "B", 2),
        SectionLabel::new(SectionLayer::Section(3), "C", 3),
    ]);
    assert_eq!(toc.page_count(2), 2);
    assert_eq!(toc.page_count(3), 1);
    assert_eq!(TableOfContents::new(Vec::new()).page_count(0), 0);
    assert_eq!(toc.get_page_mouse_clicked(2, 1, 0), Some(3));
    assert_eq!(toc.get_page_mouse_clicked(2, 1, 1), None);
    assert_eq!(toc.get_page_mouse_clicked(usize::MAX, 2, 0), None);
}

fn help_page() -> HelpPage {
    let mut b = SectionLabelBuilder::new();
    let sections = vec![
        (b.new_section("Basic controls"), 0),
        (b.new_sub_section("Keyboard"), 3),
        (b.new_sub_sub_section("Menus"), 2),
        (b.new_section("Tiles"), 1),
        (b.new_sub_section("Floor"), 4),
    ];
    HelpPage::new(74, 12, sections)
}

#[test]
fn help_page_is_paginated() {
    let page = help_page();
    assert_eq!(page.page(), 0);
    let pages: Vec<u32> = page.table_of_contents().sections().iter().map(|s| s.page()).collect();
    assert_eq!(pages, vec![1, 1, 2, 3, 4]);
    assert_eq!(page.page_count(), 5);
    assert!(page.is_table_of_contents_page());
}

#[test]
fn help_page_flips_round() {
    let mut page = help_page();
    assert!(page.on_key_pressed(key(Key::UP)));
    assert_eq!(page.page(), 4);
    assert!(page.on_key_pressed(key(Key::DOWN)));
    assert_eq!(page.page(), 0);
    assert!(!page.on_key_pressed(key(Key::A)));
    for _ in 0..5 {
        page.on_key_pressed(key(Key::DOWN));
    }
    assert_eq!(page.page(), 0);
    assert!(page.on_mouse_pressed(23, 3, 22));
    assert_eq!(page.page(), 1);
    assert_eq!(page.page_sections(), Some((0, 2)));
    assert!(!page.on_mouse_pressed(23, 3, 2));
    page.on_key_pressed(key(Key::UP));
    assert!(page.on_mouse_pressed(23, 30, 5));
    assert_eq!(page.page(), 3);
}

#[test]
fn attribution_lists_are_split_into_fields() {
    let entries = sokoterm::game::screen::attribution_entries("A; by B ;CC0; link\n\n   \nLib;MIT;url\r\n");
    assert_eq!(entries.len(), 2);
    assert_eq!(entries[0], vec!["A".to_string(), "by B".to_string(), "CC0".to_string(), "link".to_string()]);
    assert_eq!(entries[1], vec!["Lib".to_string(), "MIT".to_string(), "url".to_string()]);
    assert!(sokoterm::game::screen::attribution_entries("").is_empty());
}

#[test]
fn numbers_keep_their_width_and_order() {
    let mut previous: Option<String> = None;
    for num in 0u32..360 {
        let zero_filled = number_to_string_leading_ascii(2, num, true);
        let space_filled = number_to_string_leading_ascii(2, num, false);
        assert_eq!(zero_filled.len(), 2);
        assert_eq!(space_filled.len(), 2);
        if let Some(prev) = previous {
            assert!(prev < zero_filled);
        }
        previous = Some(zero_filled);
    }
    assert_eq!(number_to_string_leading_ascii(3, 7, false), "  7");
    assert_eq!(number_to_string_leading_ascii(3, 7, true), "007");
    assert_eq!(number_to_string_leading_ascii(3, 1000, true), "A00");
}

#[test]
fn help_text_headings_are_numbered() {
    let outline = help_outline();
    assert_eq!(outline.len(), 19);
    assert_eq!(outline[0], (HeadingDepth::Section, "Basic controls", 0));
    let sections = help_sections();
    assert_eq!(sections.len(), 19);
    let texts: Vec<String> = sections.iter().map(|(label, _)| label.reference_text()).collect();
    assert_eq!(texts[0], "1 Basic controls");
    assert_eq!(texts[1], "1.1 Keyboard");
    assert_eq!(texts[2], "1.1.1 Level (pack) selection");
    assert_eq!(texts[4], "1.2 Mouse input");
    assert_eq!(texts[7], "2 Gameplay");
    assert_eq!(texts[11], "3.1.1 Level pack selection");
    assert_eq!(texts[18], "4 Command-line arguments");
    assert_eq!(sections[15].1, 18);
    let page = HelpPage::with_help_text(74, 23);
    assert_eq!(page.page(), 0);
    assert_eq!(page.table_of_contents().sections().len(), 19);
    assert_eq!(page.line_counts().len(), 19);
    assert!(page.page_count() >= 2);
}
