pub mod components;
pub mod dialog;
pub mod in_game;
pub mod select_level;
pub mod utils;

use vstd::prelude::*;
use crate::io::console::{Key, CONSOLE_HEIGHT};
use crate::text::{chars_to_string, split, split_chars, str_chars, trim, trim_chars};
use crate::game::screen::dialog::DialogSelection;

verus! {

/// The screens of the game.
#[derive(Debug, Clone, Copy, PartialEq, Eq, Structural, Hash)]
pub enum ScreenId {
    StartMenu,
    About,
    Settings,
    SelectLevel,
    InGame,
}

/// What a screen asks the game to do after an input.
#[derive(Debug, Clone, Copy, PartialEq, Eq, Structural)]
pub enum ScreenAction {
    Nothing,
    /// Ask whether to exit the game.
    OpenExitDialog,
    /// Go to another screen (with the select sound).
    SetScreen(ScreenId),
    /// Go to the level selection with the cursor on a level (with the select sound).
    SelectLevel(usize),
    OpenHelp,
    Exit,
}

/// The start menu.
#[derive(Debug, Clone, Copy, PartialEq, Eq, Structural)]
pub struct ScreenStartMenu {}

/// The level the level selection starts on: the first level not completed yet, or the first
/// level where all are completed.
pub open spec fn start_level(min_level_not_completed: usize, level_count: usize) -> usize {
    if min_level_not_completed >= level_count {
        0
    } else {
        min_level_not_completed
    }
}

/// A key on the start menu: escape asks to exit, A shows the about screen, S the settings,
/// enter or space start the game (see [`start_level`]).
pub open spec fn start_menu_key(key: Key, min_level_not_completed: usize, level_count: usize) -> ScreenAction {
    if key@ == Key::ESC {
        ScreenAction::OpenExitDialog
    } else if key@ == Key::A {
        ScreenAction::SetScreen(ScreenId::About)
    } else if key@ == Key::S {
        ScreenAction::SetScreen(ScreenId::Settings)
    } else if key@ == Key::ENTER || key@ == Key::SPACE {
        ScreenAction::SelectLevel(start_level(min_level_not_completed, level_count))
    } else {
        ScreenAction::Nothing
    }
}

/// A click on the start menu: on the line to start, on the help, about and settings labels.
pub open spec fn start_menu_click(column: usize, row: usize, min_level_not_completed: usize, level_count: usize) -> ScreenAction {
    if row == 16 && 21 <= column < 51 {
        ScreenAction::SelectLevel(start_level(min_level_not_completed, level_count))
    } else if row == 21 && 64 < column < 73 {
        ScreenAction::OpenHelp
    } else if row == 20 && 64 < column < 73 {
        ScreenAction::SetScreen(ScreenId::About)
    } else if row == 19 && 61 < column < 73 {
        ScreenAction::SetScreen(ScreenId::Settings)
    } else {
        ScreenAction::Nothing
    }
}

impl ScreenStartMenu {
    pub fn new() -> (res: Self)
        ensures
            res == (ScreenStartMenu {}),
    {
        ScreenStartMenu {}
    }

    /// See [`start_menu_key`].
    pub fn on_key_pressed(&self, key: Key, min_level_not_completed: usize, level_count: usize) -> (res: ScreenAction)
        ensures
            res == start_menu_key(key, min_level_not_completed, level_count),
    {
        let k = key.code();
        if k == Key::ESC {
            ScreenAction::OpenExitDialog
        } else if k == Key::A {
            ScreenAction::SetScreen(ScreenId::About)
        } else if k == Key::S {
            ScreenAction::SetScreen(ScreenId::Settings)
        } else if k == Key::ENTER || k == Key::SPACE {
            if min_level_not_completed >= level_count {
                ScreenAction::SelectLevel(0)
            } else {
                ScreenAction::SelectLevel(min_level_not_completed)
            }
        } else {
            ScreenAction::Nothing
        }
    }

    /// See [`start_menu_click`].
    pub fn on_mouse_pressed(&self, column: usize, row: usize, min_level_not_completed: usize, level_count: usize) -> (res: ScreenAction)
        ensures
            res == start_menu_click(column, row, min_level_not_completed, level_count),
    {
        if row == 16 && 21 <= column && column < 51 {
            self.on_key_pressed(Key::from_code(Key::ENTER), min_level_not_completed, level_count)
        } else if row == 21 && column > 64 && column < 73 {
            ScreenAction::OpenHelp
        } else if row == 20 && column > 64 && column < 73 {
            self.on_key_pressed(Key::from_code(Key::A), min_level_not_completed, level_count)
        } else if row == 19 && column > 61 && column < 73 {
            self.on_key_pressed(Key::from_code(Key::S), min_level_not_completed, level_count)
        } else {
            ScreenAction::Nothing
        }
    }

    /// Choosing yes in the exit dialog exits the game.
    pub fn on_dialog_selection(&self, selection: DialogSelection) -> (res: ScreenAction)
        ensures
            res == (if selection == DialogSelection::Yes { ScreenAction::Exit } else { ScreenAction::Nothing }),
    {
        match selection {
            DialogSelection::Yes => ScreenAction::Exit,
            _ => ScreenAction::Nothing,
        }
    }
}

/// The about screen: a text to scroll through.
#[derive(Debug, Clone, Copy, PartialEq, Eq, Structural)]
pub struct ScreenAbout {
    pub scroll_position_row: usize,
    pub scroll_position_row_max: usize,
}

/// The rows of the about text that do not fit on the console, for the given numbers of
/// credited sound effects, music tracks and libraries.
pub open spec fn about_scroll_max(sound_effects: nat, background_music: nat, libraries: nat) -> int {
    11 + 3 + 5 * sound_effects + 3 + 5 * background_music + 3 + 4 * libraries - (CONSOLE_HEIGHT - 1)
}

/// A key on the about screen: escape goes back to the start menu; up and down scroll by a
/// row inside the text.
pub open spec fn about_key(a: ScreenAbout, key: Key) -> (ScreenAbout, ScreenAction) {
    if key@ == Key::ESC {
        (a, ScreenAction::SetScreen(ScreenId::StartMenu))
    } else if key@ == Key::UP && a.scroll_position_row > 0 {
        (ScreenAbout { scroll_position_row: (a.scroll_position_row - 1) as usize, ..a }, ScreenAction::Nothing)
    } else if key@ == Key::DOWN && a.scroll_position_row < a.scroll_position_row_max {
        (ScreenAbout { scroll_position_row: (a.scroll_position_row + 1) as usize, ..a }, ScreenAction::Nothing)
    } else {
        (a, ScreenAction::Nothing)
    }
}

/// A key on the settings screen: escape goes back to the start menu.
pub open spec fn settings_key(key: Key) -> ScreenAction {
    if key@ == Key::ESC {
        ScreenAction::SetScreen(ScreenId::StartMenu)
    } else {
        ScreenAction::Nothing
    }
}

impl ScreenAbout {
    /// The about screen at its top; the credits must fill more than the console.
    pub fn new(sound_effects: usize, background_music: usize, libraries: usize) -> (res: Self)
        requires
            about_scroll_max(sound_effects as nat, background_music as nat, libraries as nat) >= 0,
            11 + 3 + 5 * sound_effects + 3 + 5 * background_music + 3 + 4 * libraries <= usize::MAX,
        ensures
            res.scroll_position_row == 0,
            res.scroll_position_row_max == about_scroll_max(sound_effects as nat, background_music as nat, libraries as nat),
    {
        let mut max: usize = 11;
        max += 3 + 5 * sound_effects;
        max += 3 + 5 * background_music;
        max += 3 + 4 * libraries;
        max -= CONSOLE_HEIGHT - 1;
        ScreenAbout { scroll_position_row: 0, scroll_position_row_max: max }
    }

    /// Escape goes back to the start menu; up and down scroll by a row inside the text (see
    /// [`about_key`]).
    pub fn on_key_pressed(&mut self, key: Key) -> (res: ScreenAction)
        ensures
            (*final(self), res) == about_key(*old(self), key),
    {
        let k = key.code();
        if k == Key::ESC {
            return ScreenAction::SetScreen(ScreenId::StartMenu);
        }
        if k == Key::UP && self.scroll_position_row > 0 {
            self.scroll_position_row -= 1;
        } else if k == Key::DOWN && self.scroll_position_row < self.scroll_position_row_max {
            self.scroll_position_row += 1;
        }
        ScreenAction::Nothing
    }

    /// The console row of a row of the text, where it is visible: the first two console
    /// rows hold the title.
    pub fn visible_row(&self, row: usize) -> (res: Option<usize>)
        ensures
            res == (if self.scroll_position_row + 1 < row < self.scroll_position_row + CONSOLE_HEIGHT {
                Some((row - self.scroll_position_row) as usize)
            } else {
                None::<usize>
            }),
    {
        if row > self.scroll_position_row && row - self.scroll_position_row > 1 && row - self.scroll_position_row
            < CONSOLE_HEIGHT {
            Some(row - self.scroll_position_row)
        } else {
            None
        }
    }
}

/// The fields of a line of an attribution list: its parts between `;`, each trimmed.
pub open spec fn attribution_fields(line: Seq<char>) -> Seq<Seq<char>> {
    split(line, ';').map_values(|t: Seq<char>| trim(t))
}

/// The entries of an attribution list, one for each line that is not blank.
pub open spec fn attribution_rows(lines: Seq<Seq<char>>) -> Seq<Seq<Seq<char>>>
    decreases lines.len(),
{
    if lines.len() == 0 {
        seq![]
    } else {
        let rest = attribution_rows(lines.drop_last());
        if trim(lines.last()).len() > 0 {
            rest.push(attribution_fields(lines.last()))
        } else {
            rest
        }
    }
}

/// The entries of an attribution list (see [`attribution_rows`]): for each line that is not
/// blank, its fields between `;`, trimmed.
pub fn attribution_entries(text: &str) -> (res: Vec<Vec<String>>)
    ensures
        res@.map_values(|r: Vec<String>| r@.map_values(|f: String| f@)) == attribution_rows(split(text@, '\n')),
{
    let chars = str_chars(text);
    let lines = split_chars(chars.as_slice(), '\n');
    let ghost lv = split(text@, '\n');
    let mut res: Vec<Vec<String>> = Vec::new();
    let mut i: usize = 0;
    while i < lines.len()
        invariant
            i <= lines@.len() == lv.len(),
            lv == split(text@, '\n'),
            forall|k: int| 0 <= k < lines@.len() ==> #[trigger] lines@[k]@ == lv[k],
            res@.map_values(|r: Vec<String>| r@.map_values(|f: String| f@)) == attribution_rows(lv.take(i as int)),
        decreases lines@.len() - i,
    {
        let line = lines[i].as_slice();
        assert(line@ == lv[i as int]);
        assert(lv.take(i + 1).drop_last() =~= lv.take(i as int));
        assert(lv.take(i + 1).last() == lv[i as int]);
        let trimmed = trim_chars(line);
        if trimmed.len() > 0 {
            let parts = split_chars(line, ';');
            let ghost pv = split(line@, ';');
            let mut fields: Vec<String> = Vec::new();
            let mut j: usize = 0;
            while j < parts.len()
                invariant
                    j <= parts@.len() == pv.len(),
                    pv == split(line@, ';'),
                    forall|k: int| 0 <= k < parts@.len() ==> #[trigger] parts@[k]@ == pv[k],
                    fields@.len() == j,
                    forall|k: int| 0 <= k < j ==> #[trigger] fields@[k]@ == trim(pv[k]),
                decreases parts@.len() - j,
            {
                let t = trim_chars(parts[j].as_slice());
                fields.push(chars_to_string(t.as_slice()));
                j += 1;
            }
            assert(fields@.map_values(|f: String| f@) =~= attribution_fields(line@));
            let ghost before = res@;
            res.push(fields);
            assert(res@.map_values(|r: Vec<String>| r@.map_values(|f: String| f@)) =~= before.map_values(
                |r: Vec<String>| r@.map_values(|f: String| f@),
            ).push(attribution_fields(line@)));
        }
        i += 1;
    }
    assert(lv.take(lv.len() as int) =~= lv);
    res
}

/// The settings screen.
#[derive(Debug, Clone, Copy, PartialEq, Eq, Structural)]
pub struct ScreenSettings {}

impl ScreenSettings {
    pub fn new() -> (res: Self)
        ensures
            res == (ScreenSettings {}),
    {
        ScreenSettings {}
    }

    /// Escape goes back to the start menu.
    pub fn on_key_pressed(&self, key: Key) -> (res: ScreenAction)
        ensures
            res == settings_key(key),
    {
        if key.code() == Key::ESC {
            ScreenAction::SetScreen(ScreenId::StartMenu)
        } else {
            ScreenAction::Nothing
        }
    }
}

} // verus!
