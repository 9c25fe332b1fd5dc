use vstd::prelude::*;
use crate::game::screen::ScreenId;
use crate::game::screen::components::{
    Rect, UIList, UIListElement, UIListElementView, UIListView, elements_per_row, spec_list_click,
    spec_list_key,
};
use crate::game::screen::utils::{number_to_string_leading_ascii, pow10, spec_number_to_string_leading_ascii};
use crate::game::state::{GameState, GameStateView, HostRequest, Sound};
use crate::io::console::{Color, Key, CONSOLE_HEIGHT, CONSOLE_WIDTH};

verus! {

/// The element that leads back to the start menu.
pub open spec fn back_element() -> UIListElementView {
    UIListElementView { display_text: "<<"@, fg_color: Color::White, bg_color: Color::LightBlue }
}

/// The color of a level in the selection: green where it is completed, yellow for the first
/// level not completed, red for the levels after it.
pub open spec fn level_color(i: int, min_level_not_completed: int) -> Color {
    if i < min_level_not_completed {
        Color::Green
    } else if i == min_level_not_completed {
        Color::Yellow
    } else {
        Color::Red
    }
}

/// The elements of the selection: the way back, then each level by its number.
pub open spec fn level_entries(level_count: nat, min_level_not_completed: usize) -> Seq<UIListElementView> {
    seq![back_element()] + Seq::new(
        level_count,
        |i: int| UIListElementView {
            display_text: spec_number_to_string_leading_ascii(2, (i + 1) as nat, false),
            fg_color: Color::Black,
            bg_color: level_color(i, min_level_not_completed as int),
        },
    )
}

/// The model of the level selection: its list and whether it shows the preview of the
/// level under the cursor.
pub struct ScreenSelectLevelView {
    pub list: UIListView,
    pub level_preview: bool,
}

impl ScreenSelectLevelView {
    /// The list fills the console below the title, starts with the way back and holds no
    /// more levels than the pack.
    pub open spec fn wf(self, level_count: nat) -> bool {
        &&& self.list.rect == Rect { x: 0, y: 1, width: CONSOLE_WIDTH, height: (CONSOLE_HEIGHT - 1) as usize }
        &&& 1 <= self.list.elements.len() <= level_count + 1
        &&& self.list.elements[0] == back_element()
    }

    pub open spec fn with_cursor(self, cursor: usize) -> ScreenSelectLevelView {
        ScreenSelectLevelView { list: UIListView { cursor_index: cursor, ..self.list }, ..self }
    }
}

/// Choosing the element `cursor` of the list: the way back goes to the start menu; a level
/// up to the first one not completed is played; a later level is refused with the error
/// sound.
pub open spec fn select_entry(gs: GameStateView, cursor: usize) -> GameStateView {
    if cursor == 0 {
        gs.play(Sound::UiSelect).with_screen(ScreenId::StartMenu)
    } else if cursor - 1 <= gs.level_pack.min_level_not_completed {
        gs.play(Sound::UiSelect).with_level_index((cursor - 1) as usize).with_screen(ScreenId::InGame)
    } else {
        gs.play(Sound::UiError)
    }
}

/// A key on the level selection: escape leaves the preview, or else goes back to the start
/// menu; P shows or hides the preview; other keys go to the list (see [`spec_list_key`]),
/// whose choice is taken (see [`select_entry`]).
pub open spec fn select_level_key(s: ScreenSelectLevelView, gs: GameStateView, key: Key) -> (ScreenSelectLevelView, GameStateView) {
    if key@ == Key::ESC {
        if s.level_preview {
            (ScreenSelectLevelView { level_preview: false, ..s }, gs.play(Sound::UiSelect))
        } else {
            (s, gs.play(Sound::UiSelect).with_screen(ScreenId::StartMenu))
        }
    } else if key@ == Key::P {
        (ScreenSelectLevelView { level_preview: !s.level_preview, ..s }, gs.play(Sound::UiSelect))
    } else {
        let (cursor, chosen) = spec_list_key(
            s.list.cursor_index,
            s.list.elements.len() as int,
            elements_per_row(s.list.rect.width),
            key,
        );
        match chosen {
            Some(c) => (s.with_cursor(cursor), select_entry(gs, c)),
            None => (s.with_cursor(cursor), gs),
        }
    }
}

/// The row below the list that shows the preview when clicked.
pub open spec fn preview_row(element_count: nat) -> int {
    4 + ((element_count - 1) / 24) * 2 + 1
}

/// A click on the level selection. In the preview, the top row has "previous" on its left,
/// "play" in its middle and "next" on its right. Otherwise a click on the preview label
/// shows the preview, and a click on an element chooses it.
pub open spec fn select_level_click(s: ScreenSelectLevelView, gs: GameStateView, column: usize, row: usize) -> (ScreenSelectLevelView, GameStateView) {
    if s.level_preview {
        if row == 0 && column < 11 {
            select_level_key(s, gs, Key::from_code_spec(Key::LEFT))
        } else if row == 0 && 25 <= column < 48 {
            select_level_key(s, gs, Key::from_code_spec(Key::ENTER))
        } else if row == 0 && column > CONSOLE_WIDTH - 12 {
            select_level_key(s, gs, Key::from_code_spec(Key::RIGHT))
        } else {
            (s, gs)
        }
    } else {
        let (s1, gs1) = if row == preview_row(s.list.elements.len()) && 29 <= column < 54 {
            select_level_key(s, gs, Key::from_code_spec(Key::P))
        } else {
            (s, gs)
        };
        match spec_list_click(s1.list.rect, s1.list.elements.len() as int, column, row) {
            Some(i) => (s1.with_cursor(i), select_entry(gs1, i)),
            None => (s1, gs1),
        }
    }
}

/// Entering the level selection: the levels of the pack, the cursor on the current level,
/// and no preview.
pub open spec fn select_level_set_screen(s: ScreenSelectLevelView, gs: GameStateView) -> ScreenSelectLevelView {
    ScreenSelectLevelView {
        list: UIListView {
            elements: level_entries(gs.level_pack.levels.len(), gs.level_pack.min_level_not_completed),
            cursor_index: (gs.level_index + 1) as usize,
            ..s.list
        },
        level_preview: false,
    }
}

/// The selection with only the way back, without preview.
pub open spec fn initial_select_level() -> ScreenSelectLevelView {
    ScreenSelectLevelView {
        list: UIListView {
            rect: Rect { x: 0, y: 1, width: CONSOLE_WIDTH, height: (CONSOLE_HEIGHT - 1) as usize },
            cursor_index: 0,
            elements: seq![back_element()],
        },
        level_preview: false,
    }
}

/// The level selection: a list of the levels of the pack, or the preview of one.
pub struct ScreenSelectLevel {
    level_list: UIList,
    level_preview: bool,
}

impl View for ScreenSelectLevel {
    type V = ScreenSelectLevelView;

    closed spec fn view(&self) -> ScreenSelectLevelView {
        ScreenSelectLevelView { list: self.level_list@, level_preview: self.level_preview }
    }
}

impl ScreenSelectLevel {
    /// The selection with only the way back, without preview.
    pub fn new() -> (res: Self)
        ensures
            res@ == initial_select_level(),
    {
        let back = UIListElement::new(String::from_str("<<"), Color::White, Color::LightBlue);
        proof {
            reveal_strlit("<<");
        }
        let elements = vec![back];
        let level_list = UIList::new(Rect::new(0, 1, CONSOLE_WIDTH, CONSOLE_HEIGHT - 1), elements);
        let res = ScreenSelectLevel { level_list, level_preview: false };
        assert(res@.list.elements =~= seq![back_element()]);
        res
    }

    pub fn level_list(&self) -> (res: &UIList)
        ensures
            res@ == self@.list,
    {
        &self.level_list
    }

    pub fn is_level_preview(&self) -> (res: bool)
        ensures
            res == self@.level_preview,
    {
        self.level_preview
    }

    /// Puts the levels of the pack into the list, after the way back (see
    /// [`level_entries`]).
    pub fn update_list_elements(&mut self, game_state: &GameState)
        requires
            old(self)@.wf(game_state@.level_pack.levels.len()),
            game_state@.wf(),
        ensures
            final(self)@ == (ScreenSelectLevelView {
                list: UIListView {
                    elements: level_entries(
                        game_state@.level_pack.levels.len(),
                        game_state@.level_pack.min_level_not_completed,
                    ),
                    ..old(self)@.list
                },
                ..old(self)@
            }),
    {
        let level_pack = match game_state.get_current_level_pack() {
            Some(p) => p,
            None => {
                return;
            },
        };
        let count = level_pack.level_count();
        let min_level_not_completed = level_pack.min_level_not_completed();
        let mut elements: Vec<UIListElement> = Vec::new();
        std::mem::swap(&mut elements, self.level_list.elements_mut());
        let ghost back = elements@[0];
        elements.truncate(1);
        let ghost expected = level_entries(count as nat, min_level_not_completed);
        assert(pow10(1) == 10 && pow10(2) == 100) by {
            reveal_with_fuel(pow10, 3);
        }
        let mut i: usize = 0;
        while i < count
            invariant
                i <= count <= 190,
                expected == level_entries(count as nat, min_level_not_completed),
                back@ == back_element(),
                elements@.len() == i + 1,
                elements@[0] == back,
                forall|k: int| 1 <= k <= i ==> (#[trigger] elements@[k])@ == expected[k],
                pow10(1) == 10 && pow10(2) == 100,
            decreases count - i,
        {
            let num: u32 = (i + 1) as u32;
            assert(num < pow10(2) || (num as nat) / pow10(1) - 10 <= 25);
            let number = number_to_string_leading_ascii(2, num, false);
            let color = if i < min_level_not_completed {
                Color::Green
            } else if i == min_level_not_completed {
                Color::Yellow
            } else {
                Color::Red
            };
            elements.push(UIListElement::new(number, Color::Black, color));
            i += 1;
        }
        assert(elements@.map_values(|e: UIListElement| e@) =~= expected);
        std::mem::swap(&mut elements, self.level_list.elements_mut());
    }

    /// Takes the choice of an element (see [`select_entry`]).
    fn on_select(game_state: &mut GameState, cursor_index: usize)
        requires
            old(game_state)@.wf(),
            cursor_index <= old(game_state)@.level_pack.levels.len(),
        ensures
            final(game_state)@ == select_entry(old(game_state)@, cursor_index),
            final(game_state)@.wf(),
    {
        if cursor_index == 0 {
            game_state.play_sound_effect_ui_select();
            game_state.set_screen(ScreenId::StartMenu);
            return;
        }
        let level_index = cursor_index - 1;
        let min_level_not_completed = match game_state.get_current_level_pack() {
            Some(p) => p.min_level_not_completed(),
            None => {
                return;
            },
        };
        if level_index <= min_level_not_completed {
            game_state.play_sound_effect_ui_select();
            game_state.set_level_index(level_index);
            game_state.set_screen(ScreenId::InGame);
        } else {
            game_state.play_sound_effect_ui_error();
        }
    }

    /// See [`select_level_key`].
    pub fn on_key_pressed(&mut self, game_state: &mut GameState, key: Key)
        requires
            old(self)@.wf(old(game_state)@.level_pack.levels.len()),
            old(game_state)@.wf(),
        ensures
            (final(self)@, final(game_state)@) == select_level_key(old(self)@, old(game_state)@, key),
            final(self)@.wf(final(game_state)@.level_pack.levels.len()),
            final(self)@.list.elements == old(self)@.list.elements,
            final(game_state)@.wf(),
    {
        let k = key.code();
        if k == Key::ESC {
            game_state.play_sound_effect_ui_select();
            if self.level_preview {
                self.level_preview = false;
            } else {
                game_state.set_screen(ScreenId::StartMenu);
            }
            return;
        }
        if k == Key::P {
            game_state.play_sound_effect_ui_select();
            self.level_preview = !self.level_preview;
            return;
        }
        match self.level_list.on_key_press(key) {
            Some(cursor_index) => {
                Self::on_select(game_state, cursor_index);
            },
            None => {},
        }
    }

    /// See [`select_level_click`].
    pub fn on_mouse_pressed(&mut self, game_state: &mut GameState, column: usize, row: usize)
        requires
            old(self)@.wf(old(game_state)@.level_pack.levels.len()),
            old(game_state)@.wf(),
        ensures
            (final(self)@, final(game_state)@) == select_level_click(old(self)@, old(game_state)@, column, row),
            final(self)@.wf(final(game_state)@.level_pack.levels.len()),
            final(self)@.list.elements == old(self)@.list.elements,
            final(game_state)@.wf(),
    {
        if self.level_preview {
            if row == 0 {
                let center_text_start: usize = (CONSOLE_WIDTH - 23) / 2;
                if column < 11 {
                    self.on_key_pressed(game_state, Key::from_code(Key::LEFT));
                } else if column >= center_text_start && column < center_text_start + 23 {
                    self.on_key_pressed(game_state, Key::from_code(Key::ENTER));
                } else if column > CONSOLE_WIDTH - 12 {
                    self.on_key_pressed(game_state, Key::from_code(Key::RIGHT));
                }
            }
            return;
        }
        let element_count = self.level_list.elements().len();
        let y = 4 + ((element_count - 1) / 24) * 2;
        if row == y + 1 && 29 <= column && column < 54 {
            self.on_key_pressed(game_state, Key::from_code(Key::P));
        }
        match self.level_list.on_mouse_pressed(column, row) {
            Some(index) => {
                Self::on_select(game_state, index);
            },
            None => {},
        }
    }

    /// On entering the screen: the levels of the pack, the cursor on the current level, and
    /// no preview.
    pub fn on_set_screen(&mut self, game_state: &GameState)
        requires
            old(self)@.wf(game_state@.level_pack.levels.len()),
            game_state@.wf(),
        ensures
            final(self)@ == select_level_set_screen(old(self)@, game_state@),
            final(self)@.wf(game_state@.level_pack.levels.len()),
    {
        self.update_list_elements(game_state);
        self.level_list.set_cursor_index(game_state.get_level_index() + 1);
        self.level_preview = false;
    }
}

/// The level selection starts a level only up to the first level not completed: a key or a
/// click that leads to the level screen leaves a current level no later than that one.
pub proof fn lemma_select_only_unlocked(s: ScreenSelectLevelView, gs: GameStateView, key: Key, column: usize, row: usize)
    requires
        gs.screen == ScreenId::SelectLevel,
    ensures
        select_level_key(s, gs, key).1.screen == ScreenId::InGame ==> select_level_key(s, gs, key).1.level_index
            <= gs.level_pack.min_level_not_completed,
        select_level_click(s, gs, column, row).1.screen == ScreenId::InGame ==> select_level_click(
            s,
            gs,
            column,
            row,
        ).1.level_index <= gs.level_pack.min_level_not_completed,
{
}

/// Choosing on the level selection: the way back (element 0) leads to the start menu; every
/// completed level and the first level not completed (element `c` for level `c - 1`) is
/// started, with the selection sound; any later level is refused with the error sound and
/// nothing else changes. The pack itself is never changed.
pub proof fn lemma_select_entry_starts_unlocked_levels(gs: GameStateView, c: usize)
    ensures
        select_entry(gs, c).level_pack == gs.level_pack,
        c == 0 ==> {
            &&& select_entry(gs, c).screen == ScreenId::StartMenu
            &&& select_entry(gs, c).level_index == gs.level_index
            &&& select_entry(gs, c).requests == gs.requests.push(HostRequest::PlaySound(Sound::UiSelect))
        },
        1 <= c && c - 1 <= gs.level_pack.min_level_not_completed ==> {
            &&& select_entry(gs, c).screen == ScreenId::InGame
            &&& select_entry(gs, c).level_index == c - 1
            &&& select_entry(gs, c).requests == gs.requests.push(HostRequest::PlaySound(Sound::UiSelect))
        },
        1 <= c && c - 1 > gs.level_pack.min_level_not_completed ==> select_entry(gs, c) == (GameStateView {
            requests: gs.requests.push(HostRequest::PlaySound(Sound::UiError)),
            ..gs
        }),
{
}

} // verus!
