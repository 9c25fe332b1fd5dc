use vstd::prelude::*;
use crate::game::{GameError, GameSettings, animation_quarters, spec_next_setting};
use crate::game::audio::{BackgroundMusic, BackgroundMusicId};
use crate::game::help_page::{HelpPage, HelpPageView, help_click, spec_flip_page};
use crate::game::level::LevelView;
use crate::game::level_pack::{LevelPack, LevelPackView};
use crate::game::screen::{
    ScreenAbout, ScreenAction, ScreenId, ScreenSettings, ScreenStartMenu, about_key, settings_key,
    start_menu_click, start_menu_key,
};
use crate::game::screen::dialog::{
    Dialog, DialogSelection, key_selection, mouse_selection, yes_no_dialog,
};
use crate::game::screen::in_game::{
    ScreenInGame, ScreenInGameView, initial_in_game, in_game_animate, in_game_continue, in_game_dialog_selection,
    in_game_key, in_game_set_screen, in_game_update,
};
use crate::game::screen::select_level::{
    ScreenSelectLevel, ScreenSelectLevelView, initial_select_level, select_level_click, select_level_key,
    select_level_set_screen,
};
use crate::game::state::{
    GameState, GameStateView, HostRequest, Sound, advance_background, initial_state,
};
use crate::io::console::{Key, CONSOLE_HEIGHT, CONSOLE_WIDTH};
use crate::text::{decimal, push_decimal, push_str, chars_to_string};

verus! {

/// The widest level the console can show.
pub const LEVEL_MAX_WIDTH: usize = 74;

/// The highest level the console can show, below the status row.
pub const LEVEL_MAX_HEIGHT: usize = 22;

/// The model of the game: its screens, the help page and the state they share, and the
/// music of the start menu.
pub struct GameView {
    pub about: ScreenAbout,
    pub select_level: ScreenSelectLevelView,
    pub in_game: ScreenInGameView,
    pub help: HelpPageView,
    pub state: GameStateView,
    pub title_music: BackgroundMusicId,
}

impl GameView {
    pub open spec fn wf(self) -> bool {
        &&& self.state.wf()
        &&& self.select_level.wf(self.state.level_pack.levels.len())
        &&& self.in_game.wf()
        &&& self.help.wf()
    }

    pub open spec fn with_state(self, gs: GameStateView) -> GameView {
        GameView { state: gs, ..self }
    }
}

/// What a screen action does to the state: the exit question, a screen change or the
/// start of the level selection (with the select sound), the help page (with the sound of
/// a book), or the end of the game.
pub open spec fn apply_action(gs: GameStateView, a: ScreenAction) -> GameStateView {
    match a {
        ScreenAction::Nothing => gs,
        ScreenAction::OpenExitDialog => gs.with_dialog(yes_no_dialog("Exit game?"@)),
        ScreenAction::SetScreen(id) => gs.play(Sound::UiSelect).with_screen(id),
        ScreenAction::SelectLevel(i) => gs.play(Sound::UiSelect).with_level_index(i).with_screen(ScreenId::SelectLevel),
        ScreenAction::OpenHelp => GameStateView { is_help: true, ..gs }.play(Sound::BookOpen),
        ScreenAction::Exit => GameStateView { should_exit: true, ..gs },
    }
}

/// A key handed to the current screen.
pub open spec fn screen_key(g: GameView, key: Key, now: u64) -> GameView {
    let gs = g.state;
    match gs.screen {
        ScreenId::StartMenu => g.with_state(apply_action(
            gs,
            start_menu_key(key, gs.level_pack.min_level_not_completed, gs.level_pack.levels.len() as usize),
        )),
        ScreenId::About => {
            let (a, act) = about_key(g.about, key);
            GameView { about: a, state: apply_action(gs, act), ..g }
        },
        ScreenId::Settings => g.with_state(apply_action(gs, settings_key(key))),
        ScreenId::SelectLevel => {
            let (s, gs1) = select_level_key(g.select_level, gs, key);
            GameView { select_level: s, state: gs1, ..g }
        },
        ScreenId::InGame => {
            let (s, gs1) = in_game_key(g.in_game, gs, key, now);
            GameView { in_game: s, state: gs1, ..g }
        },
    }
}

/// A button of the open dialog chosen: the dialog closes, the current screen takes the
/// choice (yes on the start menu ends the game), and the select sound is played.
pub open spec fn dialog_chosen(g: GameView, selection: DialogSelection, now: u64) -> GameView {
    let gs0 = GameStateView { dialog: None, ..g.state };
    let g1 = match g.state.screen {
        ScreenId::StartMenu => g.with_state(apply_action(
            gs0,
            if selection == DialogSelection::Yes { ScreenAction::Exit } else { ScreenAction::Nothing },
        )),
        ScreenId::InGame => {
            let (s, gs1) = in_game_dialog_selection(g.in_game, gs0, selection, now);
            GameView { in_game: s, state: gs1, ..g }
        },
        _ => g.with_state(gs0),
    };
    g1.with_state(g1.state.play(Sound::UiSelect))
}

/// A key: F7 chooses the next animation speed and F8 turns the music on or off (both saved,
/// with the select sound). On the help page F1 or escape close it (the screen goes on),
/// and up and down turn its pages. An open dialog takes the key. Otherwise F1 opens the
/// help page (the screen pauses) and other keys go to the current screen.
#[verifier::opaque]
pub open spec fn game_key(g: GameView, key: Key, now: u64) -> GameView {
    let gs = g.state;
    let k = key@;
    if k == Key::F7 {
        let gs1 = gs.play(Sound::UiSelect);
        g.with_state(GameStateView {
            settings: GameSettings { animation_speed: spec_next_setting(gs.settings.animation_speed), ..gs.settings },
            ..gs1
        }.request(HostRequest::SaveSettings))
    } else if k == Key::F8 {
        g.with_state(gs.play(Sound::UiSelect).with_music_enabled(!gs.settings.background_music).request(HostRequest::SaveSettings))
    } else if gs.is_help {
        if k == Key::F1 || k == Key::ESC {
            let gs1 = GameStateView { is_help: false, ..gs }.play(Sound::UiSelect);
            if gs.screen == ScreenId::InGame {
                GameView { in_game: in_game_continue(g.in_game, now), state: gs1, ..g }
            } else {
                g.with_state(gs1)
            }
        } else {
            let turned = k == Key::UP || k == Key::DOWN;
            GameView {
                help: HelpPageView { page: spec_flip_page(g.help.page, g.help.page_count, key), ..g.help },
                state: if turned { gs.play(Sound::BookFlip) } else { gs },
                ..g
            }
        }
    } else if gs.dialog is Some {
        match key_selection(gs.dialog->0.dialog.options, key) {
            Some(selection) => dialog_chosen(g, selection, now),
            None => g,
        }
    } else if k == Key::F1 {
        let gs1 = GameStateView { is_help: true, ..gs }.play(Sound::BookOpen);
        if gs.screen == ScreenId::InGame {
            GameView { in_game: ScreenInGameView { time_start_in_menu: Some(now), ..g.in_game }, state: gs1, ..g }
        } else {
            g.with_state(gs1)
        }
    } else {
        screen_key(g, key, now)
    }
}

/// A click: on the help page (see [`help_click`], with the sound of a page turned), on the
/// open dialog, or on the current screen. A click on the about screen is left to the host,
/// which scrolls the text: the second part tells whether it is one.
#[verifier::opaque]
pub open spec fn game_mouse(g: GameView, column: usize, row: usize, now: u64) -> (GameView, bool) {
    let gs = g.state;
    if gs.is_help {
        let (h, turned) = help_click(g.help, CONSOLE_HEIGHT, column, row);
        (GameView { help: h, state: if turned { gs.play(Sound::BookFlip) } else { gs }, ..g }, false)
    } else if gs.dialog is Some {
        match mouse_selection(gs.dialog->0, column, row) {
            Some(selection) => (dialog_chosen(g, selection, now), false),
            None => (g, false),
        }
    } else {
        match gs.screen {
            ScreenId::StartMenu => (g.with_state(apply_action(
                gs,
                start_menu_click(column, row, gs.level_pack.min_level_not_completed, gs.level_pack.levels.len() as usize),
            )), false),
            ScreenId::SelectLevel => {
                let (s, gs1) = select_level_click(g.select_level, gs, column, row);
                (GameView { select_level: s, state: gs1, ..g }, false)
            },
            ScreenId::About => (g, true),
            _ => (g, false),
        }
    }
}

/// Entering the current screen: the start menu plays its music, the level selection and
/// the level screen are set up.
pub open spec fn set_screen_effect(g: GameView) -> GameView {
    let gs0 = GameStateView { call_on_set_screen: false, ..g.state };
    match gs0.screen {
        ScreenId::StartMenu => g.with_state(gs0.with_music(g.title_music)),
        ScreenId::SelectLevel => GameView { select_level: select_level_set_screen(g.select_level, gs0), state: gs0, ..g },
        ScreenId::InGame => {
            let (s, gs1) = in_game_set_screen(g.in_game, gs0);
            GameView { in_game: s, state: gs1, ..g }
        },
        _ => g.with_state(gs0),
    }
}

/// One animation step of the current screen.
pub open spec fn animate_once(g: GameView, now: u64) -> GameView {
    if g.state.screen == ScreenId::InGame {
        let (s, gs1) = in_game_animate(g.in_game, g.state, now);
        GameView { in_game: s, state: gs1, ..g }
    } else {
        g
    }
}

/// `n` animation steps.
pub open spec fn animate_n(g: GameView, n: nat, now: u64) -> GameView
    decreases n,
{
    if n == 0 {
        g
    } else {
        animate_once(animate_n(g, (n - 1) as nat, now), now)
    }
}

/// The animation steps due with `p` quarters owed: one for each started four quarters.
pub open spec fn animation_steps(p: int) -> nat {
    if p > 0 {
        ((p + 3) / 4) as nat
    } else {
        0
    }
}

/// The screen part of an update, where the help page is closed: the current screen is
/// set up where it was just entered, its clock runs, and the animation steps due are made.
#[verifier::opaque]
pub open spec fn run_screen(g: GameView, now: u64) -> GameView {
    let ga = if g.state.call_on_set_screen { set_screen_effect(g) } else { g };
    let gb = if ga.state.screen == ScreenId::InGame {
        GameView { in_game: in_game_update(ga.in_game, ga.state, now), ..ga }
    } else {
        ga
    };
    let p = gb.state.pending_animation_quarters + animation_quarters(gb.state.settings.animation_speed);
    let n = animation_steps(p);
    let gc = animate_n(gb, n, now);
    gc.with_state(GameStateView { pending_animation_quarters: (p - 4 * n) as i32, ..gc.state })
}

/// What an update hands back: whether the game ends, and a click left to the host for the
/// about screen.
#[derive(Debug, Clone, Copy)]
pub struct UpdateOutcome {
    pub should_stop: bool,
    pub about_click: Option<(usize, usize)>,
}

/// An update: nothing once the game is to end; otherwise the key, then the click, then,
/// where the help page is closed, the screen part (see [`run_screen`]), then the blinking of
/// the player.
pub open spec fn game_update(g: GameView, key: Option<Key>, mouse: Option<(usize, usize)>, now: u64) -> (GameView, UpdateOutcome) {
    if g.state.should_exit {
        (g, UpdateOutcome { should_stop: true, about_click: None })
    } else {
        let g1 = match key {
            Some(k) => game_key(g, k, now),
            None => g,
        };
        let (g2, about) = match mouse {
            Some(m) => game_mouse(g1, m.0, m.1, now),
            None => (g1, false),
        };
        let g3 = if g2.state.is_help { g2 } else { run_screen(g2, now) };
        (
            g3.with_state(advance_background(g3.state)),
            UpdateOutcome { should_stop: false, about_click: if about { mouse } else { None } },
        )
    }
}

/// A level fits on the console.
pub open spec fn level_fits(l: LevelView) -> bool {
    l.width <= LEVEL_MAX_WIDTH && l.height <= LEVEL_MAX_HEIGHT
}

/// The message for a console that is too small.
pub open spec fn console_too_small_message() -> Seq<char> {
    "Console is to small (Min: 74 x 23)!"@
}

/// The message for level `number` of a pack that is too large.
pub open spec fn level_too_large_message(id: Seq<char>, number: nat) -> Seq<char> {
    "Error while loading level pack \""@ + id + "\": Level "@ + decimal(number) + " is too large (Max: 74x22)"@
}

/// The game: its screens, the help page and the state they share.
pub struct Game {
    start_menu: ScreenStartMenu,
    about: ScreenAbout,
    settings: ScreenSettings,
    select_level: ScreenSelectLevel,
    in_game: ScreenInGame,
    help_page: HelpPage,
    game_state: GameState,
    title_music: BackgroundMusicId,
}

impl View for Game {
    type V = GameView;

    closed spec fn view(&self) -> GameView {
        GameView {
            about: self.about,
            select_level: self.select_level@,
            in_game: self.in_game@,
            help: self.help_page@,
            state: self.game_state@,
            title_music: self.title_music,
        }
    }
}

impl Game {
    /// Starts the game on a console of `width` by `height` characters with a pack of levels,
    /// the settings read, the help page and the about screen laid out, and the music of the
    /// start menu. The console must be at least 74 by 23 characters and each level must fit
    /// on it; the first level too large is named in the error.
    pub fn new(
        width: usize,
        height: usize,
        level_pack: LevelPack,
        settings: GameSettings,
        help_page: HelpPage,
        about: ScreenAbout,
        title_music: &BackgroundMusic,
    ) -> (res: Result<Self, GameError>)
        requires
            level_pack@.playable(),
            help_page@.wf(),
        ensures
            width < CONSOLE_WIDTH || height < CONSOLE_HEIGHT ==> (res matches Err(e) && e@ == console_too_small_message()),
            !(width < CONSOLE_WIDTH || height < CONSOLE_HEIGHT) ==> match res {
                Err(e) => exists|i: int|
                    0 <= i < level_pack@.levels.len()
                    && !level_fits(#[trigger] level_pack@.levels[i].level)
                    && (forall|j: int| 0 <= j < i ==> level_fits(#[trigger] level_pack@.levels[j].level))
                    && e@ == level_too_large_message(level_pack@.id, (i + 1) as nat),
                Ok(_) => true,
            },
            !(width < CONSOLE_WIDTH || height < CONSOLE_HEIGHT) && (forall|j: int|
                0 <= j < level_pack@.levels.len() ==> level_fits(#[trigger] level_pack@.levels[j].level)) ==> res is Ok,
            res matches Ok(g) ==> {
                &&& g@.wf()
                &&& g@ == (GameView {
                    about,
                    select_level: initial_select_level(),
                    in_game: initial_in_game(),
                    help: help_page@,
                    state: initial_state(level_pack@, settings).with_music(title_music.spec_id()),
                    title_music: title_music.spec_id(),
                })
            },
    {
        if width < CONSOLE_WIDTH || height < CONSOLE_HEIGHT {
            return Err(GameError::new(String::from_str("Console is to small (Min: 74 x 23)!")));
        }
        let levels = level_pack.levels();
        let n = levels.len();
        let mut i: usize = 0;
        while i < n
            invariant
                i <= n == levels@.len() == level_pack@.levels.len(),
                forall|k: int| 0 <= k < levels@.len() ==> (#[trigger] levels@[k])@ == level_pack@.levels[k],
                forall|j: int| 0 <= j < i ==> level_fits(#[trigger] level_pack@.levels[j].level),
                n <= 190,
                width >= CONSOLE_WIDTH && height >= CONSOLE_HEIGHT,
            decreases n - i,
        {
            let level = levels[i].level();
            assert(levels@[i as int]@ == level_pack@.levels[i as int]);
            if level.width() > LEVEL_MAX_WIDTH || level.height() > LEVEL_MAX_HEIGHT {
                let mut message: Vec<char> = Vec::new();
                push_str(&mut message, "Error while loading level pack \"");
                push_str(&mut message, level_pack.id());
                push_str(&mut message, "\": Level ");
                push_decimal(&mut message, (i + 1) as u64);
                push_str(&mut message, " is too large (Max: 74x22)");
                assert(message@ =~= level_too_large_message(level_pack@.id, (i + 1) as nat));
                return Err(GameError::new(chars_to_string(message.as_slice())));
            }
            i += 1;
        }
        let title_music_id = title_music.id();
        let mut game_state = GameState::new(level_pack, settings);
        game_state.set_background_music_loop_by_id(title_music_id);
        let res = Game {
            start_menu: ScreenStartMenu::new(),
            about,
            settings: ScreenSettings::new(),
            select_level: ScreenSelectLevel::new(),
            in_game: ScreenInGame::new(),
            help_page,
            game_state,
            title_music: title_music_id,
        };
        Ok(res)
    }

    pub fn game_state(&self) -> (res: &GameState)
        ensures
            res@ == self@.state,
    {
        &self.game_state
    }

    /// The state, to change it; the caller keeps the game well formed.
    pub fn game_state_mut(&mut self) -> (res: &mut GameState)
        ensures
            res@ == old(self)@.state,
            final(self)@ == old(self)@.with_state(final(res)@),
    {
        &mut self.game_state
    }

    pub fn about(&self) -> (res: &ScreenAbout)
        ensures
            *res == self@.about,
    {
        &self.about
    }

    /// The about screen, whose scroll bar the host handles.
    pub fn about_mut(&mut self) -> (res: &mut ScreenAbout)
        ensures
            *res == old(self)@.about,
            final(self)@ == (GameView { about: *final(res), ..old(self)@ }),
    {
        &mut self.about
    }

    pub fn select_level(&self) -> (res: &ScreenSelectLevel)
        ensures
            res@ == self@.select_level,
    {
        &self.select_level
    }

    pub fn in_game(&self) -> (res: &ScreenInGame)
        ensures
            res@ == self@.in_game,
    {
        &self.in_game
    }

    pub fn help_page(&self) -> (res: &HelpPage)
        ensures
            res@ == self@.help,
    {
        &self.help_page
    }

    /// Opens a dialog of the host, such as an error (see [`GameStateView::with_dialog`]);
    /// whether it could be shown.
    pub fn open_dialog(&mut self, dialog: Dialog) -> (res: bool)
        requires
            old(self)@.wf(),
        ensures
            final(self)@ == old(self)@.with_state(old(self)@.state.with_dialog(dialog@)),
            final(self)@.wf(),
    {
        self.game_state.open_dialog(dialog)
    }

    /// Hands what was asked of the host over, oldest first, and forgets it.
    pub fn take_requests(&mut self) -> (res: Vec<HostRequest>)
        requires
            old(self)@.wf(),
        ensures
            res@ == old(self)@.state.requests,
            final(self)@ == old(self)@.with_state(GameStateView { requests: Seq::empty(), ..old(self)@.state }),
            final(self)@.wf(),
    {
        self.game_state.take_requests()
    }

    /// See [`apply_action`].
    fn apply_action(&mut self, action: ScreenAction)
        requires
            old(self)@.wf(),
            action matches ScreenAction::SelectLevel(i) ==> i < old(self)@.state.level_pack.levels.len(),
        ensures
            final(self)@ == old(self)@.with_state(apply_action(old(self)@.state, action)),
            final(self)@.wf(),
    {
        match action {
            ScreenAction::Nothing => {},
            ScreenAction::OpenExitDialog => {
                let _ = self.game_state.open_dialog(Dialog::new_yes_no(String::from_str("Exit game?")));
            },
            ScreenAction::SetScreen(id) => {
                self.game_state.play_sound_effect_ui_select();
                self.game_state.set_screen(id);
            },
            ScreenAction::SelectLevel(i) => {
                self.game_state.play_sound_effect_ui_select();
                self.game_state.set_level_index(i);
                self.game_state.set_screen(ScreenId::SelectLevel);
            },
            ScreenAction::OpenHelp => {
                self.game_state.open_help_page();
            },
            ScreenAction::Exit => {
                self.game_state.exit();
            },
        }
    }

    /// See [`screen_key`].
    fn screen_key(&mut self, key: Key, now: u64)
        requires
            old(self)@.wf(),
        ensures
            final(self)@ == screen_key(old(self)@, key, now),
            final(self)@.wf(),
    {
        match self.game_state.current_screen_id() {
            ScreenId::StartMenu => {
                let (min, count) = match self.game_state.get_current_level_pack() {
                    Some(p) => (p.min_level_not_completed(), p.level_count()),
                    None => {
                        return;
                    },
                };
                let action = self.start_menu.on_key_pressed(key, min, count);
                self.apply_action(action);
            },
            ScreenId::About => {
                let action = self.about.on_key_pressed(key);
                self.apply_action(action);
            },
            ScreenId::Settings => {
                let action = self.settings.on_key_pressed(key);
                self.apply_action(action);
            },
            ScreenId::SelectLevel => {
                self.select_level.on_key_pressed(&mut self.game_state, key);
            },
            ScreenId::InGame => {
                self.in_game.on_key_pressed(&mut self.game_state, key, now);
            },
        }
    }

    /// See [`dialog_chosen`].
    fn dialog_chosen(&mut self, selection: DialogSelection, now: u64)
        requires
            old(self)@.wf(),
        ensures
            final(self)@ == dialog_chosen(old(self)@, selection, now),
            final(self)@.wf(),
    {
        self.game_state.close_dialog();
        match self.game_state.current_screen_id() {
            ScreenId::StartMenu => {
                let action = self.start_menu.on_dialog_selection(selection);
                self.apply_action(action);
            },
            ScreenId::InGame => {
                self.in_game.on_dialog_selection(&mut self.game_state, selection, now);
            },
            _ => {},
        }
        self.game_state.play_sound_effect_ui_select();
    }

    /// See [`game_key`].
    pub fn update_key(&mut self, key: Key, now: u64)
        requires
            old(self)@.wf(),
        ensures
            final(self)@ == game_key(old(self)@, key, now),
            final(self)@.wf(),
    {
        reveal(game_key);
        let k = key.code();
        if k == Key::F7 {
            self.game_state.play_sound_effect_ui_select();
            let next = self.game_state.settings().animation_speed().next_setting();
            self.game_state.set_and_save_animation_speed(next);
            return;
        } else if k == Key::F8 {
            self.game_state.play_sound_effect_ui_select();
            let enabled = self.game_state.settings().background_music();
            self.game_state.set_and_save_background_music_enabled(!enabled);
            return;
        }
        if self.game_state.is_help() {
            if k == Key::F1 || k == Key::ESC {
                self.game_state.close_help_page();
                if self.game_state.current_screen_id() == ScreenId::InGame {
                    self.in_game.on_continue(now);
                }
            } else if self.help_page.on_key_pressed(key) {
                self.game_state.play_sound_effect(Sound::BookFlip);
            }
            return;
        }
        let selection = match self.game_state.dialog() {
            Some(dialog) => Some(dialog.on_key_pressed(key)),
            None => None,
        };
        match selection {
            Some(Some(selection)) => {
                self.dialog_chosen(selection, now);
                return;
            },
            Some(None) => {
                return;
            },
            None => {},
        }
        if k == Key::F1 {
            self.game_state.open_help_page();
            if self.game_state.current_screen_id() == ScreenId::InGame {
                self.in_game.on_pause(now);
            }
        } else {
            self.screen_key(key, now);
        }
    }

    /// See [`game_mouse`].
    pub fn update_mouse(&mut self, column: usize, row: usize, now: u64) -> (res: bool)
        requires
            old(self)@.wf(),
        ensures
            (final(self)@, res) == game_mouse(old(self)@, column, row, now),
            final(self)@.wf(),
    {
        reveal(game_mouse);
        if self.game_state.is_help() {
            if self.help_page.on_mouse_pressed(CONSOLE_HEIGHT, column, row) {
                self.game_state.play_sound_effect(Sound::BookFlip);
            }
            return false;
        }
        let selection = match self.game_state.dialog() {
            Some(dialog) => Some(dialog.on_mouse_pressed(column, row)),
            None => None,
        };
        match selection {
            Some(Some(selection)) => {
                self.dialog_chosen(selection, now);
                return false;
            },
            Some(None) => {
                return false;
            },
            None => {},
        }
        match self.game_state.current_screen_id() {
            ScreenId::StartMenu => {
                let (min, count) = match self.game_state.get_current_level_pack() {
                    Some(p) => (p.min_level_not_completed(), p.level_count()),
                    None => {
                        return false;
                    },
                };
                let action = self.start_menu.on_mouse_pressed(column, row, min, count);
                self.apply_action(action);
                false
            },
            ScreenId::SelectLevel => {
                self.select_level.on_mouse_pressed(&mut self.game_state, column, row);
                false
            },
            ScreenId::About => true,
            _ => false,
        }
    }

    /// See [`set_screen_effect`]; the flag that asks for it is already cleared.
    fn on_set_screen(&mut self)
        requires
            old(self)@.wf(),
            !old(self)@.state.call_on_set_screen,
        ensures
            final(self)@ == set_screen_effect(old(self)@),
            final(self)@.wf(),
    {
        match self.game_state.current_screen_id() {
            ScreenId::StartMenu => {
                self.game_state.set_background_music_loop_by_id(self.title_music);
            },
            ScreenId::SelectLevel => {
                self.select_level.on_set_screen(&self.game_state);
            },
            ScreenId::InGame => {
                self.in_game.on_set_screen(&mut self.game_state);
            },
            _ => {},
        }
    }

    /// The screen is set up where it was just entered, then its clock runs (see
    /// [`run_screen`]).
    #[verifier::spinoff_prover]
    fn enter_and_tick(&mut self, now: u64)
        requires
            old(self)@.wf(),
        ensures
            ({
                let g = old(self)@;
                let ga = if g.state.call_on_set_screen { set_screen_effect(g) } else { g };
                final(self)@ == if ga.state.screen == ScreenId::InGame {
                    GameView { in_game: in_game_update(ga.in_game, ga.state, now), ..ga }
                } else {
                    ga
                }
            }),
            final(self)@.wf(),
    {
        if self.game_state.take_call_on_set_screen() {
            self.on_set_screen();
        }
        if self.game_state.current_screen_id() == ScreenId::InGame {
            self.in_game.update(&self.game_state, now);
        }
    }

    /// See [`run_screen`].
    #[verifier::spinoff_prover]
    fn run_screen(&mut self, now: u64)
        requires
            old(self)@.wf(),
        ensures
            final(self)@ == run_screen(old(self)@, now),
            final(self)@.wf(),
    {
        reveal(run_screen);
        self.enter_and_tick(now);
        let ghost gb = self@;
        let p = self.game_state.pending_animation_quarters()
            + self.game_state.settings().animation_speed().animation_quarters_per_update();
        let mut pending = p;
        let ghost mut done: nat = 0;
        while pending > 0
            invariant
                self@.wf(),
                pending + 4 * done == p,
                -4 < pending <= 8,
                -4 < p <= 8,
                p > 0 ==> done <= animation_steps(p as int),
                p <= 0 ==> done == 0,
                pending > 0 ==> done < animation_steps(p as int),
                self@ == animate_n(gb, done, now),
                gb.state.settings == self@.state.settings,
            decreases pending + 4,
        {
            pending -= 4;
            if self.game_state.current_screen_id() == ScreenId::InGame {
                self.in_game.animate(&mut self.game_state, now);
            }
            proof {
                done = done + 1;
            }
        }
        assert(done == animation_steps(p as int));
        self.game_state.set_pending_animation_quarters(pending);
    }

    /// One update of the game with the key and the click the host read, at `now`
    /// milliseconds of its clock (see [`game_update`]).
    #[verifier::spinoff_prover]
    pub fn update(&mut self, key: Option<Key>, mouse: Option<(usize, usize)>, now: u64) -> (res: UpdateOutcome)
        requires
            old(self)@.wf(),
        ensures
            (final(self)@, res) == game_update(old(self)@, key, mouse, now),
            final(self)@.wf(),
    {
        if self.game_state.should_exit() {
            return UpdateOutcome { should_stop: true, about_click: None };
        }
        match key {
            Some(k) => {
                self.update_key(k, now);
            },
            None => {},
        }
        let about = match mouse {
            Some((column, row)) => self.update_mouse(column, row, now),
            None => false,
        };
        if !self.game_state.is_help() {
            self.run_screen(now);
        }
        self.game_state.advance_player_background();
        UpdateOutcome { should_stop: false, about_click: if about { mouse } else { None } }
    }
}

} // verus!
