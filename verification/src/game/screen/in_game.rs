use vstd::prelude::*;
use crate::game::level::{
    Direction, Level, LevelView, MoveResult, PlayingLevel, PlayingLevelModel, player_count, started,
};
use crate::game::level_pack::{LevelPackView, better_or_same};
use crate::game::screen::ScreenId;
use crate::game::screen::dialog::{Dialog, DialogSelection, yes_no_dialog};
use crate::game::state::{GameState, GameStateView, HostRequest, Sound, level_sound};
use crate::io::console::Key;

verus! {

/// How many states of a level being played are kept for undo.
pub const UNDO_HISTORY_SIZE_PLAYING: usize = 10000;

/// The model of the screen on which a level is played. Times are milliseconds of the clock
/// the host hands in.
pub struct ScreenInGameView {
    pub time_start_in_menu: Option<u64>,
    pub time_start: Option<u64>,
    pub time_millis: u32,
    pub time_sec: u32,
    pub time_min: u32,
    pub animation_first_frame: bool,
    pub level: Option<PlayingLevelModel>,
    pub show_floor: bool,
    pub continue_flag: bool,
    pub game_over_flag: bool,
}

impl ScreenInGameView {
    /// The clock shows minutes, seconds and milliseconds, and the level is played by the
    /// rules with the history of its size.
    pub open spec fn wf(self) -> bool {
        &&& self.time_millis < 1000
        &&& self.time_sec < 60
        &&& self.time_min < 60
        &&& (self.level matches Some(l) ==> l.inv() && l.history.capacity == UNDO_HISTORY_SIZE_PLAYING)
    }

    /// The time the clock shows, in milliseconds.
    pub open spec fn shown_time(self) -> int {
        self.time_millis + 1000 * self.time_sec + 60000 * self.time_min
    }

    /// Starting to play `l`: the clock and the flags are reset.
    pub open spec fn start(self, l: LevelView) -> ScreenInGameView {
        ScreenInGameView {
            time_start: None,
            time_millis: 0,
            time_sec: 0,
            time_min: 0,
            continue_flag: false,
            game_over_flag: false,
            animation_first_frame: false,
            level: Some(started(l, UNDO_HISTORY_SIZE_PLAYING as nat)),
            show_floor: false,
            ..self
        }
    }

    pub open spec fn with_level(self, l: PlayingLevelModel) -> ScreenInGameView {
        ScreenInGameView { level: Some(l), ..self }
    }

    pub open spec fn without_flags(self) -> ScreenInGameView {
        ScreenInGameView { continue_flag: false, game_over_flag: false, ..self }
    }
}

/// The current level of the pack, as loaded.
pub open spec fn current_level(gs: GameStateView) -> LevelView {
    gs.level_pack.levels[gs.level_index as int].level
}

/// The dialog that asks whether to go back to the level selection.
pub open spec fn back_dialog() -> Seq<char> {
    "Back to level selection?"@
}

/// The direction a key moves the player in: W, A, S, D or the arrow keys.
pub open spec fn key_direction(key: Key) -> Option<Direction> {
    let k = key@;
    if k == Key::W || k == Key::UP {
        Some(Direction::Up)
    } else if k == Key::A || k == Key::LEFT {
        Some(Direction::Left)
    } else if k == Key::S || k == Key::DOWN {
        Some(Direction::Down)
    } else if k == Key::D || k == Key::RIGHT {
        Some(Direction::Right)
    } else {
        None
    }
}

/// Completing the current level: the level is marked as done, its time and moves are kept
/// where they are better, the first level not completed moves past it, the save game is
/// written and the level complete sound is played.
pub open spec fn won(s: ScreenInGameView, gs: GameStateView) -> (ScreenInGameView, GameStateView) {
    let time = s.shown_time() as u64;
    let moves = match s.level {
        Some(l) => l.history.index as u32,
        None => 0u32,
    };
    let i = gs.level_index;
    let p1 = gs.level_pack.completed(i as int, time, moves);
    let p2 = if i >= p1.min_level_not_completed {
        LevelPackView { min_level_not_completed: (i + 1) as usize, ..p1 }
    } else {
        p1
    };
    (
        ScreenInGameView { continue_flag: true, ..s },
        GameStateView { level_pack: p2, ..gs }.request(HostRequest::SaveGame).play(Sound::LevelComplete),
    )
}

/// What a move result does: a valid move starts the clock, may complete the level, and is
/// heard as a step with the sound of what happened; an invalid move is heard as such; an
/// animation step is heard as a step on its first frame, with the sound of what happened.
pub open spec fn move_result_effect(s: ScreenInGameView, gs: GameStateView, r: MoveResult, now: u64) -> (ScreenInGameView, GameStateView) {
    match r {
        MoveResult::Valid { has_won, sound_effect, .. } => {
            let s1 = ScreenInGameView {
                time_start: if s.time_start is Some { s.time_start } else { Some(now) },
                ..s
            };
            let (s2, gs1) = if has_won { won(s1, gs) } else { (s1, gs) };
            let gs2 = gs1.play(Sound::Step);
            (s2, match sound_effect {
                Some(e) => gs2.play(level_sound(e)),
                None => gs2,
            })
        },
        MoveResult::Invalid => (s, gs.play(Sound::NoPath)),
        MoveResult::Animation { sound_effect, .. } => {
            let gs1 = if s.animation_first_frame { gs.play(Sound::Step) } else { gs };
            (s, match sound_effect {
                Some(e) => gs1.play(level_sound(e)),
                None => gs1,
            })
        },
    }
}

/// A key while a level is played. Escape leaves a completed pack for the level selection,
/// or else pauses and asks whether to go back. In a completed pack only enter or space
/// leave. R restarts the level (with its sound where moves were made and more than 50
/// milliseconds passed), Q shows or hides the floor. On a completed level enter or space go
/// to the next level, or complete the pack after the last. Otherwise, unless an animation
/// runs, U or Z undo a move and Y redoes one (with their sound where there was one), and
/// the direction keys move the player.
pub open spec fn in_game_key(s: ScreenInGameView, gs: GameStateView, key: Key, now: u64) -> (ScreenInGameView, GameStateView) {
    let k = key@;
    let enter = k == Key::ENTER || k == Key::SPACE;
    if k == Key::ESC {
        if s.game_over_flag {
            (s.without_flags(), gs.play(Sound::UiSelect).with_screen(ScreenId::SelectLevel))
        } else {
            (ScreenInGameView { time_start_in_menu: Some(now), ..s }, gs.with_dialog(yes_no_dialog(back_dialog())))
        }
    } else if s.game_over_flag {
        if enter {
            (s.without_flags(), gs.play(Sound::UiSelect).with_screen(ScreenId::SelectLevel))
        } else {
            (s, gs)
        }
    } else if k == Key::R {
        let moved = match s.level {
            Some(l) => l.history.index > 0 && s.shown_time() > 50,
            None => false,
        };
        (s.start(current_level(gs)), if moved { gs.play(Sound::LevelReset) } else { gs })
    } else if k == Key::Q {
        (ScreenInGameView { show_floor: !s.show_floor, ..s }, gs.play(Sound::UiSelect))
    } else if s.continue_flag {
        if !enter {
            (s, gs)
        } else if gs.level_index + 1 == gs.level_pack.levels.len() {
            (ScreenInGameView { continue_flag: false, game_over_flag: true, ..s }, gs.play(Sound::LevelPackComplete))
        } else {
            let gs1 = gs.with_level_index((gs.level_index + 1) as usize);
            (ScreenInGameView { continue_flag: false, ..s }.start(current_level(gs1)), gs1)
        }
    } else {
        match s.level {
            None => (s, gs),
            Some(l) => if l.animation is Some {
                (s, gs)
            } else if k == Key::U || k == Key::Z {
                let l1 = PlayingLevelModel { history: l.history.undo(), ..l };
                (s.with_level(l1), if l.history.index > 0 { gs.play(Sound::UndoRedo) } else { gs })
            } else if k == Key::Y {
                let l1 = PlayingLevelModel { history: l.history.redo(), ..l };
                (s.with_level(l1), if l.history.index + 1 < l.history.entries.len() { gs.play(Sound::UndoRedo) } else { gs })
            } else {
                match key_direction(key) {
                    None => (s, gs),
                    Some(d) => {
                        let (r, l1) = l.move_player(d);
                        let s1 = ScreenInGameView {
                            animation_first_frame: if r is Animation { true } else { s.animation_first_frame },
                            ..s.with_level(l1)
                        };
                        move_result_effect(s1, gs, r, now)
                    },
                }
            },
        }
    }
}

/// A step of the animation: nothing while a dialog is open or the level is done; otherwise
/// a running animation goes on unless it started in this very update.
pub open spec fn in_game_animate(s: ScreenInGameView, gs: GameStateView, now: u64) -> (ScreenInGameView, GameStateView) {
    if gs.dialog is Some || s.game_over_flag || s.continue_flag {
        (s, gs)
    } else {
        let s0 = ScreenInGameView { animation_first_frame: false, ..s };
        match s.level {
            Some(l) => if l.animation is Some && !s.animation_first_frame {
                let (r, l1) = l.continue_animation();
                let (s1, gs1) = move_result_effect(s.with_level(l1), gs, r, now);
                (ScreenInGameView { animation_first_frame: false, ..s1 }, gs1)
            } else {
                (s0, gs)
            },
            None => (s0, gs),
        }
    }
}

/// The clock of a level: the time since the first move, in minutes (modulo an hour),
/// seconds and milliseconds. A start after `now` counts as no time passed.
pub open spec fn in_game_update(s: ScreenInGameView, gs: GameStateView, now: u64) -> ScreenInGameView {
    if gs.dialog is Some || s.game_over_flag || s.continue_flag {
        s
    } else {
        match s.time_start {
            Some(t) => {
                let diff: int = if now >= t { now - t } else { 0 };
                ScreenInGameView {
                    time_millis: (diff % 1000) as u32,
                    time_sec: (diff / 1000 % 60) as u32,
                    time_min: (diff / 1000 / 60 % 60) as u32,
                    ..s
                }
            },
            None => s,
        }
    }
}

/// Coming back from a pause: the clock skips the time of the pause, unless the level is
/// done or the clock or the pause had not started.
pub open spec fn in_game_continue(s: ScreenInGameView, now: u64) -> ScreenInGameView {
    if s.game_over_flag || s.continue_flag || s.time_start is None || s.time_start_in_menu is None {
        s
    } else {
        let m = s.time_start_in_menu->0;
        let diff: int = if now >= m { now - m } else { 0 };
        let t = s.time_start->0 + diff;
        ScreenInGameView {
            time_start: Some(if t <= u64::MAX { t as u64 } else { u64::MAX }),
            time_start_in_menu: None,
            ..s
        }
    }
}

/// Entering the screen: the current level starts, with the music of the pack, or without
/// music where the pack has none.
pub open spec fn in_game_set_screen(s: ScreenInGameView, gs: GameStateView) -> (ScreenInGameView, GameStateView) {
    (s.start(current_level(gs)), match gs.level_pack.background_music_id {
        Some(id) => gs.with_music(id),
        None => gs.without_music(),
    })
}

/// A choice in the dialog of the screen: yes goes back to the level selection, no goes on
/// playing (see [`in_game_continue`]).
pub open spec fn in_game_dialog_selection(s: ScreenInGameView, gs: GameStateView, selection: DialogSelection, now: u64) -> (ScreenInGameView, GameStateView) {
    if selection == DialogSelection::Yes {
        (s.without_flags(), gs.with_screen(ScreenId::SelectLevel))
    } else if selection == DialogSelection::No {
        (in_game_continue(s, now), gs)
    } else {
        (s, gs)
    }
}

/// The screen before any level was started.
pub open spec fn initial_in_game() -> ScreenInGameView {
    ScreenInGameView {
        time_start_in_menu: None,
        time_start: None,
        time_millis: 0,
        time_sec: 0,
        time_min: 0,
        animation_first_frame: false,
        level: None,
        show_floor: false,
        continue_flag: false,
        game_over_flag: false,
    }
}

/// The screen on which a level is played.
pub struct ScreenInGame {
    time_start_in_menu: Option<u64>,
    time_start: Option<u64>,
    time_millis: u32,
    time_sec: u32,
    time_min: u32,
    animation_first_frame: bool,
    level: Option<PlayingLevel>,
    show_floor: bool,
    continue_flag: bool,
    game_over_flag: bool,
}

impl View for ScreenInGame {
    type V = ScreenInGameView;

    closed spec fn view(&self) -> ScreenInGameView {
        ScreenInGameView {
            time_start_in_menu: self.time_start_in_menu,
            time_start: self.time_start,
            time_millis: self.time_millis,
            time_sec: self.time_sec,
            time_min: self.time_min,
            animation_first_frame: self.animation_first_frame,
            level: match self.level {
                Some(l) => Some(l@),
                None => None,
            },
            show_floor: self.show_floor,
            continue_flag: self.continue_flag,
            game_over_flag: self.game_over_flag,
        }
    }
}

impl ScreenInGame {
    /// The screen before any level was started.
    pub fn new() -> (res: Self)
        ensures
            res@ == initial_in_game(),
            res@.wf(),
    {
        ScreenInGame {
            time_start_in_menu: None,
            time_start: None,
            time_millis: 0,
            time_sec: 0,
            time_min: 0,
            animation_first_frame: false,
            level: None,
            show_floor: false,
            continue_flag: false,
            game_over_flag: false,
        }
    }

    pub fn level(&self) -> (res: Option<&PlayingLevel>)
        ensures
            match res {
                Some(l) => self@.level == Some(l@),
                None => self@.level is None,
            },
    {
        match &self.level {
            Some(l) => Some(l),
            None => None,
        }
    }

    /// The time shown: minutes, seconds and milliseconds.
    pub fn time(&self) -> (res: (u32, u32, u32))
        ensures
            res == (self@.time_min, self@.time_sec, self@.time_millis),
    {
        (self.time_min, self.time_sec, self.time_millis)
    }

    pub fn is_show_floor(&self) -> (res: bool)
        ensures
            res == self@.show_floor,
    {
        self.show_floor
    }

    pub fn is_continue(&self) -> (res: bool)
        ensures
            res == self@.continue_flag,
    {
        self.continue_flag
    }

    pub fn is_game_over(&self) -> (res: bool)
        ensures
            res == self@.game_over_flag,
    {
        self.game_over_flag
    }

    /// Starts playing `level` from its beginning (see [`ScreenInGameView::start`]); the
    /// level must have exactly one player.
    pub fn start_level(&mut self, level: &Level)
        requires
            old(self)@.wf(),
            level@.wf(),
            player_count(level@.tiles) == 1,
        ensures
            final(self)@ == old(self)@.start(level@),
            final(self)@.wf(),
    {
        self.time_start = None;
        self.time_millis = 0;
        self.time_sec = 0;
        self.time_min = 0;
        self.continue_flag = false;
        self.game_over_flag = false;
        self.animation_first_frame = false;
        match PlayingLevel::new(level, UNDO_HISTORY_SIZE_PLAYING) {
            Ok(p) => {
                self.level = Some(p);
            },
            Err(_) => {},
        }
        self.show_floor = false;
    }

    /// See [`in_game_update`].
    pub fn update(&mut self, game_state: &GameState, now: u64)
        requires
            old(self)@.wf(),
        ensures
            final(self)@ == in_game_update(old(self)@, game_state@, now),
            final(self)@.wf(),
    {
        if game_state.is_dialog_opened() || self.game_over_flag || self.continue_flag {
            return;
        }
        match self.time_start {
            Some(time_start) => {
                let diff: u64 = if now >= time_start { now - time_start } else { 0 };
                self.time_millis = (diff % 1000) as u32;
                self.time_sec = (diff / 1000 % 60) as u32;
                self.time_min = (diff / 1000 / 60 % 60) as u32;
                if self.time_min >= 60 {
                    self.time_millis = 999;
                    self.time_sec = 59;
                    self.time_min = 59;
                }
            },
            None => {},
        }
    }

    /// See [`in_game_animate`].
    pub fn animate(&mut self, game_state: &mut GameState, now: u64)
        requires
            old(self)@.wf(),
            old(game_state)@.wf(),
        ensures
            (final(self)@, final(game_state)@) == in_game_animate(old(self)@, old(game_state)@, now),
            final(self)@.wf(),
            final(game_state)@.wf(),
    {
        if game_state.is_dialog_opened() || self.game_over_flag || self.continue_flag {
            return;
        }
        let mut result: Option<MoveResult> = None;
        if !self.animation_first_frame {
            match &mut self.level {
                Some(playing_level) => {
                    if playing_level.is_playing_animation() {
                        result = Some(playing_level.continue_animation());
                    }
                },
                None => {},
            }
        }
        match result {
            Some(r) => {
                self.handle_move_result(game_state, r, now);
            },
            None => {},
        }
        self.animation_first_frame = false;
    }

    /// Remembers when the pause began.
    pub fn on_pause(&mut self, now: u64)
        ensures
            final(self)@ == (ScreenInGameView { time_start_in_menu: Some(now), ..old(self)@ }),
    {
        self.time_start_in_menu = Some(now);
    }

    /// See [`in_game_continue`].
    pub fn on_continue(&mut self, now: u64)
        requires
            old(self)@.wf(),
        ensures
            final(self)@ == in_game_continue(old(self)@, now),
            final(self)@.wf(),
    {
        if self.game_over_flag || self.continue_flag || self.time_start.is_none() || self.time_start_in_menu.is_none() {
            return;
        }
        let in_menu = match self.time_start_in_menu.take() {
            Some(t) => t,
            None => 0,
        };
        let diff: u64 = if now >= in_menu { now - in_menu } else { 0 };
        self.time_start = match self.time_start {
            Some(time_start) => Some(time_start.saturating_add(diff)),
            None => None,
        };
    }

    /// See [`in_game_dialog_selection`].
    pub fn on_dialog_selection(&mut self, game_state: &mut GameState, selection: DialogSelection, now: u64)
        requires
            old(self)@.wf(),
        ensures
            (final(self)@, final(game_state)@) == in_game_dialog_selection(old(self)@, old(game_state)@, selection, now),
            final(self)@.wf(),
    {
        match selection {
            DialogSelection::Yes => {
                self.continue_flag = false;
                self.game_over_flag = false;
                game_state.set_screen(ScreenId::SelectLevel);
            },
            DialogSelection::No => {
                self.on_continue(now);
            },
            _ => {},
        }
    }

    /// See [`in_game_set_screen`].
    pub fn on_set_screen(&mut self, game_state: &mut GameState)
        requires
            old(self)@.wf(),
            old(game_state)@.wf(),
        ensures
            (final(self)@, final(game_state)@) == in_game_set_screen(old(self)@, old(game_state)@),
            final(self)@.wf(),
            final(game_state)@.wf(),
    {
        let level_index = game_state.get_level_index();
        let music = match game_state.get_current_level_pack() {
            Some(level_pack) => {
                let levels = level_pack.levels();
                assert(levels@[level_index as int]@ == game_state@.level_pack.levels[level_index as int]);
                self.start_level(levels[level_index].level());
                level_pack.background_music_id()
            },
            None => {
                return;
            },
        };
        match music {
            Some(id) => {
                game_state.set_background_music_loop_by_id(id);
            },
            None => {
                game_state.stop_background_music();
            },
        }
    }

    /// See [`in_game_key`].
    #[verifier::spinoff_prover]
    #[verifier::rlimit(40)]
    pub fn on_key_pressed(&mut self, game_state: &mut GameState, key: Key, now: u64)
        requires
            old(self)@.wf(),
            old(game_state)@.wf(),
        ensures
            (final(self)@, final(game_state)@) == in_game_key(old(self)@, old(game_state)@, key, now),
            final(self)@.wf(),
            final(game_state)@.wf(),
    {
        let k = key.code();
        if k == Key::ESC {
            if self.game_over_flag {
                self.continue_flag = false;
                self.game_over_flag = false;
                game_state.play_sound_effect(Sound::UiSelect);
                game_state.set_screen(ScreenId::SelectLevel);
                return;
            }
            self.time_start_in_menu = Some(now);
            let _ = game_state.open_dialog(Dialog::new_yes_no(String::from_str("Back to level selection?")));
            return;
        }
        let enter = k == Key::ENTER || k == Key::SPACE;
        if self.game_over_flag {
            if enter {
                self.continue_flag = false;
                self.game_over_flag = false;
                game_state.play_sound_effect(Sound::UiSelect);
                game_state.set_screen(ScreenId::SelectLevel);
            }
            return;
        }
        if k == Key::R {
            self.restart_level(game_state);
            return;
        }
        if k == Key::Q {
            game_state.play_sound_effect_ui_select();
            self.show_floor = !self.show_floor;
            return;
        }
        if self.continue_flag {
            if enter {
                self.next_level(game_state);
            }
            return;
        }
        self.play_key(game_state, key, now);
    }

    /// Restarts the current level (see [`in_game_key`], key R).
    fn restart_level(&mut self, game_state: &mut GameState)
        requires
            old(self)@.wf(),
            old(game_state)@.wf(),
        ensures
            ({
                let s = old(self)@;
                let moved = match s.level {
                    Some(l) => l.history.index > 0 && s.shown_time() > 50,
                    None => false,
                };
                &&& final(self)@ == s.start(current_level(old(game_state)@))
                &&& final(game_state)@ == if moved { old(game_state)@.play(Sound::LevelReset) } else { old(game_state)@ }
            }),
            final(self)@.wf(),
            final(game_state)@.wf(),
    {
        let moved = match &self.level {
            Some(l) => l.current_move_index() > 0,
            None => false,
        };
        let should_play_sound_effect = moved && ((self.time_min * 60) + self.time_sec) * 1000 + self.time_millis > 50;
        let level_index = game_state.get_level_index();
        match game_state.get_current_level_pack() {
            Some(level_pack) => {
                let levels = level_pack.levels();
                assert(levels@[level_index as int]@ == game_state@.level_pack.levels[level_index as int]);
                self.start_level(levels[level_index].level());
            },
            None => {},
        }
        if should_play_sound_effect {
            game_state.play_sound_effect(Sound::LevelReset);
        }
    }

    /// Goes on after a completed level (see [`in_game_key`], enter on a completed level).
    fn next_level(&mut self, game_state: &mut GameState)
        requires
            old(self)@.wf(),
            old(game_state)@.wf(),
            old(self)@.continue_flag,
            !old(self)@.game_over_flag,
        ensures
            ({
                let s = old(self)@;
                let gs = old(game_state)@;
                if gs.level_index + 1 == gs.level_pack.levels.len() {
                    &&& final(self)@ == (ScreenInGameView { continue_flag: false, game_over_flag: true, ..s })
                    &&& final(game_state)@ == gs.play(Sound::LevelPackComplete)
                } else {
                    let gs1 = gs.with_level_index((gs.level_index + 1) as usize);
                    &&& final(self)@ == (ScreenInGameView { continue_flag: false, ..s }).start(current_level(gs1))
                    &&& final(game_state)@ == gs1
                }
            }),
            final(self)@.wf(),
            final(game_state)@.wf(),
    {
        self.continue_flag = false;
        let level_index = game_state.get_level_index();
        let level_count = match game_state.get_current_level_pack() {
            Some(level_pack) => level_pack.level_count(),
            None => {
                return;
            },
        };
        if level_index + 1 == level_count {
            self.game_over_flag = true;
            game_state.play_sound_effect(Sound::LevelPackComplete);
            return;
        }
        game_state.set_level_index(level_index + 1);
        match game_state.get_current_level_pack() {
            Some(level_pack) => {
                let levels = level_pack.levels();
                assert(levels@[level_index + 1]@ == game_state@.level_pack.levels[level_index + 1]);
                self.start_level(levels[level_index + 1].level());
            },
            None => {},
        }
    }

    /// Undo, redo and moves of the player (see [`in_game_key`], the last branch).
    fn play_key(&mut self, game_state: &mut GameState, key: Key, now: u64)
        requires
            old(self)@.wf(),
            old(game_state)@.wf(),
            !old(self)@.continue_flag,
            !old(self)@.game_over_flag,
            key@ != Key::ESC,
            key@ != Key::R,
            key@ != Key::Q,
        ensures
            (final(self)@, final(game_state)@) == in_game_key(old(self)@, old(game_state)@, key, now),
            final(self)@.wf(),
            final(game_state)@.wf(),
    {
        let k = key.code();
        let direction = if k == Key::W || k == Key::UP {
            Some(Direction::Up)
        } else if k == Key::A || k == Key::LEFT {
            Some(Direction::Left)
        } else if k == Key::S || k == Key::DOWN {
            Some(Direction::Down)
        } else if k == Key::D || k == Key::RIGHT {
            Some(Direction::Right)
        } else {
            None
        };
        let result = match &mut self.level {
            None => {
                return;
            },
            Some(playing_level) => {
                if playing_level.is_playing_animation() {
                    return;
                }
                if k == Key::U || k == Key::Z {
                    if playing_level.undo_move().is_some() {
                        game_state.play_sound_effect(Sound::UndoRedo);
                    }
                    return;
                } else if k == Key::Y {
                    if playing_level.redo_move().is_some() {
                        game_state.play_sound_effect(Sound::UndoRedo);
                    }
                    return;
                }
                match direction {
                    Some(d) => playing_level.move_player(d),
                    None => {
                        return;
                    },
                }
            },
        };
        if result.is_animation() {
            self.animation_first_frame = true;
        }
        self.handle_move_result(game_state, result, now);
    }

    /// See [`won`].
    #[verifier::spinoff_prover]
    fn record_win(&mut self, game_state: &mut GameState)
        requires
            old(self)@.wf(),
            old(game_state)@.wf(),
        ensures
            (final(self)@, final(game_state)@) == won(old(self)@, old(game_state)@),
            final(self)@.wf(),
            final(game_state)@.wf(),
    {
        self.continue_flag = true;
        let time = self.time_millis as u64 + 1000 * self.time_sec as u64 + 60000 * self.time_min as u64;
        let moves: u32 = match &self.level {
            Some(l) => l.current_move_index() as u32,
            None => 0,
        };
        let current_level_index = game_state.get_level_index();
        let ghost gs0 = game_state@;
        let level_pack = game_state.level_pack_mut();
        let _ = level_pack.update_stats(current_level_index, time, moves);
        if current_level_index >= level_pack.min_level_not_completed() {
            level_pack.set_min_level_not_completed(current_level_index + 1);
        }
        assert(game_state@.level_pack.levels.len() == gs0.level_pack.levels.len());
        assert forall|k: int| 0 <= k < game_state@.level_pack.levels.len() implies
            (#[trigger] game_state@.level_pack.levels[k]).level == gs0.level_pack.levels[k].level by {
            if k != current_level_index {
                assert(game_state@.level_pack.levels[k] == gs0.level_pack.levels[k]);
            }
        }
        game_state.request_save_game();
        game_state.play_sound_effect(Sound::LevelComplete);
    }

    /// See [`move_result_effect`].
    #[verifier::spinoff_prover]
    fn handle_move_result(&mut self, game_state: &mut GameState, move_result: MoveResult, now: u64)
        requires
            old(self)@.wf(),
            old(game_state)@.wf(),
        ensures
            (final(self)@, final(game_state)@) == move_result_effect(old(self)@, old(game_state)@, move_result, now),
            final(self)@.wf(),
            final(game_state)@.wf(),
    {
        match move_result {
            MoveResult::Valid { has_won, sound_effect, .. } => {
                if self.time_start.is_none() {
                    self.time_start = Some(now);
                }
                if has_won {
                    self.record_win(game_state);
                }
                game_state.play_sound_effect(Sound::Step);
                match sound_effect {
                    Some(e) => {
                        game_state.play_level_sound_effect(e);
                    },
                    None => {},
                }
            },
            MoveResult::Invalid => {
                game_state.play_sound_effect(Sound::NoPath);
            },
            MoveResult::Animation { sound_effect, .. } => {
                if self.animation_first_frame {
                    game_state.play_sound_effect(Sound::Step);
                }
                match sound_effect {
                    Some(e) => {
                        game_state.play_level_sound_effect(e);
                    },
                    None => {},
                }
            },
        }
    }
}

/// Progress is never lost while a level is played: the first level not completed never
/// moves back, and a best time or a best number of moves, once there, never gets worse.
pub proof fn lemma_progress_kept(s: ScreenInGameView, gs: GameStateView, key: Key, now: u64)
    requires
        gs.wf(),
        s.wf(),
    ensures
        ({
            let after = in_game_key(s, gs, key, now).1;
            &&& after.level_pack.min_level_not_completed >= gs.level_pack.min_level_not_completed
            &&& after.level_pack.levels.len() == gs.level_pack.levels.len()
            &&& forall|k: int| 0 <= k < gs.level_pack.levels.len() ==> better_or_same(
                #[trigger] gs.level_pack.levels[k],
                after.level_pack.levels[k],
            )
        }),
        ({
            let after = in_game_animate(s, gs, now).1;
            &&& after.level_pack.min_level_not_completed >= gs.level_pack.min_level_not_completed
            &&& after.level_pack.levels.len() == gs.level_pack.levels.len()
            &&& forall|k: int| 0 <= k < gs.level_pack.levels.len() ==> better_or_same(
                #[trigger] gs.level_pack.levels[k],
                after.level_pack.levels[k],
            )
        }),
{
    let k = key@;
    if !(k == Key::ESC || s.game_over_flag || k == Key::R || k == Key::Q || s.continue_flag) {
        if let Some(l) = s.level {
            if l.animation is None && !(k == Key::U || k == Key::Z || k == Key::Y) {
                if let Some(d) = key_direction(key) {
                    let (r, l1) = l.move_player(d);
                    let s1 = ScreenInGameView {
                        animation_first_frame: if r is Animation { true } else { s.animation_first_frame },
                        ..s.with_level(l1)
                    };
                    lemma_move_result_progress(s1, gs, r, now);
                }
            }
        }
    }
    if !(gs.dialog is Some || s.game_over_flag || s.continue_flag) {
        if let Some(l) = s.level {
            if l.animation is Some && !s.animation_first_frame {
                let (r, l1) = l.continue_animation();
                lemma_move_result_progress(s.with_level(l1), gs, r, now);
            }
        }
    }
}

/// A move result keeps the progress (see [`lemma_progress_kept`]).
proof fn lemma_move_result_progress(s: ScreenInGameView, gs: GameStateView, r: MoveResult, now: u64)
    requires
        gs.wf(),
    ensures
        ({
            let after = move_result_effect(s, gs, r, now).1;
            &&& after.level_pack.min_level_not_completed >= gs.level_pack.min_level_not_completed
            &&& after.level_pack.levels.len() == gs.level_pack.levels.len()
            &&& forall|k: int| 0 <= k < gs.level_pack.levels.len() ==> better_or_same(
                #[trigger] gs.level_pack.levels[k],
                after.level_pack.levels[k],
            )
        }),
{
    let i = gs.level_index as int;
    assert forall|k: int| 0 <= k < gs.level_pack.levels.len() implies better_or_same(
        #[trigger] gs.level_pack.levels[k],
        won(s, gs).1.level_pack.levels[k],
    ) by {
        if k != i {
            assert(won(s, gs).1.level_pack.levels[k] == gs.level_pack.levels[k]);
        }
    }
}

/// Completing a level keeps for it the time the clock shows (milliseconds, seconds and
/// minutes) and the number of moves made, each only where it beats the one kept before;
/// no other level and no level itself changes; the first level not completed moves past
/// it; a save game and the level complete sound are requested, in this order.
pub proof fn lemma_win_keeps_clock_time(s: ScreenInGameView, gs: GameStateView)
    requires
        s.wf(),
        gs.wf(),
    ensures
        ({
            let (s2, gs2) = won(s, gs);
            let i = gs.level_index as int;
            let t = s.time_millis + 1000 * s.time_sec + 60000 * s.time_min;
            let moves: int = match s.level {
                Some(l) => l.history.index as int,
                None => 0,
            };
            let old_level = gs.level_pack.levels[i];
            let new_level = gs2.level_pack.levels[i];
            &&& gs2.level_pack.levels.len() == gs.level_pack.levels.len()
            &&& new_level.level == old_level.level
            &&& new_level.best_time matches Some(bt) && bt as int == match old_level.best_time {
                Some(o) => if t < o { t } else { o as int },
                None => t,
            }
            &&& new_level.best_moves matches Some(bm) && bm as int == match old_level.best_moves {
                Some(o) => if moves < o { moves } else { o as int },
                None => moves,
            }
            &&& forall|k: int| 0 <= k < gs.level_pack.levels.len() && k != i ==> #[trigger] gs2.level_pack.levels[k]
                == gs.level_pack.levels[k]
            &&& gs2.level_pack.min_level_not_completed > gs.level_index
            &&& gs2.level_pack.min_level_not_completed >= gs.level_pack.min_level_not_completed
            &&& gs2.requests == gs.requests.push(HostRequest::SaveGame).push(
                HostRequest::PlaySound(Sound::LevelComplete),
            )
            &&& gs2.screen == gs.screen
            &&& gs2.level_index == gs.level_index
            &&& s2 == (ScreenInGameView { continue_flag: true, ..s })
        }),
{
    let (s2, gs2) = won(s, gs);
    let i = gs.level_index as int;
    let t = s.time_millis + 1000 * s.time_sec + 60000 * s.time_min;
    assert(0 <= t < 3_600_000);
    assert(s.shown_time() as u64 == t);
    match s.level {
        Some(l) => {
            assert(l.history.index < l.history.entries.len() <= l.history.capacity);
            assert(l.history.index as u32 == l.history.index);
        },
        None => {},
    }
    assert forall|k: int| 0 <= k < gs.level_pack.levels.len() && k != i implies #[trigger] gs2.level_pack.levels[k]
        == gs.level_pack.levels[k] by {
    }
}

} // verus!
