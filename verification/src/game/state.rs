use vstd::prelude::*;
use crate::game::{GameSettings, AnimationSpeed, TileMode};
use crate::game::audio::{BackgroundMusic, BackgroundMusicId};
use crate::game::level::{LevelSoundEffect, player_count};
use crate::game::level_pack::{LevelPack, LevelPackView};
use crate::game::screen::ScreenId;
use crate::game::screen::dialog::{
    Dialog, DialogType, DialogView, RenderedDialog, RenderedDialogView, layout_fits, renderable,
    split_message,
};
use crate::io::console::{CONSOLE_HEIGHT, CONSOLE_WIDTH};

verus! {

/// The sound effects of the game.
#[derive(Debug, Clone, Copy, PartialEq, Eq, Structural)]
pub enum Sound {
    UiSelect,
    UiError,
    UiDialogOpen,
    BookOpen,
    BookFlip,
    UndoRedo,
    NoPath,
    LevelComplete,
    LevelPackComplete,
    LevelReset,
    Step,
    BoxFall,
    DoorOpen,
    FloorBroken,
}

/// What the game asks of the program that runs it, in the order asked: sounds and music to
/// play, and the save game of the level pack or the settings to write.
#[derive(Debug, Clone, Copy, PartialEq, Eq, Structural)]
pub enum HostRequest {
    PlaySound(Sound),
    StopBackgroundMusic,
    PlayBackgroundMusic(BackgroundMusicId),
    SaveGame,
    SaveSettings,
}

/// The sound of an event in a level: a key falls into a hole with the sound of a box.
pub open spec fn level_sound(e: LevelSoundEffect) -> Sound {
    match e {
        LevelSoundEffect::BoxFall => Sound::BoxFall,
        LevelSoundEffect::KeyFall => Sound::BoxFall,
        LevelSoundEffect::DoorUnlocked => Sound::DoorOpen,
        LevelSoundEffect::FloorBroken => Sound::FloorBroken,
    }
}

/// A dialog laid out on the console of the game.
pub open spec fn rendered(d: DialogView) -> RenderedDialogView {
    RenderedDialogView {
        dialog: d,
        lines: split_message(d.message, CONSOLE_WIDTH - 2)->0,
        width: CONSOLE_WIDTH,
        height: CONSOLE_HEIGHT,
    }
}

/// A dialog can be shown on the console of the game: its message can be laid out and the
/// box fits.
pub open spec fn shows(d: DialogView) -> bool {
    renderable(d.message, CONSOLE_WIDTH) && layout_fits(rendered(d))
}

/// The model of the game state.
pub struct GameStateView {
    pub screen: ScreenId,
    pub call_on_set_screen: bool,
    pub is_help: bool,
    pub dialog: Option<RenderedDialogView>,
    pub level_pack_index: usize,
    pub level_pack: LevelPackView,
    pub level_index: usize,
    pub player_background: bool,
    pub player_background_tmp: i32,
    pub pending_animation_quarters: i32,
    pub should_exit: bool,
    pub settings: GameSettings,
    pub music: Option<BackgroundMusicId>,
    pub requests: Seq<HostRequest>,
}

impl GameStateView {
    /// The state the screens can rely on: a pack of well-formed levels with a current
    /// level, a dialog only where it fits, and the counters of the update in their ranges.
    pub open spec fn wf(self) -> bool {
        &&& self.level_pack.levels_wf()
        &&& 0 < self.level_pack.levels.len() <= 190
        &&& forall|k: int| 0 <= k < self.level_pack.levels.len() ==> player_count(
            (#[trigger] self.level_pack.levels[k]).level.tiles,
        ) == 1
        &&& self.level_index < self.level_pack.levels.len()
        &&& (self.dialog matches Some(d) ==> d.width == CONSOLE_WIDTH && d.height == CONSOLE_HEIGHT && layout_fits(d))
        &&& -4 < self.pending_animation_quarters <= 0
        &&& 0 <= self.player_background_tmp <= 12
    }

    pub open spec fn request(self, r: HostRequest) -> GameStateView {
        GameStateView { requests: self.requests.push(r), ..self }
    }

    pub open spec fn play(self, s: Sound) -> GameStateView {
        self.request(HostRequest::PlaySound(s))
    }

    pub open spec fn with_screen(self, id: ScreenId) -> GameStateView {
        GameStateView { screen: id, call_on_set_screen: true, ..self }
    }

    pub open spec fn with_level_index(self, i: usize) -> GameStateView {
        GameStateView { level_index: i, ..self }
    }

    /// Opening a dialog that can be shown: it is laid out on the console, with the sound of
    /// its type. Another dialog changes nothing.
    pub open spec fn with_dialog(self, d: DialogView) -> GameStateView {
        if shows(d) {
            GameStateView { dialog: Some(rendered(d)), ..self }.play(
                match d.dialog_type {
                    DialogType::Information => Sound::UiDialogOpen,
                    DialogType::Error => Sound::UiError,
                },
            )
        } else {
            self
        }
    }

    /// Asking for a music track: nothing where it is the current track; otherwise it
    /// becomes the current track, and is played where the settings allow music.
    pub open spec fn with_music(self, id: BackgroundMusicId) -> GameStateView {
        if self.music == Some(id) {
            self
        } else if self.settings.background_music {
            GameStateView { music: Some(id), ..self }.request(HostRequest::PlayBackgroundMusic(id))
        } else {
            GameStateView { music: Some(id), ..self }
        }
    }

    /// Turning the background music on restarts the current track; turning it off stops
    /// what plays and keeps the current track.
    pub open spec fn with_music_enabled(self, background_music: bool) -> GameStateView {
        let s = GameStateView { settings: GameSettings { background_music, ..self.settings }, ..self };
        if !background_music {
            s.request(HostRequest::StopBackgroundMusic)
        } else {
            match self.music {
                Some(id) => s.without_music().with_music(id),
                None => s,
            }
        }
    }

    pub open spec fn without_music(self) -> GameStateView {
        GameStateView { music: None, ..self }.request(HostRequest::StopBackgroundMusic)
    }
}

/// The state on the start menu, playing the first level of `level_pack`, with nothing
/// asked of the host yet.
pub open spec fn initial_state(level_pack: LevelPackView, settings: GameSettings) -> GameStateView {
    GameStateView {
        screen: ScreenId::StartMenu,
        call_on_set_screen: false,
        is_help: false,
        dialog: None,
        level_pack_index: 0,
        level_pack,
        level_index: 0,
        player_background: false,
        player_background_tmp: 0,
        pending_animation_quarters: 0,
        should_exit: false,
        settings,
        music: None,
        requests: Seq::empty(),
    }
}

/// One update of the blinking of the player: the colors swap after 12 updates, and back
/// after 13.
pub open spec fn advance_background(gs: GameStateView) -> GameStateView {
    let tmp = gs.player_background_tmp + 1;
    if tmp >= 12 + (if gs.player_background { 1int } else { 0int }) {
        GameStateView { player_background_tmp: 0, player_background: !gs.player_background, ..gs }
    } else {
        GameStateView { player_background_tmp: tmp as i32, ..gs }
    }
}

/// The state of the game that the screens read and change.
pub struct GameState {
    current_screen_id: ScreenId,
    should_call_on_set_screen: bool,
    is_help: bool,
    dialog: Option<RenderedDialog>,
    current_level_pack_index: usize,
    level_pack: LevelPack,
    current_level_index: usize,
    is_player_background: bool,
    player_background_tmp: i32,
    pending_animation_quarters: i32,
    should_exit: bool,
    settings: GameSettings,
    current_background_music_id: Option<BackgroundMusicId>,
    requests: Vec<HostRequest>,
}

impl View for GameState {
    type V = GameStateView;

    closed spec fn view(&self) -> GameStateView {
        GameStateView {
            screen: self.current_screen_id,
            call_on_set_screen: self.should_call_on_set_screen,
            is_help: self.is_help,
            dialog: match self.dialog {
                Some(d) => Some(d@),
                None => None,
            },
            level_pack_index: self.current_level_pack_index,
            level_pack: self.level_pack@,
            level_index: self.current_level_index,
            player_background: self.is_player_background,
            player_background_tmp: self.player_background_tmp,
            pending_animation_quarters: self.pending_animation_quarters,
            should_exit: self.should_exit,
            settings: self.settings,
            music: self.current_background_music_id,
            requests: self.requests@,
        }
    }
}

impl GameState {
    /// The state on the start menu, playing the first level of `level_pack`, with nothing
    /// asked of the host yet.
    pub fn new(level_pack: LevelPack, settings: GameSettings) -> (res: Self)
        requires
            level_pack@.levels_wf(),
            0 < level_pack@.levels.len() <= 190,
            forall|k: int| 0 <= k < level_pack@.levels.len() ==> player_count(
                (#[trigger] level_pack@.levels[k]).level.tiles,
            ) == 1,
        ensures
            res@ == initial_state(level_pack@, settings),
            res@.wf(),
    {
        GameState {
            current_screen_id: ScreenId::StartMenu,
            should_call_on_set_screen: false,
            is_help: false,
            dialog: None,
            current_level_pack_index: 0,
            level_pack,
            current_level_index: 0,
            is_player_background: false,
            player_background_tmp: 0,
            pending_animation_quarters: 0,
            should_exit: false,
            settings,
            current_background_music_id: None,
            requests: Vec::new(),
        }
    }

    /// Goes to a screen; the game calls its `on_set_screen` before the next update.
    pub fn set_screen(&mut self, screen_id: ScreenId)
        ensures
            final(self)@ == old(self)@.with_screen(screen_id),
    {
        self.current_screen_id = screen_id;
        self.should_call_on_set_screen = true;
    }

    pub fn current_screen_id(&self) -> (res: ScreenId)
        ensures
            res == self@.screen,
    {
        self.current_screen_id
    }

    pub fn get_level_pack_index(&self) -> (res: usize)
        ensures
            res == self@.level_pack_index,
    {
        self.current_level_pack_index
    }

    pub fn set_level_pack_index(&mut self, level_pack_index: usize)
        ensures
            final(self)@ == (GameStateView { level_pack_index, ..old(self)@ }),
    {
        self.current_level_pack_index = level_pack_index;
    }

    pub fn get_current_level_pack(&self) -> (res: Option<&LevelPack>)
        ensures
            res matches Some(p) && p@ == self@.level_pack,
    {
        Some(&self.level_pack)
    }

    /// The level pack, to change it; the caller keeps the state well formed.
    pub fn level_pack_mut(&mut self) -> (res: &mut LevelPack)
        ensures
            res@ == old(self)@.level_pack,
            final(self)@ == (GameStateView { level_pack: final(res)@, ..old(self)@ }),
    {
        &mut self.level_pack
    }

    pub fn get_level_index(&self) -> (res: usize)
        ensures
            res == self@.level_index,
    {
        self.current_level_index
    }

    /// Chooses the level to play; it must be a level of the pack.
    pub fn set_level_index(&mut self, level_index: usize)
        requires
            level_index < old(self)@.level_pack.levels.len(),
        ensures
            final(self)@ == old(self)@.with_level_index(level_index),
    {
        self.current_level_index = level_index;
    }

    pub fn is_player_background(&self) -> (res: bool)
        ensures
            res == self@.player_background,
    {
        self.is_player_background
    }

    pub fn is_help(&self) -> (res: bool)
        ensures
            res == self@.is_help,
    {
        self.is_help
    }

    pub fn should_exit(&self) -> (res: bool)
        ensures
            res == self@.should_exit,
    {
        self.should_exit
    }

    pub fn pending_animation_quarters(&self) -> (res: i32)
        ensures
            res == self@.pending_animation_quarters,
    {
        self.pending_animation_quarters
    }

    /// Sets the animation steps still owed, in quarters of a step.
    pub fn set_pending_animation_quarters(&mut self, pending: i32)
        ensures
            final(self)@ == (GameStateView { pending_animation_quarters: pending, ..old(self)@ }),
    {
        self.pending_animation_quarters = pending;
    }

    /// Whether the current screen is still to be told that it was entered; the flag is
    /// cleared.
    pub fn take_call_on_set_screen(&mut self) -> (res: bool)
        ensures
            res == old(self)@.call_on_set_screen,
            final(self)@ == (GameStateView { call_on_set_screen: false, ..old(self)@ }),
    {
        let res = self.should_call_on_set_screen;
        self.should_call_on_set_screen = false;
        res
    }

    /// One update of the blinking of the player: the colors swap after 12 updates, and back
    /// after 13.
    pub fn advance_player_background(&mut self)
        requires
            0 <= old(self)@.player_background_tmp <= 12,
        ensures
            final(self)@ == advance_background(old(self)@),
            0 <= final(self)@.player_background_tmp <= 12,
    {
        self.player_background_tmp += 1;
        let delay: i32 = if self.is_player_background { 13 } else { 12 };
        if self.player_background_tmp >= delay {
            self.player_background_tmp = 0;
            self.is_player_background = !self.is_player_background;
        }
    }

    /// Opens the help page, with the sound of a book.
    pub fn open_help_page(&mut self)
        ensures
            final(self)@ == (GameStateView { is_help: true, ..old(self)@ }).play(Sound::BookOpen),
    {
        self.play_sound_effect(Sound::BookOpen);
        self.is_help = true;
    }

    /// Closes the help page, with the select sound.
    pub fn close_help_page(&mut self)
        ensures
            final(self)@ == (GameStateView { is_help: false, ..old(self)@ }).play(Sound::UiSelect),
    {
        self.play_sound_effect(Sound::UiSelect);
        self.is_help = false;
    }

    pub fn is_dialog_opened(&self) -> (res: bool)
        ensures
            res == self@.dialog is Some,
    {
        self.dialog.is_some()
    }

    pub fn dialog(&self) -> (res: Option<&RenderedDialog>)
        ensures
            match res {
                Some(d) => self@.dialog == Some(d@),
                None => self@.dialog is None,
            },
    {
        match &self.dialog {
            Some(d) => Some(d),
            None => None,
        }
    }

    /// Opens a dialog laid out on the console (see [`GameStateView::with_dialog`]); whether
    /// it could be shown.
    pub fn open_dialog(&mut self, dialog: Dialog) -> (res: bool)
        ensures
            res == shows(dialog@),
            final(self)@ == old(self)@.with_dialog(dialog@),
    {
        if !dialog.renders_on(CONSOLE_WIDTH) {
            return false;
        }
        let dialog_type = dialog.dialog_type();
        let ghost d = dialog@;
        let rendered_dialog = dialog.render(CONSOLE_WIDTH, CONSOLE_HEIGHT);
        if !rendered_dialog.fits() {
            return false;
        }
        self.dialog = Some(rendered_dialog);
        match dialog_type {
            DialogType::Information => {
                self.play_sound_effect_ui_dialog_open();
            },
            DialogType::Error => {
                self.play_sound_effect_ui_error();
            },
        }
        true
    }

    pub fn close_dialog(&mut self)
        ensures
            final(self)@ == (GameStateView { dialog: None, ..old(self)@ }),
    {
        self.dialog = None;
    }

    /// Asks the game to end after this update.
    pub fn exit(&mut self)
        ensures
            final(self)@ == (GameStateView { should_exit: true, ..old(self)@ }),
    {
        self.should_exit = true;
    }

    pub fn play_sound_effect_ui_dialog_open(&mut self)
        ensures
            final(self)@ == old(self)@.play(Sound::UiDialogOpen),
    {
        self.play_sound_effect(Sound::UiDialogOpen);
    }

    pub fn play_sound_effect_ui_select(&mut self)
        ensures
            final(self)@ == old(self)@.play(Sound::UiSelect),
    {
        self.play_sound_effect(Sound::UiSelect);
    }

    pub fn play_sound_effect_ui_error(&mut self)
        ensures
            final(self)@ == old(self)@.play(Sound::UiError),
    {
        self.play_sound_effect(Sound::UiError);
    }

    /// Asks the host to play a sound.
    pub fn play_sound_effect(&mut self, sound_effect: Sound)
        ensures
            final(self)@ == old(self)@.play(sound_effect),
    {
        self.requests.push(HostRequest::PlaySound(sound_effect));
    }

    /// Asks the host to play the sound of an event in a level (see [`level_sound`]).
    pub fn play_level_sound_effect(&mut self, sound_effect: LevelSoundEffect)
        ensures
            final(self)@ == old(self)@.play(level_sound(sound_effect)),
    {
        let sound = match sound_effect {
            LevelSoundEffect::BoxFall | LevelSoundEffect::KeyFall => Sound::BoxFall,
            LevelSoundEffect::DoorUnlocked => Sound::DoorOpen,
            LevelSoundEffect::FloorBroken => Sound::FloorBroken,
        };
        self.play_sound_effect(sound);
    }

    /// Asks the host to write the save game of the level pack.
    pub fn request_save_game(&mut self)
        ensures
            final(self)@ == old(self)@.request(HostRequest::SaveGame),
    {
        self.requests.push(HostRequest::SaveGame);
    }

    /// Hands what was asked of the host over, oldest first, and forgets it.
    pub fn take_requests(&mut self) -> (res: Vec<HostRequest>)
        ensures
            res@ == old(self)@.requests,
            final(self)@ == (GameStateView { requests: Seq::empty(), ..old(self)@ }),
    {
        let mut requests: Vec<HostRequest> = Vec::new();
        std::mem::swap(&mut requests, &mut self.requests);
        requests
    }

    pub fn current_background_music_id(&self) -> (res: Option<BackgroundMusicId>)
        ensures
            res == self@.music,
    {
        self.current_background_music_id
    }

    /// Stops the background music; there is no current track any more.
    pub fn stop_background_music(&mut self)
        ensures
            final(self)@ == old(self)@.without_music(),
    {
        self.current_background_music_id = None;
        self.requests.push(HostRequest::StopBackgroundMusic);
    }

    /// Plays a track in a loop (see [`GameStateView::with_music`]).
    pub fn set_background_music_loop(&mut self, background_music: &BackgroundMusic)
        ensures
            final(self)@ == old(self)@.with_music(background_music.spec_id()),
    {
        self.set_background_music_loop_by_id(background_music.id());
    }

    /// Plays the track with an id in a loop (see [`GameStateView::with_music`]).
    pub fn set_background_music_loop_by_id(&mut self, id: BackgroundMusicId)
        ensures
            final(self)@ == old(self)@.with_music(id),
    {
        if self.current_background_music_id == Some(id) {
            return;
        }
        self.current_background_music_id = Some(id);
        if !self.settings.background_music {
            return;
        }
        self.requests.push(HostRequest::PlayBackgroundMusic(id));
    }

    pub fn settings(&self) -> (res: &GameSettings)
        ensures
            *res == self@.settings,
    {
        &self.settings
    }

    /// Chooses a color scheme and asks for the settings to be saved.
    pub fn set_and_save_color_scheme_index(&mut self, color_scheme_index: usize)
        ensures
            final(self)@ == (GameStateView {
                settings: GameSettings { color_scheme_index, ..old(self)@.settings },
                ..old(self)@
            }).request(HostRequest::SaveSettings),
    {
        self.settings.color_scheme_index = color_scheme_index;
        self.requests.push(HostRequest::SaveSettings);
    }

    /// Chooses how tiles are drawn and asks for the settings to be saved.
    pub fn set_and_save_tile_mode(&mut self, tile_mode: TileMode)
        ensures
            final(self)@ == (GameStateView {
                settings: GameSettings { tile_mode, ..old(self)@.settings },
                ..old(self)@
            }).request(HostRequest::SaveSettings),
    {
        self.settings.tile_mode = tile_mode;
        self.requests.push(HostRequest::SaveSettings);
    }

    /// Turns the background music on or off (see [`GameStateView::with_music_enabled`]) and
    /// asks for the settings to be saved.
    pub fn set_and_save_background_music_enabled(&mut self, background_music: bool)
        ensures
            final(self)@ == old(self)@.with_music_enabled(background_music).request(HostRequest::SaveSettings),
    {
        self.settings.background_music = background_music;
        if background_music {
            match self.current_background_music_id {
                Some(id) => {
                    self.stop_background_music();
                    self.set_background_music_loop_by_id(id);
                },
                None => {},
            }
        } else {
            self.requests.push(HostRequest::StopBackgroundMusic);
        }
        self.requests.push(HostRequest::SaveSettings);
    }

    /// Chooses how fast animations run and asks for the settings to be saved.
    pub fn set_and_save_animation_speed(&mut self, animation_speed: AnimationSpeed)
        ensures
            final(self)@ == (GameStateView {
                settings: GameSettings { animation_speed, ..old(self)@.settings },
                ..old(self)@
            }).request(HostRequest::SaveSettings),
    {
        self.settings.animation_speed = animation_speed;
        self.requests.push(HostRequest::SaveSettings);
    }
}

} // verus!
