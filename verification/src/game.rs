pub mod audio;
pub mod engine;
pub mod help_page;
pub mod level;
pub mod level_pack;
pub mod screen;
pub mod state;

use vstd::prelude::*;
use vstd::string::*;
use crate::text::{
    chars_find, chars_to_string, decimal, is_first_occurrence, occurs_at, parse_unsigned,
    parse_unsigned_chars, push_decimal, push_str, split, split_chars, str_chars, sub_chars, trim,
    trim_chars, contains, parse_bool_chars,
};

verus! {

/// An error of the game, with its message.
#[derive(Debug)]
pub struct GameError {
    message: String,
}

impl View for GameError {
    type V = Seq<char>;

    closed spec fn view(&self) -> Seq<char> {
        self.message@
    }
}

impl GameError {
    pub fn new(message: String) -> (res: Self)
        ensures
            res@ == message@,
    {
        Self { message }
    }

    pub fn message(&self) -> (res: &str)
        ensures
            res@ == self@,
    {
        self.message.as_str()
    }
}

/// How tiles are drawn: as characters, or as pictures where the front end has them.
#[derive(Debug, Clone, Copy, PartialEq, Eq, Structural)]
pub enum TileMode {
    Ascii,
    Graphical,
}

impl Default for TileMode {
    fn default() -> (res: Self)
        ensures
            res == TileMode::Graphical,
    {
        TileMode::Graphical
    }
}

pub open spec fn tile_mode_name(t: TileMode) -> Seq<char> {
    match t {
        TileMode::Ascii => "Ascii"@,
        TileMode::Graphical => "Graphical"@,
    }
}

impl TileMode {
    pub fn display_name(self) -> (res: &'static str)
        ensures
            res@ == tile_mode_name(self),
    {
        match self {
            TileMode::Ascii => "Ascii",
            TileMode::Graphical => "Graphical",
        }
    }

    /// The other tile mode.
    pub fn toggle(self) -> (res: Self)
        ensures
            res != self,
    {
        match self {
            TileMode::Ascii => TileMode::Graphical,
            TileMode::Graphical => TileMode::Ascii,
        }
    }

    /// Reads a tile mode by its name; the error message is the same for every input.
    pub fn from_str(s: &str) -> (res: Result<Self, GameError>)
        ensures
            match res {
                Ok(t) => tile_mode_name(t) == s@,
                Err(e) => e@ == "Invalid tile mode \"{s}\""@ && s@ != "Ascii"@ && s@ != "Graphical"@,
            },
    {
        let c = str_chars(s);
        Self::from_chars(c.as_slice())
    }

    fn from_chars(s: &[char]) -> (res: Result<Self, GameError>)
        ensures
            match res {
                Ok(t) => tile_mode_name(t) == s@,
                Err(e) => e@ == "Invalid tile mode \"{s}\""@ && s@ != "Ascii"@ && s@ != "Graphical"@,
            },
    {
        let a = str_chars("Ascii");
        let g = str_chars("Graphical");
        if crate::text::chars_eq(s, a.as_slice()) {
            Ok(TileMode::Ascii)
        } else if crate::text::chars_eq(s, g.as_slice()) {
            Ok(TileMode::Graphical)
        } else {
            Err(GameError::new(String::from_str("Invalid tile mode \"{s}\"")))
        }
    }
}

/// How fast animations are played.
#[derive(Debug, Clone, Copy, PartialEq, Eq, Structural)]
pub enum AnimationSpeed {
    Slow,
    Normal,
    Fast,
    VeryFast,
}

impl Default for AnimationSpeed {
    fn default() -> (res: Self)
        ensures
            res == AnimationSpeed::Normal,
    {
        AnimationSpeed::Normal
    }
}

pub open spec fn animation_speed_display_name(a: AnimationSpeed) -> Seq<char> {
    match a {
        AnimationSpeed::Slow => "Slow"@,
        AnimationSpeed::Normal => "Normal"@,
        AnimationSpeed::Fast => "Fast"@,
        AnimationSpeed::VeryFast => "Very fast"@,
    }
}

/// The name an animation speed is saved as.
pub open spec fn animation_speed_key(a: AnimationSpeed) -> Seq<char> {
    match a {
        AnimationSpeed::Slow => "Slow"@,
        AnimationSpeed::Normal => "Normal"@,
        AnimationSpeed::Fast => "Fast"@,
        AnimationSpeed::VeryFast => "VeryFast"@,
    }
}

/// The next faster speed; after the fastest comes the slowest.
pub open spec fn spec_next_setting(a: AnimationSpeed) -> AnimationSpeed {
    match a {
        AnimationSpeed::Slow => AnimationSpeed::Normal,
        AnimationSpeed::Normal => AnimationSpeed::Fast,
        AnimationSpeed::Fast => AnimationSpeed::VeryFast,
        AnimationSpeed::VeryFast => AnimationSpeed::Slow,
    }
}

/// Choosing the next animation speed goes through all four speeds and comes back to the
/// first after four steps.
pub proof fn lemma_next_setting_cycle(a: AnimationSpeed)
    ensures
        spec_next_setting(a) != a,
        spec_next_setting(spec_next_setting(a)) != a,
        spec_next_setting(spec_next_setting(spec_next_setting(a))) != a,
        spec_next_setting(spec_next_setting(spec_next_setting(spec_next_setting(a)))) == a,
{
}

/// Animation steps per update, in quarters of a step.
pub open spec fn animation_quarters(a: AnimationSpeed) -> i32 {
    match a {
        AnimationSpeed::Slow => 3,
        AnimationSpeed::Normal => 4,
        AnimationSpeed::Fast => 6,
        AnimationSpeed::VeryFast => 8,
    }
}

impl AnimationSpeed {
    pub fn display_name(self) -> (res: &'static str)
        ensures
            res@ == animation_speed_display_name(self),
    {
        match self {
            AnimationSpeed::Slow => "Slow",
            AnimationSpeed::Normal => "Normal",
            AnimationSpeed::Fast => "Fast",
            AnimationSpeed::VeryFast => "Very fast",
        }
    }

    /// The name the speed is saved as.
    pub fn key_name(self) -> (res: &'static str)
        ensures
            res@ == animation_speed_key(self),
    {
        match self {
            AnimationSpeed::Slow => "Slow",
            AnimationSpeed::Normal => "Normal",
            AnimationSpeed::Fast => "Fast",
            AnimationSpeed::VeryFast => "VeryFast",
        }
    }

    /// How many animation steps are due per update, in quarters: the speeds run 0.75, 1,
    /// 1.5 and 2 steps per update.
    pub fn animation_quarters_per_update(self) -> (res: i32)
        ensures
            res == animation_quarters(self),
    {
        match self {
            AnimationSpeed::Slow => 3,
            AnimationSpeed::Normal => 4,
            AnimationSpeed::Fast => 6,
            AnimationSpeed::VeryFast => 8,
        }
    }

    pub fn next_setting(self) -> (res: Self)
        ensures
            res == spec_next_setting(self),
    {
        match self {
            AnimationSpeed::Slow => AnimationSpeed::Normal,
            AnimationSpeed::Normal => AnimationSpeed::Fast,
            AnimationSpeed::Fast => AnimationSpeed::VeryFast,
            AnimationSpeed::VeryFast => AnimationSpeed::Slow,
        }
    }

    /// Reads an animation speed by the name it is saved as; the error message is the same
    /// for every input.
    pub fn from_str(s: &str) -> (res: Result<Self, GameError>)
        ensures
            match res {
                Ok(a) => animation_speed_key(a) == s@,
                Err(e) => e@ == "Invalid animation speed \"{s}\""@ && s@ != "Slow"@ && s@ != "Normal"@
                    && s@ != "Fast"@ && s@ != "VeryFast"@,
            },
    {
        let c = str_chars(s);
        Self::from_chars(c.as_slice())
    }

    fn from_chars(s: &[char]) -> (res: Result<Self, GameError>)
        ensures
            match res {
                Ok(a) => animation_speed_key(a) == s@,
                Err(e) => e@ == "Invalid animation speed \"{s}\""@ && s@ != "Slow"@ && s@ != "Normal"@
                    && s@ != "Fast"@ && s@ != "VeryFast"@,
            },
    {
        let slow = str_chars("Slow");
        let normal = str_chars("Normal");
        let fast = str_chars("Fast");
        let very_fast = str_chars("VeryFast");
        if crate::text::chars_eq(s, slow.as_slice()) {
            Ok(AnimationSpeed::Slow)
        } else if crate::text::chars_eq(s, normal.as_slice()) {
            Ok(AnimationSpeed::Normal)
        } else if crate::text::chars_eq(s, fast.as_slice()) {
            Ok(AnimationSpeed::Fast)
        } else if crate::text::chars_eq(s, very_fast.as_slice()) {
            Ok(AnimationSpeed::VeryFast)
        } else {
            Err(GameError::new(String::from_str("Invalid animation speed \"{s}\"")))
        }
    }
}

/// The settings of the game.
#[derive(Debug, Clone, Copy, PartialEq, Eq, Structural)]
pub struct GameSettings {
    pub color_scheme_index: usize,
    pub tile_mode: TileMode,
    pub background_music: bool,
    pub animation_speed: AnimationSpeed,
}

/// The settings before any are read.
pub open spec fn default_settings() -> GameSettings {
    GameSettings {
        color_scheme_index: 0,
        tile_mode: TileMode::Graphical,
        background_music: true,
        animation_speed: AnimationSpeed::Normal,
    }
}

pub open spec fn tile_mode_of(s: Seq<char>) -> Option<TileMode> {
    if s == "Ascii"@ {
        Some(TileMode::Ascii)
    } else if s == "Graphical"@ {
        Some(TileMode::Graphical)
    } else {
        None
    }
}

pub open spec fn animation_speed_of(s: Seq<char>) -> Option<AnimationSpeed> {
    if s == "Slow"@ {
        Some(AnimationSpeed::Slow)
    } else if s == "Normal"@ {
        Some(AnimationSpeed::Normal)
    } else if s == "Fast"@ {
        Some(AnimationSpeed::Fast)
    } else if s == "VeryFast"@ {
        Some(AnimationSpeed::VeryFast)
    } else {
        None
    }
}

pub open spec fn bool_of(s: Seq<char>) -> Option<bool> {
    if s == "true"@ {
        Some(true)
    } else if s == "false"@ {
        Some(false)
    } else {
        None
    }
}

/// A line of the settings file: `<key> = <value>`, split at the first ` = `. A line without
/// one, with an unknown key or with a value that does not fit the key changes nothing.
pub open spec fn apply_settings_line(st: GameSettings, line: Seq<char>) -> GameSettings {
    if trim(line).len() == 0 || !contains(line, " = "@) {
        st
    } else {
        let idx = choose|i: int| is_first_occurrence(line, " = "@, i);
        let key = line.take(idx);
        let value = line.skip(idx + 3);
        if key == "color_scheme_index"@ {
            match parse_unsigned(value, usize::MAX as nat) {
                Some(v) => GameSettings { color_scheme_index: v as usize, ..st },
                None => st,
            }
        } else if key == "tile_mode"@ {
            match tile_mode_of(value) {
                Some(t) => GameSettings { tile_mode: t, ..st },
                None => st,
            }
        } else if key == "background_music"@ {
            match bool_of(value) {
                Some(b) => GameSettings { background_music: b, ..st },
                None => st,
            }
        } else if key == "animation_speed"@ {
            match animation_speed_of(value) {
                Some(a) => GameSettings { animation_speed: a, ..st },
                None => st,
            }
        } else {
            st
        }
    }
}

/// The settings after the lines `ls`, in order.
pub open spec fn apply_settings_lines(st: GameSettings, ls: Seq<Seq<char>>) -> GameSettings
    decreases ls.len(),
{
    if ls.len() == 0 {
        st
    } else {
        apply_settings_line(apply_settings_lines(st, ls.drop_last()), ls.last())
    }
}

/// The settings a settings file holds: its lines are separated by line breaks.
pub open spec fn spec_settings_from_text(data: Seq<char>) -> GameSettings {
    apply_settings_lines(default_settings(), split(data, '\n'))
}

pub open spec fn bool_name(b: bool) -> Seq<char> {
    if b {
        "true"@
    } else {
        "false"@
    }
}

/// The settings file of `st`.
pub open spec fn settings_text(st: GameSettings) -> Seq<char> {
    "color_scheme_index = "@ + decimal(st.color_scheme_index as nat) + seq!['\n'] + "tile_mode = "@
        + tile_mode_name(st.tile_mode) + seq!['\n'] + "background_music = "@ + bool_name(
        st.background_music,
    ) + seq!['\n'] + "animation_speed = "@ + animation_speed_key(st.animation_speed) + seq!['\n']
}

impl GameSettings {
    pub fn new() -> (res: Self)
        ensures
            res == default_settings(),
    {
        GameSettings {
            color_scheme_index: 0,
            tile_mode: TileMode::Graphical,
            background_music: true,
            animation_speed: AnimationSpeed::Normal,
        }
    }

    /// Reads the settings from the text of the settings file (see
    /// [`spec_settings_from_text`]); what it does not set keeps its default.
    pub fn from_text(data: &str) -> (res: Self)
        ensures
            res == spec_settings_from_text(data@),
    {
        let chars = str_chars(data);
        let ls = split_chars(chars.as_slice(), '\n');
        let ghost lsv = split(data@, '\n');
        let mut st = Self::new();
        let mut i: usize = 0;
        assert(lsv.take(0) =~= Seq::<Seq<char>>::empty());
        while i < ls.len()
            invariant
                i <= ls@.len(),
                ls@.len() == lsv.len(),
                lsv == split(data@, '\n'),
                forall|k: int| 0 <= k < ls@.len() ==> #[trigger] ls@[k]@ == lsv[k],
                st == apply_settings_lines(default_settings(), lsv.take(i as int)),
            decreases ls@.len() - i,
        {
            assert(lsv.take(i + 1).drop_last() =~= lsv.take(i as int));
            st = Self::apply_line(st, ls[i].as_slice());
            i += 1;
        }
        assert(lsv.take(lsv.len() as int) =~= lsv);
        st
    }

    fn apply_line(st: Self, line: &[char]) -> (res: Self)
        ensures
            res == apply_settings_line(st, line@),
    {
        let t = trim_chars(line);
        if t.len() == 0 {
            return st;
        }
        let sep = str_chars(" = ");
        proof {
            reveal_strlit(" = ");
        }
        let idx = match chars_find(line, sep.as_slice()) {
            Some(i) => i,
            None => {
                return st;
            },
        };
        proof {
            let c = choose|i: int| is_first_occurrence(line@, " = "@, i);
            assert(c == idx) by {
                if c < idx {
                    assert(!occurs_at(line@, " = "@, c));
                } else if c > idx {
                    assert(!occurs_at(line@, " = "@, idx as int));
                }
            }
        }
        let line_len = line.len();
        assert(idx + 3 <= line_len);
        let key = sub_chars(line, 0, idx);
        let value = sub_chars(line, idx + 3, line_len);
        assert(key@ =~= line@.take(idx as int));
        assert(value@ =~= line@.skip(idx + 3));
        let k_color = str_chars("color_scheme_index");
        let k_tile = str_chars("tile_mode");
        let k_music = str_chars("background_music");
        let k_speed = str_chars("animation_speed");
        if crate::text::chars_eq(key.as_slice(), k_color.as_slice()) {
            match parse_unsigned_chars(value.as_slice(), usize::MAX as u64) {
                Some(v) => GameSettings { color_scheme_index: v as usize, ..st },
                None => st,
            }
        } else if crate::text::chars_eq(key.as_slice(), k_tile.as_slice()) {
            match TileMode::from_chars(value.as_slice()) {
                Ok(t) => {
                    proof {
                        reveal_strlit("Ascii");
                        reveal_strlit("Graphical");
                    }
                    GameSettings { tile_mode: t, ..st }
                },
                Err(_) => st,
            }
        } else if crate::text::chars_eq(key.as_slice(), k_music.as_slice()) {
            match parse_bool_chars(value.as_slice()) {
                Some(b) => GameSettings { background_music: b, ..st },
                None => st,
            }
        } else if crate::text::chars_eq(key.as_slice(), k_speed.as_slice()) {
            match AnimationSpeed::from_chars(value.as_slice()) {
                Ok(a) => {
                    proof {
                        reveal_strlit("Slow");
                        reveal_strlit("Normal");
                        reveal_strlit("Fast");
                        reveal_strlit("VeryFast");
                    }
                    GameSettings { animation_speed: a, ..st }
                },
                Err(_) => st,
            }
        } else {
            st
        }
    }

    /// The text of the settings file (see [`settings_text`]).
    pub fn to_text(&self) -> (res: String)
        ensures
            res@ == settings_text(*self),
    {
        let mut out: Vec<char> = Vec::new();
        push_str(&mut out, "color_scheme_index = ");
        push_decimal(&mut out, self.color_scheme_index as u64);
        out.push('\n');
        push_str(&mut out, "tile_mode = ");
        push_str(&mut out, self.tile_mode.display_name());
        out.push('\n');
        push_str(&mut out, "background_music = ");
        push_str(&mut out, if self.background_music { "true" } else { "false" });
        out.push('\n');
        push_str(&mut out, "animation_speed = ");
        push_str(&mut out, self.animation_speed.key_name());
        out.push('\n');
        assert(out@ =~= settings_text(*self));
        chars_to_string(out.as_slice())
    }

    pub fn color_scheme_index(&self) -> (res: usize)
        ensures
            res == self.color_scheme_index,
    {
        self.color_scheme_index
    }

    pub fn tile_mode(&self) -> (res: TileMode)
        ensures
            res == self.tile_mode,
    {
        self.tile_mode
    }

    pub fn background_music(&self) -> (res: bool)
        ensures
            res == self.background_music,
    {
        self.background_music
    }

    pub fn animation_speed(&self) -> (res: AnimationSpeed)
        ensures
            res == self.animation_speed,
    {
        self.animation_speed
    }
}

impl Default for GameSettings {
    fn default() -> (res: Self)
        ensures
            res == default_settings(),
    {
        GameSettings::new()
    }
}

/// A settings line `<key> = <value>` for a key without spaces: the line is split after the
/// key.
proof fn lemma_settings_line_split(key: Seq<char>, value: Seq<char>)
    requires
        key.len() > 0,
        !crate::text::is_whitespace(key[0]),
        forall|i: int| 0 <= i < key.len() ==> key[i] != ' ',
    ensures
        ({
            let line = key + " = "@ + value;
            &&& trim(line).len() > 0
            &&& contains(line, " = "@)
            &&& (choose|i: int| is_first_occurrence(line, " = "@, i)) == key.len()
            &&& line.take(key.len() as int) == key
            &&& line.skip(key.len() as int + 3) == value
        }),
{
    reveal_strlit(" = ");
    let line = key + " = "@ + value;
    let idx = key.len() as int;
    assert(line.subrange(idx, idx + 3) =~= " = "@);
    assert(occurs_at(line, " = "@, idx));
    assert forall|j: int| 0 <= j < idx implies !occurs_at(line, " = "@, j) by {
        if occurs_at(line, " = "@, j) {
            assert(line.subrange(j, j + 3)[0] == line[j]);
            assert(line[j] == key[j]);
        }
    }
    assert(is_first_occurrence(line, " = "@, idx));
    let c = choose|i: int| is_first_occurrence(line, " = "@, i);
    assert(c == idx) by {
        if c < idx {
            assert(!occurs_at(line, " = "@, c));
        } else if c > idx {
            assert(!occurs_at(line, " = "@, idx));
        }
    }
    assert(line.take(idx) =~= key);
    assert(line.skip(idx + 3) =~= value);
    assert(line[0] == key[0]);
    assert(crate::text::trim_start(line) == line);
    crate::text::lemma_trim_end_keeps(line, 0);
}

proof fn lemma_apply_color_line(st: GameSettings, n: usize)
    ensures
        apply_settings_line(st, "color_scheme_index"@ + " = "@ + decimal(n as nat))
            == (GameSettings { color_scheme_index: n, ..st }),
{
    reveal_strlit("color_scheme_index");
    lemma_settings_line_split("color_scheme_index"@, decimal(n as nat));
    crate::text::lemma_parse_decimal(n as nat, usize::MAX as nat);
}

proof fn lemma_apply_tile_mode_line(st: GameSettings, t: TileMode)
    ensures
        apply_settings_line(st, "tile_mode"@ + " = "@ + tile_mode_name(t)) == (GameSettings { tile_mode: t, ..st }),
{
    reveal_strlit("tile_mode");
    reveal_strlit("color_scheme_index");
    reveal_strlit("Ascii");
    reveal_strlit("Graphical");
    lemma_settings_line_split("tile_mode"@, tile_mode_name(t));
}

proof fn lemma_apply_music_line(st: GameSettings, b: bool)
    ensures
        apply_settings_line(st, "background_music"@ + " = "@ + bool_name(b)) == (GameSettings {
            background_music: b,
            ..st
        }),
{
    reveal_strlit("background_music");
    reveal_strlit("tile_mode");
    reveal_strlit("color_scheme_index");
    reveal_strlit("true");
    reveal_strlit("false");
    lemma_settings_line_split("background_music"@, bool_name(b));
}

proof fn lemma_apply_speed_line(st: GameSettings, a: AnimationSpeed)
    ensures
        apply_settings_line(st, "animation_speed"@ + " = "@ + animation_speed_key(a)) == (GameSettings {
            animation_speed: a,
            ..st
        }),
{
    reveal_strlit("animation_speed");
    reveal_strlit("background_music");
    reveal_strlit("tile_mode");
    reveal_strlit("color_scheme_index");
    reveal_strlit("Slow");
    reveal_strlit("Normal");
    reveal_strlit("Fast");
    reveal_strlit("VeryFast");
    lemma_settings_line_split("animation_speed"@, animation_speed_key(a));
}

/// The lines of a settings text: the four settings, then nothing after the last line break.
proof fn lemma_settings_text_lines(st: GameSettings)
    ensures
        split(settings_text(st), '\n') == seq![
            "color_scheme_index"@ + " = "@ + decimal(st.color_scheme_index as nat),
            "tile_mode"@ + " = "@ + tile_mode_name(st.tile_mode),
            "background_music"@ + " = "@ + bool_name(st.background_music),
            "animation_speed"@ + " = "@ + animation_speed_key(st.animation_speed),
            Seq::<char>::empty(),
        ],
{
    reveal_strlit("color_scheme_index = ");
    reveal_strlit("tile_mode = ");
    reveal_strlit("background_music = ");
    reveal_strlit("animation_speed = ");
    reveal_strlit("color_scheme_index");
    reveal_strlit("tile_mode");
    reveal_strlit("background_music");
    reveal_strlit("animation_speed");
    reveal_strlit(" = ");
    reveal_strlit("Ascii");
    reveal_strlit("Graphical");
    reveal_strlit("true");
    reveal_strlit("false");
    reveal_strlit("Slow");
    reveal_strlit("Normal");
    reveal_strlit("Fast");
    reveal_strlit("VeryFast");
    let v1 = decimal(st.color_scheme_index as nat);
    let l1 = "color_scheme_index"@ + " = "@ + v1;
    let l2 = "tile_mode"@ + " = "@ + tile_mode_name(st.tile_mode);
    let l3 = "background_music"@ + " = "@ + bool_name(st.background_music);
    let l4 = "animation_speed"@ + " = "@ + animation_speed_key(st.animation_speed);
    crate::text::lemma_decimal_digits(st.color_scheme_index as nat);
    assert forall|i: int| 0 <= i < l1.len() implies l1[i] != '\n' by {
        if i >= 21 {
            assert(l1[i] == v1[i - 21]);
            assert(crate::text::is_digit(v1[i - 21]));
        }
    }
    let e = Seq::<char>::empty();
    let r4 = l4 + seq!['\n'] + e;
    let r3 = l3 + seq!['\n'] + r4;
    let r2 = l2 + seq!['\n'] + r3;
    assert(settings_text(st) =~= l1 + seq!['\n'] + r2);
    crate::text::lemma_split_from_append(l1, r2, '\n', seq![]);
    crate::text::lemma_split_from_append(l2, r3, '\n', seq![]);
    crate::text::lemma_split_from_append(l3, r4, '\n', seq![]);
    crate::text::lemma_split_from_append(l4, e, '\n', seq![]);
    assert(e + l1 =~= l1);
    assert(e + l2 =~= l2);
    assert(e + l3 =~= l3);
    assert(e + l4 =~= l4);
    assert(crate::text::split_from(e, '\n', e) == seq![e]);
}

/// Saving the settings and reading them back gives the same settings.
pub proof fn lemma_settings_text_roundtrip(st: GameSettings)
    ensures
        spec_settings_from_text(settings_text(st)) == st,
{
    lemma_settings_text_lines(st);
    let l1 = "color_scheme_index"@ + " = "@ + decimal(st.color_scheme_index as nat);
    let l2 = "tile_mode"@ + " = "@ + tile_mode_name(st.tile_mode);
    let l3 = "background_music"@ + " = "@ + bool_name(st.background_music);
    let l4 = "animation_speed"@ + " = "@ + animation_speed_key(st.animation_speed);
    let e = Seq::<char>::empty();
    let ls = seq![l1, l2, l3, l4, e];
    let s0 = default_settings();
    lemma_apply_color_line(s0, st.color_scheme_index);
    let s1 = apply_settings_line(s0, l1);
    lemma_apply_tile_mode_line(s1, st.tile_mode);
    let s2 = apply_settings_line(s1, l2);
    lemma_apply_music_line(s2, st.background_music);
    let s3 = apply_settings_line(s2, l3);
    lemma_apply_speed_line(s3, st.animation_speed);
    let s4 = apply_settings_line(s3, l4);
    assert(trim(e).len() == 0);
    assert(apply_settings_line(s4, e) == s4);
    assert(ls.drop_last() =~= seq![l1, l2, l3, l4]);
    assert(seq![l1, l2, l3, l4].drop_last() =~= seq![l1, l2, l3]);
    assert(seq![l1, l2, l3].drop_last() =~= seq![l1, l2]);
    assert(seq![l1, l2].drop_last() =~= seq![l1]);
    assert(seq![l1].drop_last() =~= Seq::<Seq<char>>::empty());
    assert(seq![l1].last() == l1);
    assert(seq![l1, l2].last() == l2);
    assert(seq![l1, l2, l3].last() == l3);
    assert(seq![l1, l2, l3, l4].last() == l4);
    assert(ls.last() == e);
    assert(apply_settings_lines(s0, Seq::<Seq<char>>::empty()) == s0);
    assert(apply_settings_lines(s0, seq![l1]) == s1);
    assert(apply_settings_lines(s0, seq![l1, l2]) == s2);
    assert(apply_settings_lines(s0, seq![l1, l2, l3]) == s3);
    assert(apply_settings_lines(s0, seq![l1, l2, l3, l4]) == s4);
    assert(apply_settings_lines(s0, ls) == s4);
}

} // verus!
