use vstd::prelude::*;
use std::collections::VecDeque;
use crate::game::TileMode;
use crate::game::level::{Tile, spec_tile_look};

verus! {

/// The width of the console in characters.
pub const CONSOLE_WIDTH: usize = 74;

/// The height of the console in characters.
pub const CONSOLE_HEIGHT: usize = 23;

/// The 4-bit ANSI colors, and the default color of the front end.
#[derive(Debug, Clone, Copy, PartialEq, Eq, Structural, Hash)]
pub enum Color {
    Black,
    Blue,
    Green,
    Cyan,
    Red,
    Pink,
    Yellow,
    White,
    LightBlack,
    LightBlue,
    LightGreen,
    LightCyan,
    LightRed,
    LightPink,
    LightYellow,
    LightWhite,
    /// The default color is [`Color::Black`].
    Default,
}

/// The number of a color: `-1` for the default color, else its place from `0` to `15`.
pub open spec fn spec_color_index(c: Color) -> i8 {
    match c {
        Color::Black => 0,
        Color::Blue => 1,
        Color::Green => 2,
        Color::Cyan => 3,
        Color::Red => 4,
        Color::Pink => 5,
        Color::Yellow => 6,
        Color::White => 7,
        Color::LightBlack => 8,
        Color::LightBlue => 9,
        Color::LightGreen => 10,
        Color::LightCyan => 11,
        Color::LightRed => 12,
        Color::LightPink => 13,
        Color::LightYellow => 14,
        Color::LightWhite => 15,
        Color::Default => -1i8,
    }
}

impl Color {
    /// The number of the color (see [`spec_color_index`]).
    pub fn index(self) -> (res: i8)
        ensures
            res == spec_color_index(self),
    {
        match self {
            Color::Black => 0,
            Color::Blue => 1,
            Color::Green => 2,
            Color::Cyan => 3,
            Color::Red => 4,
            Color::Pink => 5,
            Color::Yellow => 6,
            Color::White => 7,
            Color::LightBlack => 8,
            Color::LightBlue => 9,
            Color::LightGreen => 10,
            Color::LightCyan => 11,
            Color::LightRed => 12,
            Color::LightPink => 13,
            Color::LightYellow => 14,
            Color::LightWhite => 15,
            Color::Default => -1,
        }
    }
}

/// The pictures a front end can draw in place of a character.
#[derive(Debug, Clone, Copy, PartialEq, Eq, Structural, Hash)]
pub enum GraphicalCharacter {
    Empty,
    FragileFloor,
    Ice,
    OneWayLeft,
    OneWayUp,
    OneWayRight,
    OneWayDown,
    Wall,
    Key,
    KeyInGoal,
    KeyOnFragileFloor,
    KeyOnIce,
    LockedDoor,
    Box,
    BoxInGoal,
    Goal,
    Hole,
    BoxInHole,
}

/// The number of a picture: its place in the list, from `0` to `17`.
pub open spec fn spec_graphical_id(g: GraphicalCharacter) -> u8 {
    match g {
        GraphicalCharacter::Empty => 0,
        GraphicalCharacter::FragileFloor => 1,
        GraphicalCharacter::Ice => 2,
        GraphicalCharacter::OneWayLeft => 3,
        GraphicalCharacter::OneWayUp => 4,
        GraphicalCharacter::OneWayRight => 5,
        GraphicalCharacter::OneWayDown => 6,
        GraphicalCharacter::Wall => 7,
        GraphicalCharacter::Key => 8,
        GraphicalCharacter::KeyInGoal => 9,
        GraphicalCharacter::KeyOnFragileFloor => 10,
        GraphicalCharacter::KeyOnIce => 11,
        GraphicalCharacter::LockedDoor => 12,
        GraphicalCharacter::Box => 13,
        GraphicalCharacter::BoxInGoal => 14,
        GraphicalCharacter::Goal => 15,
        GraphicalCharacter::Hole => 16,
        GraphicalCharacter::BoxInHole => 17,
    }
}

/// The picture with a number, if there is one.
pub open spec fn spec_graphical_from_id(v: u8) -> Option<GraphicalCharacter> {
    if v == 0 {
        Some(GraphicalCharacter::Empty)
    } else if v == 1 {
        Some(GraphicalCharacter::FragileFloor)
    } else if v == 2 {
        Some(GraphicalCharacter::Ice)
    } else if v == 3 {
        Some(GraphicalCharacter::OneWayLeft)
    } else if v == 4 {
        Some(GraphicalCharacter::OneWayUp)
    } else if v == 5 {
        Some(GraphicalCharacter::OneWayRight)
    } else if v == 6 {
        Some(GraphicalCharacter::OneWayDown)
    } else if v == 7 {
        Some(GraphicalCharacter::Wall)
    } else if v == 8 {
        Some(GraphicalCharacter::Key)
    } else if v == 9 {
        Some(GraphicalCharacter::KeyInGoal)
    } else if v == 10 {
        Some(GraphicalCharacter::KeyOnFragileFloor)
    } else if v == 11 {
        Some(GraphicalCharacter::KeyOnIce)
    } else if v == 12 {
        Some(GraphicalCharacter::LockedDoor)
    } else if v == 13 {
        Some(GraphicalCharacter::Box)
    } else if v == 14 {
        Some(GraphicalCharacter::BoxInGoal)
    } else if v == 15 {
        Some(GraphicalCharacter::Goal)
    } else if v == 16 {
        Some(GraphicalCharacter::Hole)
    } else if v == 17 {
        Some(GraphicalCharacter::BoxInHole)
    } else {
        None
    }
}

/// The picture a tile is drawn with: a box on fragile floor or ice is drawn as a box; the
/// player tiles, the decoration and the secret have no picture.
pub open spec fn spec_graphical_from_tile(t: Tile) -> Option<GraphicalCharacter> {
    match t {
        Tile::Empty => Some(GraphicalCharacter::Empty),
        Tile::FragileFloor => Some(GraphicalCharacter::FragileFloor),
        Tile::Ice => Some(GraphicalCharacter::Ice),
        Tile::OneWayLeft => Some(GraphicalCharacter::OneWayLeft),
        Tile::OneWayUp => Some(GraphicalCharacter::OneWayUp),
        Tile::OneWayRight => Some(GraphicalCharacter::OneWayRight),
        Tile::OneWayDown => Some(GraphicalCharacter::OneWayDown),
        Tile::Wall => Some(GraphicalCharacter::Wall),
        Tile::Key => Some(GraphicalCharacter::Key),
        Tile::KeyInGoal => Some(GraphicalCharacter::KeyInGoal),
        Tile::KeyOnFragileFloor => Some(GraphicalCharacter::KeyOnFragileFloor),
        Tile::KeyOnIce => Some(GraphicalCharacter::KeyOnIce),
        Tile::LockedDoor => Some(GraphicalCharacter::LockedDoor),
        Tile::Box | Tile::BoxOnFragileFloor | Tile::BoxOnIce => Some(GraphicalCharacter::Box),
        Tile::BoxInGoal => Some(GraphicalCharacter::BoxInGoal),
        Tile::Goal => Some(GraphicalCharacter::Goal),
        Tile::Hole => Some(GraphicalCharacter::Hole),
        Tile::BoxInHole => Some(GraphicalCharacter::BoxInHole),
        Tile::Player | Tile::PlayerOnFragileFloor | Tile::PlayerOnIce => None,
        Tile::DecorationBlank | Tile::Secret => None,
    }
}

impl GraphicalCharacter {
    pub fn id(self) -> (res: u8)
        ensures
            res == spec_graphical_id(self),
    {
        match self {
            GraphicalCharacter::Empty => 0,
            GraphicalCharacter::FragileFloor => 1,
            GraphicalCharacter::Ice => 2,
            GraphicalCharacter::OneWayLeft => 3,
            GraphicalCharacter::OneWayUp => 4,
            GraphicalCharacter::OneWayRight => 5,
            GraphicalCharacter::OneWayDown => 6,
            GraphicalCharacter::Wall => 7,
            GraphicalCharacter::Key => 8,
            GraphicalCharacter::KeyInGoal => 9,
            GraphicalCharacter::KeyOnFragileFloor => 10,
            GraphicalCharacter::KeyOnIce => 11,
            GraphicalCharacter::LockedDoor => 12,
            GraphicalCharacter::Box => 13,
            GraphicalCharacter::BoxInGoal => 14,
            GraphicalCharacter::Goal => 15,
            GraphicalCharacter::Hole => 16,
            GraphicalCharacter::BoxInHole => 17,
        }
    }

    pub fn from_id(val: u8) -> (res: Option<Self>)
        ensures
            res == spec_graphical_from_id(val),
    {
        match val {
            0 => Some(GraphicalCharacter::Empty),
            1 => Some(GraphicalCharacter::FragileFloor),
            2 => Some(GraphicalCharacter::Ice),
            3 => Some(GraphicalCharacter::OneWayLeft),
            4 => Some(GraphicalCharacter::OneWayUp),
            5 => Some(GraphicalCharacter::OneWayRight),
            6 => Some(GraphicalCharacter::OneWayDown),
            7 => Some(GraphicalCharacter::Wall),
            8 => Some(GraphicalCharacter::Key),
            9 => Some(GraphicalCharacter::KeyInGoal),
            10 => Some(GraphicalCharacter::KeyOnFragileFloor),
            11 => Some(GraphicalCharacter::KeyOnIce),
            12 => Some(GraphicalCharacter::LockedDoor),
            13 => Some(GraphicalCharacter::Box),
            14 => Some(GraphicalCharacter::BoxInGoal),
            15 => Some(GraphicalCharacter::Goal),
            16 => Some(GraphicalCharacter::Hole),
            17 => Some(GraphicalCharacter::BoxInHole),
            _ => None,
        }
    }

    pub fn from_tile(val: Tile) -> (res: Option<Self>)
        ensures
            res == spec_graphical_from_tile(val),
    {
        match val {
            Tile::Empty => Some(GraphicalCharacter::Empty),
            Tile::FragileFloor => Some(GraphicalCharacter::FragileFloor),
            Tile::Ice => Some(GraphicalCharacter::Ice),
            Tile::OneWayLeft => Some(GraphicalCharacter::OneWayLeft),
            Tile::OneWayUp => Some(GraphicalCharacter::OneWayUp),
            Tile::OneWayRight => Some(GraphicalCharacter::OneWayRight),
            Tile::OneWayDown => Some(GraphicalCharacter::OneWayDown),
            Tile::Wall => Some(GraphicalCharacter::Wall),
            Tile::Key => Some(GraphicalCharacter::Key),
            Tile::KeyInGoal => Some(GraphicalCharacter::KeyInGoal),
            Tile::KeyOnFragileFloor => Some(GraphicalCharacter::KeyOnFragileFloor),
            Tile::KeyOnIce => Some(GraphicalCharacter::KeyOnIce),
            Tile::LockedDoor => Some(GraphicalCharacter::LockedDoor),
            Tile::Box | Tile::BoxOnFragileFloor | Tile::BoxOnIce => Some(GraphicalCharacter::Box),
            Tile::BoxInGoal => Some(GraphicalCharacter::BoxInGoal),
            Tile::Goal => Some(GraphicalCharacter::Goal),
            Tile::Hole => Some(GraphicalCharacter::Hole),
            Tile::BoxInHole => Some(GraphicalCharacter::BoxInHole),
            Tile::Player | Tile::PlayerOnFragileFloor | Tile::PlayerOnIce => None,
            Tile::DecorationBlank | Tile::Secret => None,
        }
    }
}

/// The number of a picture gives the picture back.
pub proof fn lemma_graphical_id_roundtrip(g: GraphicalCharacter)
    ensures
        spec_graphical_from_id(spec_graphical_id(g)) == Some(g),
        spec_graphical_id(g) < 18,
{
}

/// Exactly the numbers below 18 are numbers of pictures, each of its own picture.
pub proof fn lemma_graphical_from_id(v: u8)
    ensures
        spec_graphical_from_id(v) is Some <==> v < 18,
        spec_graphical_from_id(v) matches Some(g) ==> spec_graphical_id(g) == v,
{
}

/// A character of the console: an ASCII character, or a picture.
#[derive(Debug, Clone, Copy, PartialEq, Eq, Structural, Hash)]
pub struct ConsoleCharacter {
    /// An ASCII character below 128, or 128 plus the number of a picture.
    pub data: u8,
}

/// What a character shows: an ASCII character below 128; at `128 + n` the picture with
/// number `n`, or `'?'` where there is none.
pub open spec fn spec_console_character_get(data: u8) -> Result<u8, GraphicalCharacter> {
    if data < 128 {
        Ok(data)
    } else {
        match spec_graphical_from_id((data - 128) as u8) {
            Some(g) => Err(g),
            None => Ok(63),
        }
    }
}

impl ConsoleCharacter {
    /// `Ok` with an ASCII character, or `Err` with a picture (see
    /// [`spec_console_character_get`]).
    pub fn get(self) -> (res: Result<u8, GraphicalCharacter>)
        ensures
            res == spec_console_character_get(self.data),
    {
        let data = self.data;
        assert(data & 128 == 0 <==> data < 128) by (bit_vector);
        if data & 128 == 0 {
            Ok(self.data)
        } else {
            match GraphicalCharacter::from_id(self.data - 128) {
                Some(g) => Err(g),
                None => Ok(63),
            }
        }
    }

    /// The character holding `data`.
    pub fn from_data(data: u8) -> (res: Self)
        ensures
            res.data == data,
    {
        ConsoleCharacter { data }
    }

    /// The character showing a picture.
    pub fn from_graphical(g: GraphicalCharacter) -> (res: Self)
        ensures
            res.data == 128 + spec_graphical_id(g),
    {
        ConsoleCharacter { data: 128 + g.id() }
    }
}

impl From<u8> for ConsoleCharacter {
    fn from(value: u8) -> (res: Self) {
        ConsoleCharacter { data: value }
    }
}

impl vstd::std_specs::convert::FromSpecImpl<u8> for ConsoleCharacter {
    open spec fn obeys_from_spec() -> bool {
        true
    }

    open spec fn from_spec(v: u8) -> Self {
        ConsoleCharacter { data: v }
    }
}

impl From<GraphicalCharacter> for ConsoleCharacter {
    fn from(value: GraphicalCharacter) -> (res: Self) {
        ConsoleCharacter { data: 128 + value.id() }
    }
}

impl vstd::std_specs::convert::FromSpecImpl<GraphicalCharacter> for ConsoleCharacter {
    open spec fn obeys_from_spec() -> bool {
        true
    }

    open spec fn from_spec(v: GraphicalCharacter) -> Self {
        ConsoleCharacter { data: (128 + spec_graphical_id(v)) as u8 }
    }
}

/// A character made from a picture shows that picture.
pub proof fn lemma_graphical_character_roundtrip(g: GraphicalCharacter)
    ensures
        spec_console_character_get((128 + spec_graphical_id(g)) as u8) == Err::<u8, GraphicalCharacter>(g),
{
}

/// A character made from an ASCII character shows that character.
pub proof fn lemma_ascii_character_roundtrip(b: u8)
    requires
        b < 128,
    ensures
        spec_console_character_get(b) == Ok::<u8, GraphicalCharacter>(b),
{
}

/// A key code. Keys are compared with the constants of [`Key`] (such as [`Key::SPACE`]);
/// a printable ASCII key has the code of its (lower case) character.
#[derive(Debug, Clone, Copy, PartialEq, Eq, Structural, Hash, PartialOrd, Ord)]
pub struct Key(u16);

impl View for Key {
    type V = u16;

    closed spec fn view(&self) -> u16 {
        self.0
    }
}

/// The codes of the keys: `Key::from_code(Key::SPACE)` is the space key.
impl Key {
    pub const SPACE: u16 = 32;
    pub const EXCLAMATION_MARK: u16 = 33;
    pub const QUOTATION_MARK: u16 = 34;
    pub const NUMBER_SIGN: u16 = 35;
    pub const DOLLAR: u16 = 36;
    pub const PERCENT_SIGN: u16 = 37;
    pub const AMPERSAND: u16 = 38;
    pub const APOSTROPHE: u16 = 39;
    pub const LEFT_PARENTHESIS: u16 = 40;
    pub const RIGHT_PARENTHESIS: u16 = 41;
    pub const ASTERISK: u16 = 42;
    pub const PLUS: u16 = 43;
    pub const COMMA: u16 = 44;
    pub const MINUS: u16 = 45;
    pub const DOT: u16 = 46;
    pub const SLASH: u16 = 47;
    pub const COLON: u16 = 58;
    pub const SEMICOLON: u16 = 59;
    pub const LESS_THAN_SIGN: u16 = 60;
    pub const EQUALS_SIGN: u16 = 61;
    pub const GREATER_THAN_SIGN: u16 = 62;
    pub const QUESTION_MARK: u16 = 63;
    pub const AT_SIGN: u16 = 64;
    pub const LEFT_BRACKET: u16 = 91;
    pub const BACKSLASH: u16 = 92;
    pub const RIGHT_BRACKET: u16 = 93;
    pub const CARET: u16 = 94;
    pub const UNDERSCORE: u16 = 95;
    pub const BACKTICK: u16 = 96;
    pub const LEFT_CURLY_BRACKET: u16 = 123;
    pub const VERTICAL_BAR: u16 = 124;
    pub const RIGHT_CURLY_BRACKET: u16 = 125;
    pub const TILDE: u16 = 126;
    pub const DIGIT_0: u16 = 48;
    pub const DIGIT_1: u16 = 49;
    pub const DIGIT_2: u16 = 50;
    pub const DIGIT_3: u16 = 51;
    pub const DIGIT_4: u16 = 52;
    pub const DIGIT_5: u16 = 53;
    pub const DIGIT_6: u16 = 54;
    pub const DIGIT_7: u16 = 55;
    pub const DIGIT_8: u16 = 56;
    pub const DIGIT_9: u16 = 57;
    pub const A: u16 = 97;
    pub const B: u16 = 98;
    pub const C: u16 = 99;
    pub const D: u16 = 100;
    pub const E: u16 = 101;
    pub const F: u16 = 102;
    pub const G: u16 = 103;
    pub const H: u16 = 104;
    pub const I: u16 = 105;
    pub const J: u16 = 106;
    pub const K: u16 = 107;
    pub const L: u16 = 108;
    pub const M: u16 = 109;
    pub const N: u16 = 110;
    pub const O: u16 = 111;
    pub const P: u16 = 112;
    pub const Q: u16 = 113;
    pub const R: u16 = 114;
    pub const S: u16 = 115;
    pub const T: u16 = 116;
    pub const U: u16 = 117;
    pub const V: u16 = 118;
    pub const W: u16 = 119;
    pub const X: u16 = 120;
    pub const Y: u16 = 121;
    pub const Z: u16 = 122;
    pub const LEFT: u16 = 5000;
    pub const UP: u16 = 5001;
    pub const RIGHT: u16 = 5002;
    pub const DOWN: u16 = 5003;
    pub const F1: u16 = 5004;
    pub const F2: u16 = 5005;
    pub const F3: u16 = 5006;
    pub const F4: u16 = 5007;
    pub const F5: u16 = 5008;
    pub const F6: u16 = 5009;
    pub const F7: u16 = 5010;
    pub const F8: u16 = 5011;
    pub const F9: u16 = 5012;
    pub const F10: u16 = 5013;
    pub const F11: u16 = 5014;
    pub const F12: u16 = 5015;
    pub const ESC: u16 = 5016;
    pub const DELETE: u16 = 5017;
    pub const ENTER: u16 = 5018;
    pub const TAB: u16 = 5019;
}

/// The keys without a character that a front end reports.
#[derive(Debug, Clone, Copy, PartialEq, Eq, Structural, Hash)]
pub enum NamedKey {
    ArrowLeft,
    ArrowUp,
    ArrowRight,
    ArrowDown,
    F1,
    F2,
    F3,
    F4,
    F5,
    F6,
    F7,
    F8,
    F9,
    F10,
    F11,
    F12,
    Escape,
    Delete,
    Backspace,
    Enter,
    Tab,
}

/// The code of a key without a character; backspace counts as delete.
pub open spec fn spec_named_key_code(k: NamedKey) -> u16 {
    match k {
        NamedKey::ArrowLeft => 5000,
        NamedKey::ArrowUp => 5001,
        NamedKey::ArrowRight => 5002,
        NamedKey::ArrowDown => 5003,
        NamedKey::F1 => 5004,
        NamedKey::F2 => 5005,
        NamedKey::F3 => 5006,
        NamedKey::F4 => 5007,
        NamedKey::F5 => 5008,
        NamedKey::F6 => 5009,
        NamedKey::F7 => 5010,
        NamedKey::F8 => 5011,
        NamedKey::F9 => 5012,
        NamedKey::F10 => 5013,
        NamedKey::F11 => 5014,
        NamedKey::F12 => 5015,
        NamedKey::Escape => 5016,
        NamedKey::Delete | NamedKey::Backspace => 5017,
        NamedKey::Enter => 5018,
        NamedKey::Tab => 5019,
    }
}

/// The code of the key that typed `text`: a single printable ASCII character, an upper case
/// letter counting as its lower case letter.
pub open spec fn spec_text_key_code(text: Seq<char>) -> Option<u16> {
    if text.len() == 1 && 32 <= text[0] as u32 <= 126 {
        if 65 <= text[0] as u32 <= 90 {
            Some((text[0] as u32 + 32) as u16)
        } else {
            Some(text[0] as u32 as u16)
        }
    } else {
        None
    }
}

pub open spec fn is_ascii_digit_code(c: u16) -> bool {
    48 <= c <= 57
}

pub open spec fn is_ascii_alphanumeric_code(c: u16) -> bool {
    48 <= c <= 57 || 65 <= c <= 90 || 97 <= c <= 122
}

impl Key {
    /// The key of a key press: the typed text where it is a printable ASCII character (see
    /// [`spec_text_key_code`]), else the named key; `None` for any other key.
    pub fn from_key_input(named: Option<NamedKey>, text: Option<&str>) -> (res: Option<Self>)
        ensures
            match text {
                Some(t) if spec_text_key_code(t@) is Some => res matches Some(k) && k@ == spec_text_key_code(t@)->0,
                _ => match named {
                    Some(n) => res matches Some(k) && k@ == spec_named_key_code(n),
                    None => res is None,
                },
            },
    {
        match text {
            Some(t) => {
                let chars = crate::text::str_chars(t);
                if chars.len() == 1 {
                    let c = chars[0] as u32;
                    if 32 <= c && c <= 126 {
                        if 65 <= c && c <= 90 {
                            return Some(Key((c + 32) as u16));
                        } else {
                            return Some(Key(c as u16));
                        }
                    }
                }
            },
            None => {},
        }
        match named {
            Some(n) => Some(Key(Self::named_key_code(n))),
            None => None,
        }
    }

    fn named_key_code(k: NamedKey) -> (res: u16)
        ensures
            res == spec_named_key_code(k),
    {
        match k {
            NamedKey::ArrowLeft => 5000,
            NamedKey::ArrowUp => 5001,
            NamedKey::ArrowRight => 5002,
            NamedKey::ArrowDown => 5003,
            NamedKey::F1 => 5004,
            NamedKey::F2 => 5005,
            NamedKey::F3 => 5006,
            NamedKey::F4 => 5007,
            NamedKey::F5 => 5008,
            NamedKey::F6 => 5009,
            NamedKey::F7 => 5010,
            NamedKey::F8 => 5011,
            NamedKey::F9 => 5012,
            NamedKey::F10 => 5013,
            NamedKey::F11 => 5014,
            NamedKey::F12 => 5015,
            NamedKey::Escape => 5016,
            NamedKey::Delete | NamedKey::Backspace => 5017,
            NamedKey::Enter => 5018,
            NamedKey::Tab => 5019,
        }
    }

    /// The key with a code.
    pub closed spec fn from_code_spec(code: u16) -> Key {
        Key(code)
    }

    /// The key made from a code has that code.
    pub proof fn lemma_from_code(code: u16)
        ensures
            Key::from_code_spec(code)@ == code,
    {
    }

    /// The key with a code.
    pub fn from_code(code: u16) -> (res: Self)
        ensures
            res@ == code,
            res == Key::from_code_spec(code),
    {
        Key(code)
    }

    /// Keys are equal exactly when their codes are.
    pub proof fn lemma_code_injective(a: Key, b: Key)
        ensures
            a@ == b@ <==> a == b,
            Key::from_code_spec(a@) == a,
            Key::from_code_spec(b@)@ == b@,
    {
    }

    /// The code of the key.
    pub fn code(&self) -> (res: u16)
        ensures
            res == self@,
    {
        self.0
    }

    /// Whether the key is one of the four arrow keys.
    pub fn is_arrow_key(&self) -> (res: bool)
        ensures
            res == (5000 <= self@ <= 5003),
    {
        5000 <= self.0 && self.0 <= 5003
    }

    /// The ASCII character of the key, where it has one.
    pub fn to_ascii(&self) -> (res: Option<u8>)
        ensures
            res == (if self@ <= 127 { Some(self@ as u8) } else { None::<u8> }),
    {
        if self.is_ascii() {
            Some(self.0 as u8)
        } else {
            None
        }
    }

    pub fn is_ascii(&self) -> (res: bool)
        ensures
            res == (self@ <= 127),
    {
        self.0 <= 127
    }

    /// Whether the key is an ASCII digit.
    pub fn is_numeric(&self) -> (res: bool)
        ensures
            res == is_ascii_digit_code(self@),
    {
        self.is_ascii() && 48 <= self.0 && self.0 <= 57
    }

    /// Whether the key is an ASCII letter or digit.
    pub fn is_alphanumeric(&self) -> (res: bool)
        ensures
            res == is_ascii_alphanumeric_code(self@),
    {
        self.is_ascii() && ((48 <= self.0 && self.0 <= 57) || (65 <= self.0 && self.0 <= 90) || (97
            <= self.0 && self.0 <= 122))
    }
}

/// The model of a draw buffer: a character and a color pair (foreground, background) for
/// each place of the console, row by row.
pub struct BufferView {
    pub text: Seq<ConsoleCharacter>,
    pub colors: Seq<(Color, Color)>,
}

/// A blank buffer of `n` places: spaces, white on black.
pub open spec fn blank_buffer(n: nat) -> BufferView {
    BufferView {
        text: Seq::new(n, |i: int| ConsoleCharacter { data: 32 }),
        colors: Seq::new(n, |i: int| (Color::White, Color::Black)),
    }
}

/// What is drawn on the console.
#[derive(Debug, Clone)]
pub struct ConsoleDrawBuffer {
    text_buffer: Vec<ConsoleCharacter>,
    text_color_buffer: Vec<(Color, Color)>,
}

impl View for ConsoleDrawBuffer {
    type V = BufferView;

    closed spec fn view(&self) -> BufferView {
        BufferView { text: self.text_buffer@, colors: self.text_color_buffer@ }
    }
}

impl ConsoleDrawBuffer {
    /// A blank buffer of `W` by `H` places.
    pub fn new<const W: usize, const H: usize>() -> (res: Self)
        requires
            W * H <= usize::MAX,
        ensures
            res@ == blank_buffer((W * H) as nat),
    {
        let n = W * H;
        let mut text_buffer: Vec<ConsoleCharacter> = Vec::new();
        let mut text_color_buffer: Vec<(Color, Color)> = Vec::new();
        let mut i: usize = 0;
        while i < n
            invariant
                i <= n,
                text_buffer@ == blank_buffer(i as nat).text,
                text_color_buffer@ == blank_buffer(i as nat).colors,
            decreases n - i,
        {
            text_buffer.push(ConsoleCharacter { data: 32 });
            text_color_buffer.push((Color::White, Color::Black));
            i += 1;
            assert(text_buffer@ =~= blank_buffer(i as nat).text);
            assert(text_color_buffer@ =~= blank_buffer(i as nat).colors);
        }
        ConsoleDrawBuffer { text_buffer, text_color_buffer }
    }

    pub fn text_buffer(&self) -> (res: &[ConsoleCharacter])
        ensures
            res@ == self@.text,
    {
        self.text_buffer.as_slice()
    }

    pub fn text_color_buffer(&self) -> (res: &[(Color, Color)])
        ensures
            res@ == self@.colors,
    {
        self.text_color_buffer.as_slice()
    }

    /// Fills the buffer with blanks.
    fn clear(&mut self)
        ensures
            final(self)@ == (BufferView {
                text: blank_buffer(old(self)@.text.len()).text,
                colors: blank_buffer(old(self)@.colors.len()).colors,
            }),
    {
        let n = self.text_buffer.len();
        let mut i: usize = 0;
        while i < n
            invariant
                i <= n == self.text_buffer@.len(),
                self.text_color_buffer@ == old(self).text_color_buffer@,
                forall|k: int| 0 <= k < i ==> self.text_buffer@[k] == (ConsoleCharacter { data: 32 }),
            decreases n - i,
        {
            self.text_buffer[i] = ConsoleCharacter { data: 32 };
            i += 1;
        }
        let m = self.text_color_buffer.len();
        let mut i: usize = 0;
        while i < m
            invariant
                i <= m == self.text_color_buffer@.len(),
                n == self.text_buffer@.len(),
                forall|k: int| 0 <= k < n ==> self.text_buffer@[k] == (ConsoleCharacter { data: 32 }),
                forall|k: int| 0 <= k < i ==> self.text_color_buffer@[k] == (Color::White, Color::Black),
            decreases m - i,
        {
            self.text_color_buffer[i] = (Color::White, Color::Black);
            i += 1;
        }
        assert(self.text_buffer@ =~= blank_buffer(n as nat).text);
        assert(self.text_color_buffer@ =~= blank_buffer(m as nat).colors);
    }
}

/// Which of the two buffers is drawn on.
#[derive(Debug, Clone, Copy, PartialEq, Eq, Structural, Hash)]
pub enum ConsoleBufferSelection {
    Primary,
    Secondary,
}

impl ConsoleBufferSelection {
    /// The other buffer.
    pub fn swap(self) -> (res: Self)
        ensures
            res != self,
    {
        match self {
            ConsoleBufferSelection::Primary => ConsoleBufferSelection::Secondary,
            ConsoleBufferSelection::Secondary => ConsoleBufferSelection::Primary,
        }
    }
}

/// The model of the state of the console.
pub struct ConsoleStateView {
    pub tile_mode: TileMode,
    pub cursor: (usize, usize),
    pub color: (Color, Color),
    pub selection: ConsoleBufferSelection,
    pub primary: BufferView,
    pub secondary: BufferView,
    pub keys: Seq<Key>,
    pub clicks: Seq<(usize, usize)>,
}

impl ConsoleStateView {
    /// The buffer that is drawn on.
    pub open spec fn current(self) -> BufferView {
        match self.selection {
            ConsoleBufferSelection::Primary => self.primary,
            ConsoleBufferSelection::Secondary => self.secondary,
        }
    }

    pub open spec fn with_current(self, b: BufferView) -> ConsoleStateView {
        match self.selection {
            ConsoleBufferSelection::Primary => ConsoleStateView { primary: b, ..self },
            ConsoleBufferSelection::Secondary => ConsoleStateView { secondary: b, ..self },
        }
    }

    /// Both buffers have a place for each character of the console.
    pub open spec fn wf(self) -> bool {
        &&& self.primary.text.len() == CONSOLE_WIDTH * CONSOLE_HEIGHT
        &&& self.primary.colors.len() == CONSOLE_WIDTH * CONSOLE_HEIGHT
        &&& self.secondary.text.len() == CONSOLE_WIDTH * CONSOLE_HEIGHT
        &&& self.secondary.colors.len() == CONSOLE_WIDTH * CONSOLE_HEIGHT
    }
}

/// Writing the characters `line` at `start`: `len` of them, no more than fit into the row.
pub open spec fn write_line(b: BufferView, start: int, line: Seq<u8>, len: int, color: (Color, Color)) -> BufferView {
    BufferView {
        text: Seq::new(
            b.text.len(),
            |k: int|
                if start <= k < start + len {
                    ConsoleCharacter { data: line[k - start] }
                } else {
                    b.text[k]
                },
        ),
        colors: Seq::new(b.colors.len(), |k: int| if start <= k < start + len { color } else { b.colors[k] }),
    }
}

/// Drawing the pieces `segs` of a text, one row each, from `cursor` on; `x_before` is where
/// the last row drawn ended. The result holds whether drawing stopped at a row outside the
/// console.
pub open spec fn draw_segments(
    b: BufferView,
    cursor: (usize, usize),
    color: (Color, Color),
    x_before: usize,
    segs: Seq<Seq<u8>>,
) -> (BufferView, (usize, usize), usize, bool)
    decreases segs.len(),
{
    if segs.len() == 0 {
        (b, cursor, x_before, false)
    } else if cursor.0 > CONSOLE_WIDTH || cursor.1 >= CONSOLE_HEIGHT {
        (b, cursor, x_before, true)
    } else {
        let start = cursor.0 + CONSOLE_WIDTH * cursor.1;
        let len = if segs[0].len() < CONSOLE_WIDTH - cursor.0 {
            segs[0].len() as int
        } else {
            CONSOLE_WIDTH - cursor.0
        };
        draw_segments(
            write_line(b, start, segs[0], len, color),
            (0, (cursor.1 + 1) as usize),
            color,
            (cursor.0 + len) as usize,
            segs.drop_first(),
        )
    }
}

/// Splitting bytes at every line break (`10`): `cur` is the current piece so far.
pub open spec fn split_bytes_from(s: Seq<u8>, cur: Seq<u8>) -> Seq<Seq<u8>>
    decreases s.len(),
{
    if s.len() == 0 {
        seq![cur]
    } else if s[0] == 10 {
        seq![cur] + split_bytes_from(s.drop_first(), seq![])
    } else {
        split_bytes_from(s.drop_first(), cur.push(s[0]))
    }
}

/// Drawing the UTF-8 bytes of a text at the cursor: each line of it goes to its own row,
/// from the cursor's column for the first and from the first column for the others; what
/// does not fit into a row is cut off, and the text stops at the first line that would start
/// outside the console (leaving the cursor there). Otherwise the cursor ends after the last
/// line, or at the start of the row of the last line where the text ends with a line break.
/// Drawing a tile: as its picture where the console shows pictures and the tile has one
/// (the player blinking in yellow, an inverted tile on black), else as its character (see
/// [`spec_tile_look`]), the colors exchanged where `inverted`.
pub open spec fn spec_draw_tile(st: ConsoleStateView, tile: Tile, is_player_background: bool, inverted: bool) -> ConsoleStateView {
    if st.tile_mode == TileMode::Graphical && spec_graphical_from_tile(tile) is Some {
        ConsoleStateView {
            cursor: ((st.cursor.0 + 1) as usize, st.cursor.1),
            ..st.with_current(
                write_line(
                    st.current(),
                    st.cursor.0 + CONSOLE_WIDTH * st.cursor.1,
                    seq![(128 + spec_graphical_id(spec_graphical_from_tile(tile)->0)) as u8],
                    1,
                    (
                        if is_player_background { Color::Yellow } else { Color::Default },
                        if inverted { Color::Black } else { Color::Default },
                    ),
                ),
            )
        }
    } else {
        let (fg, bg, c) = spec_tile_look(tile, is_player_background);
        spec_draw_text(ConsoleStateView { color: if inverted { (bg, fg) } else { (fg, bg) }, ..st }, seq![c])
    }
}

pub open spec fn spec_draw_text(st: ConsoleStateView, text: Seq<u8>) -> ConsoleStateView {
    if text.len() == 0 {
        st
    } else {
        let r = draw_segments(st.current(), st.cursor, st.color, st.cursor.0, split_bytes_from(text, seq![]));
        let cursor = if r.3 {
            r.1
        } else if text.last() == 10 {
            (r.1.0, (r.1.1 - 1) as usize)
        } else {
            (r.2, (r.1.1 - 1) as usize)
        };
        ConsoleStateView { cursor, ..st.with_current(r.0) }
    }
}

/// The state of the console: its buffers, cursor, colors and the input not handled yet.
pub struct ConsoleState {
    tile_mode: TileMode,
    cursor_pos: (usize, usize),
    current_color_pair: (Color, Color),
    buffer_selection: ConsoleBufferSelection,
    primary_buffer: ConsoleDrawBuffer,
    secondary_buffer: ConsoleDrawBuffer,
    input_queue_keyboard: VecDeque<Key>,
    input_queue_mouse: VecDeque<(usize, usize)>,
}

impl View for ConsoleState {
    type V = ConsoleStateView;

    closed spec fn view(&self) -> ConsoleStateView {
        ConsoleStateView {
            tile_mode: self.tile_mode,
            cursor: self.cursor_pos,
            color: self.current_color_pair,
            selection: self.buffer_selection,
            primary: self.primary_buffer@,
            secondary: self.secondary_buffer@,
            keys: self.input_queue_keyboard@,
            clicks: self.input_queue_mouse@,
        }
    }
}

/// Splits bytes at every line break (see [`split_bytes_from`]).
fn split_bytes(s: &[u8]) -> (res: Vec<Vec<u8>>)
    ensures
        res@.len() == split_bytes_from(s@, seq![]).len(),
        forall|i: int| 0 <= i < res@.len() ==> #[trigger] res@[i]@ == split_bytes_from(s@, seq![])[i],
{
    let mut res: Vec<Vec<u8>> = Vec::new();
    let mut cur: Vec<u8> = Vec::new();
    let mut i: usize = 0;
    let ghost done: Seq<Seq<u8>> = seq![];
    assert(s@.skip(0) =~= s@);
    assert(cur@ =~= Seq::<u8>::empty());
    while i < s.len()
        invariant
            i <= s@.len(),
            res@.len() == done.len(),
            forall|k: int| 0 <= k < res@.len() ==> #[trigger] res@[k]@ == done[k],
            done + split_bytes_from(s@.skip(i as int), cur@) == split_bytes_from(s@, seq![]),
        decreases s@.len() - i,
    {
        assert(s@.skip(i as int).drop_first() =~= s@.skip(i + 1));
        if s[i] == 10 {
            proof {
                done = done.push(cur@);
            }
            res.push(cur);
            cur = Vec::new();
            assert(done + split_bytes_from(s@.skip(i + 1), cur@) =~= split_bytes_from(s@, seq![]));
        } else {
            cur.push(s[i]);
        }
        i += 1;
    }
    proof {
        done = done.push(cur@);
    }
    res.push(cur);
    assert(done =~= split_bytes_from(s@, seq![]));
    res
}

impl ConsoleDrawBuffer {
    /// Writes `len` characters of `line` at `start` in color `color`.
    fn write_line(&mut self, start: usize, line: &[u8], len: usize, color: (Color, Color))
        requires
            len <= line@.len(),
            start + len <= old(self)@.text.len(),
            start + len <= old(self)@.colors.len(),
        ensures
            final(self)@ == write_line(old(self)@, start as int, line@, len as int, color),
    {
        let n = self.text_buffer.len();
        let mut k: usize = 0;
        while k < len
            invariant
                k <= len <= line@.len(),
                n == self.text_buffer@.len(),
                start + len <= self.text_buffer@.len(),
                start + len <= self.text_color_buffer@.len(),
                self.text_buffer@.len() == old(self).text_buffer@.len(),
                self.text_color_buffer@.len() == old(self).text_color_buffer@.len(),
                forall|j: int| 0 <= j < self.text_buffer@.len() ==> #[trigger] self.text_buffer@[j] == (if start <= j < start + k {
                    ConsoleCharacter { data: line@[j - start] }
                } else {
                    old(self).text_buffer@[j]
                }),
                forall|j: int| 0 <= j < self.text_color_buffer@.len() ==> #[trigger] self.text_color_buffer@[j] == (if start <= j < start + k {
                    color
                } else {
                    old(self).text_color_buffer@[j]
                }),
            decreases len - k,
        {
            self.text_buffer[start + k] = ConsoleCharacter { data: line[k] };
            self.text_color_buffer[start + k] = color;
            k += 1;
        }
        assert(self.text_buffer@ =~= write_line(old(self)@, start as int, line@, len as int, color).text);
        assert(self.text_color_buffer@ =~= write_line(old(self)@, start as int, line@, len as int, color).colors);
    }
}

impl ConsoleState {
    /// A console with blank buffers of `W` by `H` places, the cursor at the top left, white on
    /// black, and no input.
    pub fn new<const W: usize, const H: usize>() -> (res: Self)
        requires
            W * H <= usize::MAX,
        ensures
            res@ == (ConsoleStateView {
                tile_mode: TileMode::Graphical,
                cursor: (0, 0),
                color: (Color::White, Color::Black),
                selection: ConsoleBufferSelection::Primary,
                primary: blank_buffer((W * H) as nat),
                secondary: blank_buffer((W * H) as nat),
                keys: seq![],
                clicks: seq![],
            }),
    {
        ConsoleState {
            tile_mode: TileMode::Graphical,
            cursor_pos: (0, 0),
            current_color_pair: (Color::White, Color::Black),
            buffer_selection: ConsoleBufferSelection::Primary,
            primary_buffer: ConsoleDrawBuffer::new::<W, H>(),
            secondary_buffer: ConsoleDrawBuffer::new::<W, H>(),
            input_queue_keyboard: VecDeque::new(),
            input_queue_mouse: VecDeque::new(),
        }
    }

    /// The size of the console: 74 by 23 characters.
    pub fn get_console_size(&self) -> (res: (usize, usize))
        ensures
            res == (CONSOLE_WIDTH, CONSOLE_HEIGHT),
    {
        (CONSOLE_WIDTH, CONSOLE_HEIGHT)
    }

    pub fn tile_mode(&self) -> (res: TileMode)
        ensures
            res == self@.tile_mode,
    {
        self.tile_mode
    }

    pub fn set_tile_mode(&mut self, tile_mode: TileMode)
        ensures
            final(self)@ == (ConsoleStateView { tile_mode, ..old(self)@ }),
    {
        self.tile_mode = tile_mode;
    }

    /// Blanks the buffer that is drawn on and puts the cursor at the top left.
    pub fn clear_screen(&mut self)
        ensures
            final(self)@ == (ConsoleStateView {
                cursor: (0, 0),
                ..old(self)@.with_current(
                    BufferView {
                        text: blank_buffer(old(self)@.current().text.len()).text,
                        colors: blank_buffer(old(self)@.current().colors.len()).colors,
                    },
                )
            }),
    {
        self.cursor_pos = (0, 0);
        match self.buffer_selection {
            ConsoleBufferSelection::Primary => self.primary_buffer.clear(),
            ConsoleBufferSelection::Secondary => self.secondary_buffer.clear(),
        }
    }

    pub fn primary_buffer(&self) -> (res: &ConsoleDrawBuffer)
        ensures
            res@ == self@.primary,
    {
        &self.primary_buffer
    }

    pub fn secondary_buffer(&self) -> (res: &ConsoleDrawBuffer)
        ensures
            res@ == self@.secondary,
    {
        &self.secondary_buffer
    }

    /// The buffer that is drawn on.
    pub fn current_buffer(&self) -> (res: &ConsoleDrawBuffer)
        ensures
            res@ == self@.current(),
    {
        match self.buffer_selection {
            ConsoleBufferSelection::Primary => &self.primary_buffer,
            ConsoleBufferSelection::Secondary => &self.secondary_buffer,
        }
    }

    /// Draws on the other buffer from now on.
    pub fn swap_buffer_selection(&mut self)
        ensures
            final(self)@ == (ConsoleStateView { selection: old(self)@.selection.swap_spec(), ..old(self)@ }),
    {
        self.buffer_selection = self.buffer_selection.swap();
    }

    /// Exchanges the contents of the two buffers.
    pub fn swap_buffer(&mut self)
        ensures
            final(self)@ == (ConsoleStateView {
                primary: old(self)@.secondary,
                secondary: old(self)@.primary,
                ..old(self)@
            }),
    {
        std::mem::swap(&mut self.secondary_buffer, &mut self.primary_buffer);
    }

    pub fn input_queue_keyboard_mut(&mut self) -> (res: &mut VecDeque<Key>)
        ensures
            res@ == old(self)@.keys,
            final(self)@ == (ConsoleStateView { keys: final(res)@, ..old(self)@ }),
    {
        &mut self.input_queue_keyboard
    }

    pub fn input_queue_mouse_mut(&mut self) -> (res: &mut VecDeque<(usize, usize)>)
        ensures
            res@ == old(self)@.clicks,
            final(self)@ == (ConsoleStateView { clicks: final(res)@, ..old(self)@ }),
    {
        &mut self.input_queue_mouse
    }

    /// Whether a key press waits.
    pub fn has_input(&self) -> (res: bool)
        ensures
            res == (self@.keys.len() > 0),
    {
        self.input_queue_keyboard.len() > 0
    }

    /// The oldest key press that waits, which is then handled.
    pub fn get_key(&mut self) -> (res: Option<Key>)
        ensures
            old(self)@.keys.len() == 0 ==> res is None && final(self)@ == old(self)@,
            old(self)@.keys.len() > 0 ==> res == Some(old(self)@.keys[0]) && final(self)@ == (ConsoleStateView {
                keys: old(self)@.keys.drop_first(),
                ..old(self)@
            }),
    {
        self.input_queue_keyboard.pop_front()
    }

    /// The oldest click (column, row) that waits, which is then handled.
    pub fn get_mouse_pos_clicked(&mut self) -> (res: Option<(usize, usize)>)
        ensures
            old(self)@.clicks.len() == 0 ==> res is None && final(self)@ == old(self)@,
            old(self)@.clicks.len() > 0 ==> res == Some(old(self)@.clicks[0]) && final(self)@ == (ConsoleStateView {
                clicks: old(self)@.clicks.drop_first(),
                ..old(self)@
            }),
    {
        self.input_queue_mouse.pop_front()
    }

    /// Sets the foreground and background color.
    pub fn set_color(&mut self, fg: Color, bg: Color)
        ensures
            final(self)@ == (ConsoleStateView { color: (fg, bg), ..old(self)@ }),
    {
        self.current_color_pair = (fg, bg);
    }

    /// Sets the foreground and background color, exchanged where `inverted`.
    pub fn set_color_invertible(&mut self, fg: Color, bg: Color, inverted: bool)
        ensures
            final(self)@ == (ConsoleStateView { color: if inverted { (bg, fg) } else { (fg, bg) }, ..old(self)@ }),
    {
        if inverted {
            self.set_color(bg, fg);
        } else {
            self.set_color(fg, bg);
        }
    }

    /// White on black.
    pub fn reset_color(&mut self)
        ensures
            final(self)@ == (ConsoleStateView { color: (Color::White, Color::Black), ..old(self)@ }),
    {
        self.set_color(Color::White, Color::Black);
    }

    pub fn set_cursor_pos(&mut self, x: usize, y: usize)
        ensures
            final(self)@ == (ConsoleStateView { cursor: (x, y), ..old(self)@ }),
    {
        self.cursor_pos = (x, y);
    }

    /// Draws a picture at the cursor, which moves one column on; the cursor must be inside
    /// the console.
    pub fn draw_graphical_character(&mut self, graphical_tile: GraphicalCharacter, fg: Color, bg: Color)
        requires
            old(self)@.wf(),
            old(self)@.cursor.0 < CONSOLE_WIDTH,
            old(self)@.cursor.1 < CONSOLE_HEIGHT,
        ensures
            final(self)@ == (ConsoleStateView {
                cursor: ((old(self)@.cursor.0 + 1) as usize, old(self)@.cursor.1),
                ..old(self)@.with_current(
                    write_line(
                        old(self)@.current(),
                        old(self)@.cursor.0 + CONSOLE_WIDTH * old(self)@.cursor.1,
                        seq![(128 + spec_graphical_id(graphical_tile)) as u8],
                        1,
                        (fg, bg),
                    ),
                )
            }),
    {
        let (x, y) = self.cursor_pos;
        assert(x + CONSOLE_WIDTH * y + 1 <= CONSOLE_WIDTH * CONSOLE_HEIGHT) by (nonlinear_arith)
            requires
                x < CONSOLE_WIDTH,
                y < CONSOLE_HEIGHT,
        ;
        let index = x + CONSOLE_WIDTH * y;
        let data = [128 + graphical_tile.id()];
        match self.buffer_selection {
            ConsoleBufferSelection::Primary => self.primary_buffer.write_line(index, &data, 1, (fg, bg)),
            ConsoleBufferSelection::Secondary => self.secondary_buffer.write_line(index, &data, 1, (fg, bg)),
        }
        self.cursor_pos = (x + 1, y);
        assert(data@ =~= seq![(128 + spec_graphical_id(graphical_tile)) as u8]);
    }

    /// Draws a tile at the cursor (see [`spec_draw_tile`]); a tile drawn as a picture needs
    /// the cursor inside the console, one drawn as text is clipped as text is.
    pub fn draw_tile(&mut self, tile: Tile, is_player_background: bool, inverted: bool)
        requires
            old(self)@.wf(),
            old(self)@.tile_mode == TileMode::Graphical && spec_graphical_from_tile(tile) is Some ==> {
                &&& old(self)@.cursor.0 < CONSOLE_WIDTH
                &&& old(self)@.cursor.1 < CONSOLE_HEIGHT
            },
        ensures
            final(self)@ == spec_draw_tile(old(self)@, tile, is_player_background, inverted),
    {
        if self.tile_mode == TileMode::Graphical {
            match GraphicalCharacter::from_tile(tile) {
                Some(graphical_character) => {
                    self.draw_graphical_character(
                        graphical_character,
                        if is_player_background { Color::Yellow } else { Color::Default },
                        if inverted { Color::Black } else { Color::Default },
                    );
                    return;
                },
                None => {},
            }
        }
        let (fg, bg, c) = tile.tile_look(is_player_background);
        self.set_color_invertible(fg, bg, inverted);
        let text = [c];
        assert(text@ =~= seq![c]);
        self.draw_text(&text);
    }

    /// Draws the UTF-8 bytes of a text at the cursor (see [`spec_draw_text`]).
    pub fn draw_text(&mut self, text: &[u8])
        requires
            old(self)@.wf(),
        ensures
            final(self)@ == spec_draw_text(old(self)@, text@),
            final(self)@.wf(),
    {
        if text.len() == 0 {
            return;
        }
        let segs = split_bytes(text);
        let ghost segv = split_bytes_from(text@, seq![]);
        proof {
            lemma_split_bytes_nonempty(text@, seq![]);
        }
        let ghost start_state = self@;
        assert(start_state.with_current(start_state.current()) == start_state);
        let mut x_before = self.cursor_pos.0;
        let mut i: usize = 0;
        assert(segv.skip(0) =~= segv);
        while i < segs.len()
            invariant
                i <= segs@.len() == segv.len(),
                forall|k: int| 0 <= k < segs@.len() ==> #[trigger] segs@[k]@ == segv[k],
                segv == split_bytes_from(text@, seq![]),
                start_state == old(self)@,
                text@.len() > 0,
                self@.wf(),
                self@.selection == start_state.selection,
                self@.tile_mode == start_state.tile_mode,
                self@.color == start_state.color,
                self@.keys == start_state.keys,
                self@.clicks == start_state.clicks,
                self@ == (ConsoleStateView { cursor: self@.cursor, ..start_state.with_current(self@.current()) }),
                i > 0 ==> self@.cursor.0 == 0 && self@.cursor.1 >= 1,
                draw_segments(start_state.current(), start_state.cursor, start_state.color, start_state.cursor.0, segv)
                    == draw_segments(self@.current(), self@.cursor, self@.color, x_before, segv.skip(i as int)),
            decreases segs@.len() - i,
        {
            let (x, y) = self.cursor_pos;
            if x > CONSOLE_WIDTH || y >= CONSOLE_HEIGHT {
                proof {
                    assert(segv.skip(i as int).len() > 0);
                    let r = draw_segments(self@.current(), self@.cursor, self@.color, x_before, segv.skip(i as int));
                    assert(r == (self@.current(), self@.cursor, x_before, true));
                    assert(start_state == old(self)@);
                    assert(spec_draw_text(old(self)@, text@) == (ConsoleStateView {
                        cursor: self@.cursor,
                        ..start_state.with_current(self@.current())
                    }));
                }
                return;
            }
            let line = &segs[i];
            let len = if line.len() < CONSOLE_WIDTH - x {
                line.len()
            } else {
                CONSOLE_WIDTH - x
            };
            assert(x + CONSOLE_WIDTH * y + len <= CONSOLE_WIDTH * CONSOLE_HEIGHT) by (nonlinear_arith)
                requires
                    x <= CONSOLE_WIDTH,
                    y < CONSOLE_HEIGHT,
                    len <= CONSOLE_WIDTH - x,
            ;
            let start = x + CONSOLE_WIDTH * y;
            let color = self.current_color_pair;
            assert(segv.skip(i as int)[0] == segv[i as int]);
            assert(segv.skip(i as int).drop_first() =~= segv.skip(i + 1));
            if len > 0 {
                match self.buffer_selection {
                    ConsoleBufferSelection::Primary => self.primary_buffer.write_line(start, line.as_slice(), len, color),
                    ConsoleBufferSelection::Secondary => self.secondary_buffer.write_line(start, line.as_slice(), len, color),
                }
            } else {
                proof {
                    let b = self@.current();
                    assert(write_line(b, start as int, line@, 0, color).text =~= b.text);
                    assert(write_line(b, start as int, line@, 0, color).colors =~= b.colors);
                }
            }
            x_before = x + len;
            self.cursor_pos = (0, y + 1);
            i += 1;
        }
        self.cursor_pos.1 = self.cursor_pos.1 - 1;
        if text[text.len() - 1] != 10 {
            self.cursor_pos.0 = x_before;
        }
    }
}

proof fn lemma_split_bytes_nonempty(s: Seq<u8>, cur: Seq<u8>)
    ensures
        split_bytes_from(s, cur).len() >= 1,
    decreases s.len(),
{
    if s.len() > 0 {
        if s[0] == 10 {
            lemma_split_bytes_nonempty(s.drop_first(), seq![]);
        } else {
            lemma_split_bytes_nonempty(s.drop_first(), cur.push(s[0]));
        }
    }
}

impl ConsoleBufferSelection {
    pub open spec fn swap_spec(self) -> ConsoleBufferSelection {
        match self {
            ConsoleBufferSelection::Primary => ConsoleBufferSelection::Secondary,
            ConsoleBufferSelection::Secondary => ConsoleBufferSelection::Primary,
        }
    }
}

} // verus!
