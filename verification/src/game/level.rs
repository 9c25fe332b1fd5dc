pub mod roundtrip;

use vstd::prelude::*;
use vstd::string::*;
use crate::collections::{HistoryModel, UndoHistory, lemma_commit_keeps_property, lemma_commit_then_undo};
use crate::io::console::Color;
use crate::text::{
    chars_find, chars_start_with, chars_to_string, contains, decimal, is_first_occurrence, is_whitespace,
    lines, parse_unsigned, parse_unsigned_chars, push_decimal, push_str, split_lines, starts_with, str_chars,
    trim, trim_chars,
};

verus! {

#[derive(Debug, Clone, Copy, PartialEq, Eq, Structural)]
pub enum Tile {
    Empty,
    FragileFloor,
    Ice,
    OneWayLeft,
    OneWayUp,
    OneWayRight,
    OneWayDown,
    Wall,
    Player,
    PlayerOnFragileFloor,
    PlayerOnIce,
    Key,
    KeyInGoal,
    KeyOnFragileFloor,
    KeyOnIce,
    LockedDoor,
    Box,
    BoxInGoal,
    BoxOnFragileFloor,
    BoxOnIce,
    Goal,
    Hole,
    BoxInHole,
    DecorationBlank,
    Secret,
}

/// The floor under a tile: a box, key or player standing on fragile floor, ice or a goal
/// stands on that floor; every other tile is its own floor.
pub open spec fn spec_floor_tile(t: Tile) -> Tile {
    match t {
        Tile::PlayerOnFragileFloor | Tile::KeyOnFragileFloor | Tile::BoxOnFragileFloor => Tile::FragileFloor,
        Tile::PlayerOnIce | Tile::KeyOnIce | Tile::BoxOnIce => Tile::Ice,
        Tile::KeyInGoal | Tile::BoxInGoal => Tile::Goal,
        _ => t,
    }
}

/// The tile shown where the floor is shown in place of what stands on it: a player, a box
/// or a key stands on the floor of the level as loaded (`original`, where the position is
/// inside it), a hole that was filled shows as filled.
pub open spec fn spec_floor_view_tile(tile: Tile, original: Option<Tile>) -> Tile {
    match spec_floor_tile(tile) {
        Tile::Player => match original {
            Some(Tile::KeyOnIce) | Some(Tile::BoxOnIce) | Some(Tile::Ice) | Some(Tile::PlayerOnIce) => Tile::Ice,
            Some(Tile::OneWayLeft) => Tile::OneWayLeft,
            Some(Tile::OneWayUp) => Tile::OneWayUp,
            Some(Tile::OneWayRight) => Tile::OneWayRight,
            Some(Tile::OneWayDown) => Tile::OneWayDown,
            Some(Tile::KeyInGoal) | Some(Tile::BoxInGoal) | Some(Tile::Goal) => Tile::Goal,
            Some(Tile::Hole) | Some(Tile::BoxInHole) | Some(Tile::KeyOnFragileFloor) | Some(Tile::BoxOnFragileFloor) => Tile::BoxInHole,
            _ => Tile::Empty,
        },
        Tile::Box | Tile::Key => match original {
            Some(Tile::Hole) | Some(Tile::BoxInHole) => Tile::BoxInHole,
            _ => Tile::Empty,
        },
        t => t,
    }
}

/// How a tile is drawn as a character: its foreground and background colors and the
/// character. A player swaps to a yellow background while the player blinks.
pub open spec fn spec_tile_look(t: Tile, is_player_background: bool) -> (Color, Color, u8) {
    match t {
        Tile::Empty => (Color::LightBlue, Color::Default, 45),
        Tile::FragileFloor => (Color::LightBlue, Color::Default, 126),
        Tile::Ice => (Color::LightBlue, Color::Default, 37),
        Tile::OneWayLeft => (Color::LightBlue, Color::Default, 60),
        Tile::OneWayUp => (Color::LightBlue, Color::Default, 94),
        Tile::OneWayRight => (Color::LightBlue, Color::Default, 62),
        Tile::OneWayDown => (Color::LightBlue, Color::Default, 118),
        Tile::Wall => (Color::LightGreen, Color::Default, 35),
        Tile::Player | Tile::PlayerOnFragileFloor | Tile::PlayerOnIce => if is_player_background {
            (Color::Default, Color::Yellow, 80)
        } else {
            (Color::Yellow, Color::Default, 80)
        },
        Tile::Key | Tile::KeyOnFragileFloor | Tile::KeyOnIce => (Color::LightCyan, Color::Default, 42),
        Tile::KeyInGoal => (Color::LightPink, Color::Default, 42),
        Tile::LockedDoor => (Color::LightRed, Color::Default, 61),
        Tile::Box | Tile::BoxOnFragileFloor | Tile::BoxOnIce => (Color::LightCyan, Color::Default, 64),
        Tile::BoxInGoal => (Color::LightPink, Color::Default, 64),
        Tile::Goal => (Color::LightRed, Color::Default, 120),
        Tile::Hole => (Color::LightBlue, Color::Default, 79),
        Tile::BoxInHole => (Color::Default, Color::LightBlue, 64),
        Tile::DecorationBlank => (Color::LightBlue, Color::Default, 32),
        Tile::Secret => (Color::LightBlue, Color::Default, 43),
    }
}

/// The character a tile is saved as.
pub open spec fn spec_tile_to_ascii(t: Tile) -> u8 {
    match t {
        Tile::Empty => 45,  // '-'
        Tile::FragileFloor => 58,  // ':'
        Tile::Ice => 37,  // '%'
        Tile::OneWayLeft => 60,  // '<'
        Tile::OneWayUp => 94,  // '^'
        Tile::OneWayRight => 62,  // '>'
        Tile::OneWayDown => 118,  // 'v'
        Tile::Wall => 35,  // '#'
        Tile::Player => 80,  // 'P'
        Tile::PlayerOnFragileFloor => 44,  // ','
        Tile::PlayerOnIce => 38,  // '&'
        Tile::Key => 42,  // '*'
        Tile::KeyInGoal => 126,  // '~'
        Tile::KeyOnFragileFloor => 59,  // ';'
        Tile::KeyOnIce => 92,  // '\\'
        Tile::LockedDoor => 61,  // '='
        Tile::Box => 64,  // '@'
        Tile::BoxInGoal => 43,  // '+'
        Tile::BoxOnFragileFloor => 33,  // '!'
        Tile::BoxOnIce => 47,  // '/'
        Tile::Goal => 120,  // 'x'
        Tile::Hole => 111,  // 'o'
        Tile::BoxInHole => 46,  // '.'
        Tile::DecorationBlank => 98,  // 'b'
        Tile::Secret => 115,  // 's'
    }
}

/// The tile a character stands for; the letters `p`, `x`, `o`, `b` and `s` are read in
/// either case.
pub open spec fn spec_tile_from_ascii(a: u8) -> Option<Tile> {
    if a == 80 || a == 112 {
        Some(Tile::Player)
    } else if a == 120 || a == 88 {
        Some(Tile::Goal)
    } else if a == 111 || a == 79 {
        Some(Tile::Hole)
    } else if a == 98 || a == 66 {
        Some(Tile::DecorationBlank)
    } else if a == 115 || a == 83 {
        Some(Tile::Secret)
    } else if exists|t: Tile| spec_tile_to_ascii(t) == a {
        Some(choose|t: Tile| spec_tile_to_ascii(t) == a)
    } else {
        None
    }
}

pub open spec fn is_player_tile(t: Tile) -> bool {
    t == Tile::Player || t == Tile::PlayerOnFragileFloor || t == Tile::PlayerOnIce
}

/// An error while reading a level or a level pack.
#[derive(Debug)]
pub struct LevelLoadingError {
    message: String,
}

impl View for LevelLoadingError {
    type V = Seq<char>;

    closed spec fn view(&self) -> Seq<char> {
        self.message@
    }
}

impl LevelLoadingError {
    pub(crate) fn new(message: String) -> (res: Self)
        ensures
            res@ == message@,
    {
        Self { message }
    }

    pub fn message(&self) -> (res: &str)
        ensures
            res@ == self@,
    {
        self.message.as_str()
    }
}

pub open spec fn msg_invalid_tile() -> Seq<char> {
    "Invalid tile"@
}

pub open spec fn msg_level_invalid() -> Seq<char> {
    "Level is invalid!"@
}

impl Tile {
    pub fn floor_tile(self) -> (res: Self)
        ensures
            res == spec_floor_tile(self),
    {
        match self {
            Tile::PlayerOnFragileFloor | Tile::KeyOnFragileFloor | Tile::BoxOnFragileFloor => Tile::FragileFloor,
            Tile::PlayerOnIce | Tile::KeyOnIce | Tile::BoxOnIce => Tile::Ice,
            Tile::KeyInGoal | Tile::BoxInGoal => Tile::Goal,
            _ => self,
        }
    }

    /// How the tile is drawn as a character (see [`spec_tile_look`]).
    pub fn tile_look(self, is_player_background: bool) -> (res: (Color, Color, u8))
        ensures
            res == spec_tile_look(self, is_player_background),
    {
        match self {
            Tile::Empty => (Color::LightBlue, Color::Default, 45u8 /* - */),
            Tile::FragileFloor => (Color::LightBlue, Color::Default, 126u8 /* ~ */),
            Tile::Ice => (Color::LightBlue, Color::Default, 37u8 /* % */),
            Tile::OneWayLeft => (Color::LightBlue, Color::Default, 60u8 /* < */),
            Tile::OneWayUp => (Color::LightBlue, Color::Default, 94u8 /* ^ */),
            Tile::OneWayRight => (Color::LightBlue, Color::Default, 62u8 /* > */),
            Tile::OneWayDown => (Color::LightBlue, Color::Default, 118u8 /* v */),
            Tile::Wall => (Color::LightGreen, Color::Default, 35u8 /* # */),
            Tile::Player | Tile::PlayerOnFragileFloor | Tile::PlayerOnIce => if is_player_background {
                (Color::Default, Color::Yellow, 80u8 /* P */)
            } else {
                (Color::Yellow, Color::Default, 80u8 /* P */)
            },
            Tile::Key | Tile::KeyOnFragileFloor | Tile::KeyOnIce => (Color::LightCyan, Color::Default, 42u8 /* star */),
            Tile::KeyInGoal => (Color::LightPink, Color::Default, 42u8 /* star */),
            Tile::LockedDoor => (Color::LightRed, Color::Default, 61u8 /* = */),
            Tile::Box | Tile::BoxOnFragileFloor | Tile::BoxOnIce => (Color::LightCyan, Color::Default, 64u8 /* @ */),
            Tile::BoxInGoal => (Color::LightPink, Color::Default, 64u8 /* @ */),
            Tile::Goal => (Color::LightRed, Color::Default, 120u8 /* x */),
            Tile::Hole => (Color::LightBlue, Color::Default, 79u8 /* O */),
            Tile::BoxInHole => (Color::Default, Color::LightBlue, 64u8 /* @ */),
            Tile::DecorationBlank => (Color::LightBlue, Color::Default, 32u8 /* space */),
            Tile::Secret => (Color::LightBlue, Color::Default, 43u8 /* + */),
        }
    }

    /// See [`spec_floor_view_tile`].
    pub fn floor_view_tile(self, original: Option<Tile>) -> (res: Self)
        ensures
            res == spec_floor_view_tile(self, original),
    {
        match self.floor_tile() {
            Tile::Player => match original {
                Some(Tile::KeyOnIce | Tile::BoxOnIce | Tile::Ice | Tile::PlayerOnIce) => Tile::Ice,
                Some(Tile::OneWayLeft) => Tile::OneWayLeft,
                Some(Tile::OneWayUp) => Tile::OneWayUp,
                Some(Tile::OneWayRight) => Tile::OneWayRight,
                Some(Tile::OneWayDown) => Tile::OneWayDown,
                Some(Tile::KeyInGoal | Tile::BoxInGoal | Tile::Goal) => Tile::Goal,
                Some(Tile::Hole | Tile::BoxInHole | Tile::KeyOnFragileFloor | Tile::BoxOnFragileFloor) => Tile::BoxInHole,
                _ => Tile::Empty,
            },
            Tile::Box | Tile::Key => match original {
                Some(Tile::Hole | Tile::BoxInHole) => Tile::BoxInHole,
                _ => Tile::Empty,
            },
            t => t,
        }
    }

    pub fn from_ascii(a: u8) -> (res: Result<Self, LevelLoadingError>)
        ensures
            match res {
                Ok(t) => spec_tile_from_ascii(a) == Some(t),
                Err(e) => spec_tile_from_ascii(a) is None && e@ == msg_invalid_tile(),
            },
    {
        let r = match a {
            45u8 /* '-' */ => Some(Tile::Empty),
            58u8 /* ':' */ => Some(Tile::FragileFloor),
            37u8 /* '%' */ => Some(Tile::Ice),
            60u8 /* '<' */ => Some(Tile::OneWayLeft),
            94u8 /* '^' */ => Some(Tile::OneWayUp),
            62u8 /* '>' */ => Some(Tile::OneWayRight),
            118u8 /* 'v' */ => Some(Tile::OneWayDown),
            35u8 /* '#' */ => Some(Tile::Wall),
            112u8 /* 'p' */ | 80u8 /* 'P' */ => Some(Tile::Player),
            44u8 /* ',' */ => Some(Tile::PlayerOnFragileFloor),
            38u8 /* '&' */ => Some(Tile::PlayerOnIce),
            42u8 /* '*' */ => Some(Tile::Key),
            126u8 /* '~' */ => Some(Tile::KeyInGoal),
            59u8 /* ';' */ => Some(Tile::KeyOnFragileFloor),
            92u8 /* '\\' */ => Some(Tile::KeyOnIce),
            61u8 /* '=' */ => Some(Tile::LockedDoor),
            64u8 /* '@' */ => Some(Tile::Box),
            43u8 /* '+' */ => Some(Tile::BoxInGoal),
            33u8 /* '!' */ => Some(Tile::BoxOnFragileFloor),
            47u8 /* '/' */ => Some(Tile::BoxOnIce),
            120u8 /* 'x' */ | 88u8 /* 'X' */ => Some(Tile::Goal),
            111u8 /* 'o' */ | 79u8 /* 'O' */ => Some(Tile::Hole),
            46u8 /* '.' */ => Some(Tile::BoxInHole),
            98u8 /* 'b' */ | 66u8 /* 'B' */ => Some(Tile::DecorationBlank),
            115u8 /* 's' */ | 83u8 /* 'S' */ => Some(Tile::Secret),
            _ => None,
        };
        proof {
            lemma_tile_ascii_injective();
            match r {
                Some(t) => {
                    assert(spec_tile_to_ascii(t) == a || a == 112 || a == 88 || a == 79 || a == 66
                        || a == 83);
                },
                None => {
                    if exists|t: Tile| spec_tile_to_ascii(t) == a {
                        let t = choose|t: Tile| spec_tile_to_ascii(t) == a;
                        assert(spec_tile_to_ascii(t) == a);
                    }
                },
            }
        }
        match r {
            Some(t) => Ok(t),
            None => Err(LevelLoadingError::new(String::from_str("Invalid tile"))),
        }
    }

    pub fn to_ascii(self) -> (res: u8)
        ensures
            res == spec_tile_to_ascii(self),
    {
        match self {
            Tile::Empty => 45u8 /* '-' */,
            Tile::FragileFloor => 58u8 /* ':' */,
            Tile::Ice => 37u8 /* '%' */,
            Tile::OneWayLeft => 60u8 /* '<' */,
            Tile::OneWayUp => 94u8 /* '^' */,
            Tile::OneWayRight => 62u8 /* '>' */,
            Tile::OneWayDown => 118u8 /* 'v' */,
            Tile::Wall => 35u8 /* '#' */,
            Tile::Player => 80u8 /* 'P' */,
            Tile::PlayerOnFragileFloor => 44u8 /* ',' */,
            Tile::PlayerOnIce => 38u8 /* '&' */,
            Tile::Key => 42u8 /* '*' */,
            Tile::KeyInGoal => 126u8 /* '~' */,
            Tile::KeyOnFragileFloor => 59u8 /* ';' */,
            Tile::KeyOnIce => 92u8 /* '\\' */,
            Tile::LockedDoor => 61u8 /* '=' */,
            Tile::Box => 64u8 /* '@' */,
            Tile::BoxInGoal => 43u8 /* '+' */,
            Tile::BoxOnFragileFloor => 33u8 /* '!' */,
            Tile::BoxOnIce => 47u8 /* '/' */,
            Tile::Goal => 120u8 /* 'x' */,
            Tile::Hole => 111u8 /* 'o' */,
            Tile::BoxInHole => 46u8 /* '.' */,
            Tile::DecorationBlank => 98u8 /* 'b' */,
            Tile::Secret => 115u8 /* 's' */,
        }
    }
}

/// Different tiles are saved as different characters.
pub proof fn lemma_tile_ascii_injective()
    ensures
        forall|t1: Tile, t2: Tile|
            spec_tile_to_ascii(t1) == spec_tile_to_ascii(t2) ==> t1 == t2,
{
}

/// Reading the character a tile is saved as gives back the tile.
pub proof fn lemma_tile_ascii_roundtrip(t: Tile)
    ensures
        spec_tile_from_ascii(spec_tile_to_ascii(t)) == Some(t),
{
    lemma_tile_ascii_injective();
    let a = spec_tile_to_ascii(t);
    assert(spec_tile_to_ascii(t) == a);
}

/// No tile is saved as a white-space character or as a line break.
pub proof fn lemma_tile_ascii_not_whitespace(t: Tile)
    ensures
        !is_whitespace((spec_tile_to_ascii(t) as u32) as char),
        spec_tile_to_ascii(t) < 128,
{
}

#[derive(Debug, Clone, Copy, PartialEq, Eq, Structural)]
pub enum Direction {
    Left,
    Up,
    Right,
    Down,
}

/// The column reached by one step in direction `d`; leaving the level on one side
/// enters it on the opposite side.
pub open spec fn spec_update_x(d: Direction, x: int, width: int) -> int {
    match d {
        Direction::Left => if x == 0 { width - 1 } else { x - 1 },
        Direction::Right => if x == width - 1 { 0 } else { x + 1 },
        _ => x,
    }
}

/// The row reached by one step in direction `d`, wrapping around like [`spec_update_x`].
pub open spec fn spec_update_y(d: Direction, y: int, height: int) -> int {
    match d {
        Direction::Up => if y == 0 { height - 1 } else { y - 1 },
        Direction::Down => if y == height - 1 { 0 } else { y + 1 },
        _ => y,
    }
}

/// Levels wrap around: a step off one edge comes in at the opposite edge, every step stays
/// inside the level, and a step back in the opposite direction returns to the start.
pub proof fn lemma_steps_wrap_around(x: int, y: int, width: int, height: int)
    requires
        0 <= x < width,
        0 <= y < height,
    ensures
        spec_update_x(Direction::Left, 0, width) == width - 1,
        spec_update_x(Direction::Right, width - 1, width) == 0,
        spec_update_y(Direction::Up, 0, height) == height - 1,
        spec_update_y(Direction::Down, height - 1, height) == 0,
        0 <= spec_update_x(Direction::Left, x, width) < width,
        0 <= spec_update_x(Direction::Right, x, width) < width,
        0 <= spec_update_y(Direction::Up, y, height) < height,
        0 <= spec_update_y(Direction::Down, y, height) < height,
        spec_update_x(Direction::Right, spec_update_x(Direction::Left, x, width), width) == x,
        spec_update_x(Direction::Left, spec_update_x(Direction::Right, x, width), width) == x,
        spec_update_y(Direction::Down, spec_update_y(Direction::Up, y, height), height) == y,
        spec_update_y(Direction::Up, spec_update_y(Direction::Down, y, height), height) == y,
{
}

impl Direction {
    pub fn update_x(self, x: usize, width: usize) -> (res: usize)
        requires
            (self == Direction::Left && x == 0) || self == Direction::Right ==> width > 0,
            self == Direction::Right && x != width - 1 ==> x < usize::MAX,
        ensures
            res == spec_update_x(self, x as int, width as int),
    {
        match self {
            Direction::Left => if x == 0 {
                width - 1
            } else {
                x - 1
            },
            Direction::Right => if x == width - 1 {
                0
            } else {
                x + 1
            },
            _ => x,
        }
    }

    pub fn update_y(self, y: usize, height: usize) -> (res: usize)
        requires
            (self == Direction::Up && y == 0) || self == Direction::Down ==> height > 0,
            self == Direction::Down && y != height - 1 ==> y < usize::MAX,
        ensures
            res == spec_update_y(self, y as int, height as int),
    {
        match self {
            Direction::Up => if y == 0 {
                height - 1
            } else {
                y - 1
            },
            Direction::Down => if y == height - 1 {
                0
            } else {
                y + 1
            },
            _ => y,
        }
    }

    pub fn update_xy(self, x: usize, y: usize, width: usize, height: usize) -> (res: (usize, usize))
        requires
            (self == Direction::Left && x == 0) || self == Direction::Right ==> width > 0,
            self == Direction::Right && x != width - 1 ==> x < usize::MAX,
            (self == Direction::Up && y == 0) || self == Direction::Down ==> height > 0,
            self == Direction::Down && y != height - 1 ==> y < usize::MAX,
        ensures
            res.0 == spec_update_x(self, x as int, width as int),
            res.1 == spec_update_y(self, y as int, height as int),
    {
        (self.update_x(x, width), self.update_y(y, height))
    }
}

/// A step from a position inside the level stays inside the level.
pub proof fn lemma_update_stays_inside(d: Direction, x: int, y: int, width: int, height: int)
    requires
        0 <= x < width,
        0 <= y < height,
    ensures
        0 <= spec_update_x(d, x, width) < width,
        0 <= spec_update_y(d, y, height) < height,
{
}

#[derive(Debug, Clone, Copy, PartialEq, Eq, Structural)]
pub enum LevelSoundEffect {
    BoxFall,
    KeyFall,
    DoorUnlocked,
    FloorBroken,
}

#[derive(Debug, Clone, Copy, PartialEq, Eq, Structural)]
pub enum MoveResult {
    Valid { has_won: bool, secret_found: bool, sound_effect: Option<LevelSoundEffect> },
    Invalid,
    Animation { player_animation: bool, sound_effect: Option<LevelSoundEffect> },
}

impl MoveResult {
    pub fn is_valid(&self) -> (res: bool)
        ensures
            res == (*self is Valid),
    {
        matches!(self, MoveResult::Valid { .. })
    }

    pub fn has_won(&self) -> (res: bool)
        ensures
            res == (*self matches MoveResult::Valid { has_won: true, .. }),
    {
        matches!(self, MoveResult::Valid { has_won: true, .. })
    }

    pub fn secret_found(&self) -> (res: bool)
        ensures
            res == (*self matches MoveResult::Valid { secret_found: true, .. }),
    {
        matches!(self, MoveResult::Valid { secret_found: true, .. })
    }

    pub fn is_invalid(&self) -> (res: bool)
        ensures
            res == (*self is Invalid),
    {
        matches!(self, MoveResult::Invalid)
    }

    pub fn is_animation(&self) -> (res: bool)
        ensures
            res == (*self is Animation),
    {
        matches!(self, MoveResult::Animation { .. })
    }
}


/// The character a tile is saved as.
pub open spec fn tile_char(t: Tile) -> char {
    spec_tile_to_ascii(t) as char
}

pub open spec fn row_chars(row: Seq<Tile>) -> Seq<char> {
    row.map_values(|t: Tile| tile_char(t))
}

/// The rows of a level as text: each row of `width` tiles followed by a line break.
pub open spec fn rows_text(tiles: Seq<Tile>, width: nat) -> Seq<char>
    decreases tiles.len(),
{
    if width == 0 || tiles.len() == 0 {
        seq![]
    } else if tiles.len() <= width {
        row_chars(tiles).push('\n')
    } else {
        row_chars(tiles.take(width as int)).push('\n') + rows_text(tiles.skip(width as int), width)
    }
}

/// A level as text: the line `w: <width>, h: <height>`, then one line per row.
pub open spec fn level_text(l: LevelView) -> Seq<char> {
    "w: "@ + decimal(l.width) + ", h: "@ + decimal(l.height) + seq!['\n'] + rows_text(l.tiles, l.width)
}

/// The number of bytes of a character in UTF-8.
pub open spec fn utf8_len(c: char) -> nat {
    let v = c as u32;
    if v < 0x80 {
        1
    } else if v < 0x800 {
        2
    } else if v < 0x10000 {
        3
    } else {
        4
    }
}

/// The number of bytes of a text in UTF-8.
pub open spec fn utf8_len_seq(s: Seq<char>) -> nat
    decreases s.len(),
{
    if s.len() == 0 {
        0
    } else {
        utf8_len_seq(s.drop_last()) + utf8_len(s.last())
    }
}

/// The tile a character of a level row stands for.
pub open spec fn tile_from_char(c: char) -> Option<Tile> {
    if (c as u32) < 128 {
        spec_tile_from_ascii((c as u32) as u8)
    } else {
        None
    }
}

/// Reading the rows of a level, each of exactly `width` bytes after trimming.
pub open spec fn parse_rows(rows: Seq<Seq<char>>, width: nat) -> Result<Seq<Tile>, Seq<char>>
    decreases rows.len(),
{
    if rows.len() == 0 {
        Ok(seq![])
    } else {
        let row = trim(rows[0]);
        if utf8_len_seq(row) != width {
            Err(msg_level_invalid())
        } else if !(forall|i: int| 0 <= i < row.len() ==> (#[trigger] tile_from_char(row[i])) is Some) {
            Err(msg_invalid_tile())
        } else {
            match parse_rows(rows.drop_first(), width) {
                Ok(rest) => Ok(row.map_values(|c: char| tile_from_char(c)->0) + rest),
                Err(e) => Err(e),
            }
        }
    }
}

/// The width and height in the first line of a level: `w: <width>, h: <height>`.
pub open spec fn header_dims(first: Seq<char>) -> Option<(nat, nat)> {
    if starts_with(first, "w: "@) && contains(first, ", h: "@) {
        let idx = choose|i: int| is_first_occurrence(first, ", h: "@, i);
        match (
            parse_unsigned(first.subrange(3, idx), usize::MAX as nat),
            parse_unsigned(first.subrange(idx + 5, first.len() as int), usize::MAX as nat),
        ) {
            (Some(w), Some(h)) => Some((w, h)),
            _ => None,
        }
    } else {
        None
    }
}

/// Reading a level from text: a header line, then the rows; every failure gives
/// `"Level is invalid!"` but a row with a character that is no tile, which gives
/// `"Invalid tile"`.
pub open spec fn spec_parse_level(s: Seq<char>) -> Result<LevelView, Seq<char>> {
    let ls = lines(s);
    if ls.len() == 0 {
        Err(msg_level_invalid())
    } else {
        match header_dims(trim(ls[0])) {
            None => Err(msg_level_invalid()),
            Some((w, h)) => if w == 0 || h == 0 {
                Err(msg_level_invalid())
            } else {
                match parse_rows(ls.drop_first(), w) {
                    Err(e) => Err(e),
                    Ok(tiles) => if tiles.len() != w * h {
                        Err(msg_level_invalid())
                    } else {
                        Ok(LevelView { width: w, height: h, tiles })
                    },
                }
            },
        }
    }
}


proof fn lemma_rows_text_step(tiles: Seq<Tile>, w: nat, h: nat, r: nat)
    requires
        tiles.len() == w * h,
        w > 0,
        r < h,
    ensures
        r * w + w <= tiles.len(),
        rows_text(tiles.skip((r * w) as int), w) == row_chars(tiles.subrange((r * w) as int, (r * w + w) as int)).push('\n')
            + rows_text(tiles.skip((r * w + w) as int), w),
{
    assert(r * w + w <= w * h) by (nonlinear_arith)
        requires
            r < h,
            w > 0,
    ;
    let t = tiles.skip((r * w) as int);
    if t.len() == w {
        assert(t =~= tiles.subrange((r * w) as int, (r * w + w) as int));
        assert(tiles.skip((r * w + w) as int).len() == 0);
        assert(rows_text(tiles.skip((r * w + w) as int), w) == Seq::<char>::empty());
        assert(row_chars(t).push('\n') + Seq::<char>::empty() =~= row_chars(t).push('\n'));
    } else {
        assert(t.take(w as int) =~= tiles.subrange((r * w) as int, (r * w + w) as int));
        assert(t.skip(w as int) =~= tiles.skip((r * w + w) as int));
    }
}

proof fn lemma_utf8_len_prefix(s: Seq<char>, i: int)
    requires
        0 <= i <= s.len(),
    ensures
        utf8_len_seq(s.take(i)) <= utf8_len_seq(s),
    decreases s.len(),
{
    if i < s.len() {
        lemma_utf8_len_prefix(s.drop_last(), i);
        assert(s.drop_last().take(i) =~= s.take(i));
    } else {
        assert(s.take(i) =~= s);
    }
}

/// The mathematical model of a level: its size and its tiles row by row.
pub struct LevelView {
    pub width: nat,
    pub height: nat,
    pub tiles: Seq<Tile>,
}

impl LevelView {
    pub open spec fn wf(self) -> bool {
        &&& self.width > 0
        &&& self.height > 0
        &&& self.tiles.len() == self.width * self.height
        &&& self.tiles.len() <= usize::MAX
    }

    pub open spec fn index(self, x: int, y: int) -> int {
        x + y * self.width
    }

    pub open spec fn tile_at(self, x: int, y: int) -> Tile {
        self.tiles[self.index(x, y)]
    }

    pub open spec fn set(self, i: int, t: Tile) -> LevelView {
        LevelView { tiles: self.tiles.update(i, t), ..self }
    }
}

/// Positions inside the level have an index inside the tiles.
pub proof fn lemma_index_inside(x: int, y: int, width: int, height: int)
    requires
        0 <= x < width,
        0 <= y < height,
    ensures
        0 <= x + y * width < width * height,
{
    assert(0 <= y * width) by (nonlinear_arith)
        requires
            0 <= y,
            0 <= width,
    ;
    assert(y * width + width <= width * height) by (nonlinear_arith)
        requires
            y + 1 <= height,
            0 <= width,
    ;
}

#[derive(Debug, Clone)]
pub struct Level {
    width: usize,
    height: usize,
    tiles: Vec<Tile>,
}

impl View for Level {
    type V = LevelView;

    closed spec fn view(&self) -> LevelView {
        LevelView { width: self.width as nat, height: self.height as nat, tiles: self.tiles@ }
    }
}

impl Level {
    pub fn new(width: usize, height: usize) -> (res: Self)
        requires
            width > 0,
            height > 0,
            width * height <= usize::MAX,
        ensures
            res@.wf(),
            res@.width == width,
            res@.height == height,
            res@.tiles == Seq::new((width * height) as nat, |i: int| Tile::Empty),
    {
        let tiles = vec![Tile::Empty; width * height];
        let _n = tiles.len();
        let res = Level { width, height, tiles };
        assert(res@.tiles =~= Seq::new((width * height) as nat, |i: int| Tile::Empty));
        res
    }


    /// The level as text (see [`level_text`]).
    pub fn to_str(&self) -> (res: String)
        requires
            self@.wf(),
        ensures
            res@ == level_text(self@),
    {
        let w = self.width;
        let h = self.height;
        let mut out: Vec<char> = Vec::new();
        push_str(&mut out, "w: ");
        push_decimal(&mut out, w as u64);
        push_str(&mut out, ", h: ");
        push_decimal(&mut out, h as u64);
        out.push('\n');
        let ghost tiles = self.tiles@;
        assert(tiles.skip(0) =~= tiles);
        assert(out@ + rows_text(tiles.skip(0), w as nat) =~= level_text(self@));
        let mut r: usize = 0;
        while r < h
            invariant
                self@.wf(),
                w == self@.width,
                h == self@.height,
                tiles == self@.tiles,
                r <= h,
                out@ + rows_text(tiles.skip((r * w) as int), w as nat) == level_text(self@),
            decreases h - r,
        {
            proof {
                lemma_rows_text_step(tiles, w as nat, h as nat, r as nat);
            }
            let ghost base = out@;
            let start = r * w;
            let mut c: usize = 0;
            while c < w
                invariant
                    self@.wf(),
                    w == self@.width,
                    tiles == self@.tiles,
                    start == r * w,
                    start + w <= tiles.len(),
                    c <= w,
                    out@ == base + row_chars(tiles.subrange(start as int, start + c)),
                decreases w - c,
            {
                let t = self.tiles[start + c];
                out.push(t.to_ascii() as char);
                c += 1;
                assert(row_chars(tiles.subrange(start as int, start + c)) =~= row_chars(tiles.subrange(start as int, start + c - 1)).push(tile_char(t)));
                assert(out@ =~= base + row_chars(tiles.subrange(start as int, start + c)));
            }
            out.push('\n');
            assert((r + 1) * w == r * w + w) by (nonlinear_arith);
            r += 1;
            assert(out@ + rows_text(tiles.skip((r * w) as int), w as nat) =~= level_text(self@));
        }
        assert(h * w == tiles.len()) by (nonlinear_arith)
            requires
                tiles.len() == w * h,
        ;
        assert(out@ =~= level_text(self@));
        chars_to_string(&out)
    }

    fn invalid_level_error() -> (res: LevelLoadingError)
        ensures
            res@ == msg_level_invalid(),
    {
        LevelLoadingError::new(String::from_str("Level is invalid!"))
    }

    /// Reads the header line `w: <width>, h: <height>` (see [`header_dims`]).
    fn parse_header(first: &[char]) -> (res: Option<(usize, usize)>)
        ensures
            match res {
                Some((w, h)) => header_dims(first@) == Some((w as nat, h as nat)),
                None => header_dims(first@) is None,
            },
    {
        let prefix = vec!['w', ':', ' '];
        let sep = vec![',', ' ', 'h', ':', ' '];
        proof {
            reveal_strlit("w: ");
            reveal_strlit(", h: ");
            assert(prefix@ =~= "w: "@);
            assert(sep@ =~= ", h: "@);
        }
        if !chars_start_with(first, prefix.as_slice()) {
            return None;
        }
        let idx = match chars_find(first, sep.as_slice()) {
            Some(i) => i,
            None => {
                return None;
            },
        };
        assert(idx >= 3) by {
            if idx < 3 {
                assert(first@.subrange(idx as int, idx + 5)[0] == ',');
                assert(first@.take(3)[idx as int] == first@[idx as int]);
            }
        }
        proof {
            let c = choose|i: int| is_first_occurrence(first@, ", h: "@, i);
            assert(c == idx) by {
                if c < idx {
                    assert(!crate::text::occurs_at(first@, ", h: "@, c));
                } else if c > idx {
                    assert(!crate::text::occurs_at(first@, ", h: "@, idx as int));
                }
            }
        }
        let mut wstr: Vec<char> = Vec::new();
        let mut k: usize = 3;
        while k < idx
            invariant
                3 <= k <= idx,
                idx + 5 <= first@.len(),
                wstr@ == first@.subrange(3, k as int),
            decreases idx - k,
        {
            wstr.push(first[k]);
            k += 1;
            assert(wstr@ =~= first@.subrange(3, k as int));
        }
        let flen = first.len();
        assert(idx + 5 <= flen);
        let mut hstr: Vec<char> = Vec::new();
        let mut k: usize = idx + 5;
        while k < first.len()
            invariant
                idx + 5 <= k <= first@.len(),
                hstr@ == first@.subrange(idx + 5, k as int),
            decreases first@.len() - k,
        {
            hstr.push(first[k]);
            k += 1;
            assert(hstr@ =~= first@.subrange(idx + 5, k as int));
        }
        let height = parse_unsigned_chars(hstr.as_slice(), usize::MAX as u64);
        let width = parse_unsigned_chars(wstr.as_slice(), usize::MAX as u64);
        match (width, height) {
            (Some(w), Some(h)) => Some((w as usize, h as usize)),
            _ => None,
        }
    }

    /// Reads one trimmed row of `width` bytes.
    fn parse_row(row: &[char], width: usize) -> (res: Result<Vec<Tile>, LevelLoadingError>)
        ensures
            utf8_len_seq(row@) != width ==> (res matches Err(e) && e@ == msg_level_invalid()),
            utf8_len_seq(row@) == width ==> match res {
                Ok(ts) => {
                    &&& forall|i: int| 0 <= i < row@.len() ==> (#[trigger] tile_from_char(row@[i])) is Some
                    &&& ts@ == row@.map_values(|c: char| tile_from_char(c)->0)
                },
                Err(e) => {
                    &&& !(forall|i: int| 0 <= i < row@.len() ==> (#[trigger] tile_from_char(row@[i])) is Some)
                    &&& e@ == msg_invalid_tile()
                },
            },
    {
        // The length in bytes, counted up to the first byte past `width`
        let mut len: usize = 0;
        let mut i: usize = 0;
        while i < row.len()
            invariant
                i <= row@.len(),
                len == utf8_len_seq(row@.take(i as int)),
                len <= width,
            decreases row@.len() - i,
        {
            let v = row[i] as u32;
            let l: usize = if v < 0x80 {
                1
            } else if v < 0x800 {
                2
            } else if v < 0x10000 {
                3
            } else {
                4
            };
            assert(row@.take(i + 1).drop_last() =~= row@.take(i as int));
            if l > width - len {
                proof {
                    lemma_utf8_len_prefix(row@, i + 1);
                }
                return Err(Self::invalid_level_error());
            }
            len += l;
            i += 1;
        }
        assert(row@.take(row@.len() as int) =~= row@);
        if len != width {
            return Err(Self::invalid_level_error());
        }
        let mut tiles: Vec<Tile> = Vec::new();
        let mut i: usize = 0;
        while i < row.len()
            invariant
                i <= row@.len(),
                utf8_len_seq(row@) == width,
                forall|j: int| 0 <= j < i ==> (#[trigger] tile_from_char(row@[j])) is Some,
                tiles@ == row@.take(i as int).map_values(|c: char| tile_from_char(c)->0),
            decreases row@.len() - i,
        {
            let c = row[i];
            if (c as u32) >= 128 {
                assert(tile_from_char(row@[i as int]) is None);
                return Err(LevelLoadingError::new(String::from_str("Invalid tile")));
            }
            match Tile::from_ascii(c as u32 as u8) {
                Ok(t) => {
                    tiles.push(t);
                },
                Err(e) => {
                    assert(tile_from_char(row@[i as int]) is None);
                    return Err(e);
                },
            }
            i += 1;
            assert(tiles@ =~= row@.take(i as int).map_values(|c: char| tile_from_char(c)->0));
        }
        assert(row@.take(row@.len() as int) =~= row@);
        Ok(tiles)
    }

    /// Reads a level from text (see [`spec_parse_level`]).
    pub fn from_str(s: &str) -> (res: Result<Self, LevelLoadingError>)
        ensures
            match res {
                Ok(l) => l@.wf() && spec_parse_level(s@) == Ok::<LevelView, Seq<char>>(l@),
                Err(e) => spec_parse_level(s@) == Err::<LevelView, Seq<char>>(e@),
            },
    {
        let chars = str_chars(s);
        Self::from_chars(chars.as_slice())
    }

    /// Reads a level from the characters of a text (see [`spec_parse_level`]).
    pub fn from_chars(s: &[char]) -> (res: Result<Self, LevelLoadingError>)
        ensures
            match res {
                Ok(l) => l@.wf() && spec_parse_level(s@) == Ok::<LevelView, Seq<char>>(l@),
                Err(e) => spec_parse_level(s@) == Err::<LevelView, Seq<char>>(e@),
            },
    {
        let ls = split_lines(s);
        let ghost sl = lines(s@);
        if ls.len() == 0 {
            return Err(Self::invalid_level_error());
        }
        let first = trim_chars(ls[0].as_slice());
        let (width, height) = match Self::parse_header(first.as_slice()) {
            Some(d) => d,
            None => {
                return Err(Self::invalid_level_error());
            },
        };
        if width == 0 || height == 0 {
            return Err(Self::invalid_level_error());
        }
        let mut tiles: Vec<Tile> = Vec::new();
        let mut k: usize = 1;
        assert(sl.skip(1) =~= sl.drop_first());
        while k < ls.len()
            invariant
                1 <= k <= ls@.len(),
                ls@.len() == sl.len(),
                sl == lines(s@),
                header_dims(trim(sl[0])) == Some((width as nat, height as nat)),
                height > 0,
                forall|i: int| 0 <= i < ls@.len() ==> #[trigger] ls@[i]@ == sl[i],
                width > 0,
                parse_rows(sl.drop_first(), width as nat) == (match parse_rows(sl.skip(k as int), width as nat) {
                    Ok(rest) => Ok(tiles@ + rest),
                    Err(e) => Err(e),
                }),
            decreases ls@.len() - k,
        {
            let row = trim_chars(ls[k].as_slice());
            assert(sl.skip(k as int)[0] == sl[k as int]);
            assert(sl.skip(k as int).drop_first() =~= sl.skip(k + 1));
            match Self::parse_row(row.as_slice(), width) {
                Ok(row_tiles) => {
                    let ghost old_tiles = tiles@;
                    let mut j: usize = 0;
                    while j < row_tiles.len()
                        invariant
                            j <= row_tiles@.len(),
                            tiles@ == old_tiles + row_tiles@.take(j as int),
                        decreases row_tiles@.len() - j,
                    {
                        tiles.push(row_tiles[j]);
                        j += 1;
                        assert(tiles@ =~= old_tiles + row_tiles@.take(j as int));
                    }
                    assert(row_tiles@.take(row_tiles@.len() as int) =~= row_tiles@);
                    proof {
                        match parse_rows(sl.skip(k + 1), width as nat) {
                            Ok(rest) => {
                                assert(old_tiles + (row_tiles@ + rest) =~= tiles@ + rest);
                            },
                            Err(e) => {},
                        }
                    }
                },
                Err(e) => {
                    return Err(e);
                },
            }
            k += 1;
        }
        assert(sl.skip(k as int).len() == 0);
        assert(tiles@ + Seq::<Tile>::empty() =~= tiles@);
        let n = tiles.len();
        match width.checked_mul(height) {
            Some(total) => {
                if n != total {
                    return Err(Self::invalid_level_error());
                }
            },
            None => {
                return Err(Self::invalid_level_error());
            },
        }
        Ok(Level { width, height, tiles })
    }

    /// A copy of the level.
    pub fn duplicate(&self) -> (res: Self)
        ensures
            res@ == self@,
    {
        let mut tiles: Vec<Tile> = Vec::new();
        let mut i: usize = 0;
        while i < self.tiles.len()
            invariant
                i <= self.tiles@.len(),
                tiles@ == self.tiles@.take(i as int),
            decreases self.tiles@.len() - i,
        {
            tiles.push(self.tiles[i]);
            i += 1;
            assert(tiles@ =~= self.tiles@.take(i as int));
        }
        assert(tiles@ =~= self.tiles@);
        Level { width: self.width, height: self.height, tiles }
    }

    pub fn width(&self) -> (res: usize)
        ensures
            res == self@.width,
    {
        self.width
    }

    pub fn height(&self) -> (res: usize)
        ensures
            res == self@.height,
    {
        self.height
    }

    pub fn tiles(&self) -> (res: &[Tile])
        ensures
            res@ == self@.tiles,
    {
        self.tiles.as_slice()
    }

    /// Whether the level is well formed: it is not empty and its size matches its tiles.
    pub fn is_wf(&self) -> (res: bool)
        ensures
            res == self@.wf(),
    {
        if self.width == 0 || self.height == 0 {
            return false;
        }
        match self.width.checked_mul(self.height) {
            Some(n) => n == self.tiles.len(),
            None => false,
        }
    }

    /// How many player tiles the level has.
    pub fn player_count(&self) -> (res: usize)
        ensures
            res == player_count(self@.tiles),
    {
        let tiles = self.tiles.as_slice();
        let mut count: usize = 0;
        let mut k: usize = 0;
        while k < tiles.len()
            invariant
                tiles@ == self@.tiles,
                k <= tiles@.len(),
                count == player_count(tiles@.take(k as int)),
                count <= k,
            decreases tiles@.len() - k,
        {
            assert(tiles@.take(k + 1).drop_last() =~= tiles@.take(k as int));
            if matches!(tiles[k], Tile::Player | Tile::PlayerOnFragileFloor | Tile::PlayerOnIce) {
                count += 1;
            }
            k += 1;
        }
        assert(tiles@.take(tiles@.len() as int) =~= tiles@);
        count
    }

    /// The tile at column `x` and row `y`, or `None` where the index `x + y * width`
    /// is past the last tile.
    pub fn get_tile(&self, x: usize, y: usize) -> (res: Option<Tile>)
        requires
            x + y * self@.width <= usize::MAX,
        ensures
            res == (if self@.index(x as int, y as int) < self@.tiles.len() {
                Some(self@.tile_at(x as int, y as int))
            } else {
                None
            }),
    {
        let i = x + y * self.width;
        if i < self.tiles.len() {
            Some(self.tiles[i])
        } else {
            None
        }
    }

    /// Mutable access to the tile at column `x` and row `y`.
    pub fn get_tile_mut(&mut self, x: usize, y: usize) -> (res: Option<&mut Tile>)
        requires
            x + y * old(self)@.width <= usize::MAX,
        ensures
            final(self)@.width == old(self)@.width,
            final(self)@.height == old(self)@.height,
            match res {
                Some(t) => {
                    &&& old(self)@.index(x as int, y as int) < old(self)@.tiles.len()
                    &&& *t == old(self)@.tile_at(x as int, y as int)
                    &&& final(self)@.tiles == old(self)@.tiles.update(
                        old(self)@.index(x as int, y as int),
                        *final(t),
                    )
                },
                None => {
                    &&& old(self)@.index(x as int, y as int) >= old(self)@.tiles.len()
                    &&& final(self)@ == old(self)@
                },
            },
    {
        let i = x + y * self.width;
        if i < self.tiles.len() {
            Some(&mut self.tiles[i])
        } else {
            None
        }
    }

    /// Replaces the tile at column `x` and row `y`.
    pub fn set_tile(&mut self, x: usize, y: usize, tile: Tile)
        requires
            old(self)@.index(x as int, y as int) < old(self)@.tiles.len(),
        ensures
            final(self)@ == old(self)@.set(old(self)@.index(x as int, y as int), tile),
    {
        let n = self.tiles.len();
        assert(x + y * self.width < n);
        let i = x + y * self.width;
        self.tiles.set(i, tile);
    }
}

/// What a move started that is continued step by step: the player or a box or key
/// sliding over ice.
#[derive(Debug, Clone, Copy, PartialEq, Eq, Structural)]
pub enum AnimationState {
    Player { last_valid_move_result: MoveResult, direction: Direction },
    BoxOrKey { last_valid_move_result: MoveResult, x_from: usize, y_from: usize, direction: Direction },
}

pub open spec fn is_box_tile(t: Tile) -> bool {
    t == Tile::Box || t == Tile::BoxInGoal || t == Tile::BoxOnFragileFloor || t == Tile::BoxOnIce
}

pub open spec fn is_goal_tile(t: Tile) -> bool {
    t == Tile::Goal || t == Tile::BoxInGoal || t == Tile::KeyInGoal
}

pub open spec fn is_fragile_tile(t: Tile) -> bool {
    t == Tile::FragileFloor || t == Tile::PlayerOnFragileFloor || t == Tile::BoxOnFragileFloor
        || t == Tile::KeyOnFragileFloor
}

/// A box or key can be pushed onto floor, ice, goals and holes; a key also opens a locked door.
pub open spec fn box_or_key_can_enter(to: Tile, is_box: bool) -> bool {
    ||| to == Tile::Empty
    ||| to == Tile::FragileFloor
    ||| to == Tile::Ice
    ||| to == Tile::Goal
    ||| to == Tile::BoxInHole
    ||| to == Tile::Hole
    ||| !is_box && to == Tile::LockedDoor
}

/// The tile where a pushed box or key arrives: a key falling into a hole is lost, a box
/// fills it, and a key opening a door is used up.
pub open spec fn box_or_key_arrival(to: Tile, is_box: bool) -> Tile {
    if to == Tile::Goal {
        if is_box { Tile::BoxInGoal } else { Tile::KeyInGoal }
    } else if to == Tile::FragileFloor {
        if is_box { Tile::BoxOnFragileFloor } else { Tile::KeyOnFragileFloor }
    } else if to == Tile::Ice {
        if is_box { Tile::BoxOnIce } else { Tile::KeyOnIce }
    } else if to == Tile::Hole {
        if is_box { Tile::BoxInHole } else { Tile::Hole }
    } else if is_box {
        Tile::Box
    } else if to == Tile::LockedDoor {
        Tile::Empty
    } else {
        Tile::Key
    }
}

/// The tile left behind by a pushed box or key.
pub open spec fn box_or_key_departure(from: Tile) -> Tile {
    if from == Tile::Box || from == Tile::Key {
        Tile::Empty
    } else if from == Tile::BoxInHole {
        Tile::BoxInHole
    } else if from == Tile::BoxOnFragileFloor || from == Tile::KeyOnFragileFloor {
        Tile::FragileFloor
    } else if from == Tile::BoxOnIce || from == Tile::KeyOnIce {
        Tile::Ice
    } else {
        Tile::Goal
    }
}

pub open spec fn arrival_sound(t: Tile) -> Option<LevelSoundEffect> {
    if t == Tile::BoxInHole {
        Some(LevelSoundEffect::BoxFall)
    } else if t == Tile::Hole {
        Some(LevelSoundEffect::KeyFall)
    } else if t == Tile::Empty {
        Some(LevelSoundEffect::DoorUnlocked)
    } else {
        None
    }
}

/// A box pushed from `index_from` onto the goal at `index_to` wins the level when no other
/// goal is open or holds a key, and the player (at a `Player` tile or about to stand at
/// `index_from`) does not stand on a goal of the original level.
pub open spec fn all_goals_filled(original: Seq<Tile>, tiles: Seq<Tile>, index_from: int, index_to: int) -> bool {
    forall|i: int|
        0 <= i < tiles.len() && i != index_to ==> {
            &&& #[trigger] tiles[i] != Tile::Goal
            &&& tiles[i] != Tile::KeyInGoal
            &&& !((tiles[i] == Tile::Player || i == index_from) && is_goal_tile(original[i]))
        }
}

/// The outcome of one step: the level after it, its result, and the animation it starts
/// (`None` where it starts none).
pub struct Step {
    pub level: LevelView,
    pub result: MoveResult,
    pub animation: Option<AnimationState>,
}

/// Pushing the box or key at (`x_from`, `y_from`) one step in direction `d`.
pub open spec fn spec_move_box_or_key(original: LevelView, level: LevelView, x_from: int, y_from: int, d: Direction) -> Step {
    let x_to = spec_update_x(d, x_from, level.width as int);
    let y_to = spec_update_y(d, y_from, level.height as int);
    let i_from = level.index(x_from, y_from);
    let i_to = level.index(x_to, y_to);
    if !(0 <= i_from < level.tiles.len() && 0 <= i_to < level.tiles.len()) {
        Step { level, result: MoveResult::Invalid, animation: None }
    } else {
        let from = level.tiles[i_from];
        let to = level.tiles[i_to];
        let is_box = is_box_tile(from);
        if !box_or_key_can_enter(to, is_box) {
            Step { level, result: MoveResult::Invalid, animation: None }
        } else {
            let new_to = box_or_key_arrival(to, is_box);
            let has_won = is_box && to == Tile::Goal && all_goals_filled(original.tiles, level.tiles, i_from, i_to);
            let new_level = level.set(i_from, box_or_key_departure(from)).set(i_to, new_to);
            let valid = MoveResult::Valid { has_won, secret_found: false, sound_effect: arrival_sound(new_to) };
            if new_to == Tile::BoxOnIce || new_to == Tile::KeyOnIce {
                Step {
                    level: new_level,
                    result: MoveResult::Animation { player_animation: false, sound_effect: None },
                    animation: Some(AnimationState::BoxOrKey {
                        last_valid_move_result: valid,
                        x_from: x_to as usize,
                        y_from: y_to as usize,
                        direction: d,
                    }),
                }
            } else {
                Step { level: new_level, result: valid, animation: None }
            }
        }
    }
}

/// The tile the player leaves behind, from the tile of the original level and the player's
/// tile: fragile floor breaks into a hole the first time it is left.
pub open spec fn player_leave_tile(original: Tile, player: Tile) -> Tile {
    if original == Tile::Player || original == Tile::Box || original == Tile::Key || original == Tile::LockedDoor {
        Tile::Empty
    } else if original == Tile::BoxInGoal || original == Tile::KeyInGoal {
        Tile::Goal
    } else if original == Tile::Hole || original == Tile::BoxInHole {
        Tile::BoxInHole
    } else if is_fragile_tile(original) {
        if player == Tile::PlayerOnFragileFloor { Tile::Hole } else { Tile::BoxInHole }
    } else if original == Tile::Ice || original == Tile::PlayerOnIce || original == Tile::BoxOnIce || original == Tile::KeyOnIce {
        Tile::Ice
    } else {
        original
    }
}

/// The one-way door that can be entered moving in direction `d`.
pub open spec fn one_way_tile(d: Direction) -> Tile {
    match d {
        Direction::Left => Tile::OneWayLeft,
        Direction::Up => Tile::OneWayUp,
        Direction::Right => Tile::OneWayRight,
        Direction::Down => Tile::OneWayDown,
    }
}

pub open spec fn player_can_enter(t: Tile, d: Direction) -> bool {
    ||| t == Tile::Empty
    ||| t == Tile::FragileFloor
    ||| t == Tile::Ice
    ||| t == Tile::Goal
    ||| t == Tile::Secret
    ||| t == Tile::BoxInHole
    ||| t == one_way_tile(d)
}

pub open spec fn is_pushable(t: Tile) -> bool {
    is_box_tile(t) || t == Tile::Key || t == Tile::KeyInGoal || t == Tile::KeyOnFragileFloor || t == Tile::KeyOnIce
}

pub open spec fn floor_broken_sound(broken: bool) -> Option<LevelSoundEffect> {
    if broken { Some(LevelSoundEffect::FloorBroken) } else { None }
}

/// A valid push without a sound of its own sounds like breaking floor when the player broke it.
pub open spec fn with_floor_broken(r: MoveResult, broken: bool) -> MoveResult {
    match r {
        MoveResult::Valid { has_won, secret_found, sound_effect } => if broken && sound_effect is None {
            MoveResult::Valid { has_won, secret_found, sound_effect: Some(LevelSoundEffect::FloorBroken) }
        } else {
            r
        },
        _ => r,
    }
}

/// The outcome of a player step: the new level and position, the result, whether the step
/// was taken, and the animation it starts.
pub struct PlayerStep {
    pub level: LevelView,
    pub pos: (usize, usize),
    pub result: MoveResult,
    pub moved: bool,
    pub animation: Option<AnimationState>,
}

/// One step of the player at `pos` in direction `d`.
pub open spec fn spec_move_player(original: LevelView, level: LevelView, pos: (usize, usize), d: Direction) -> PlayerStep {
    let x_to = spec_update_x(d, pos.0 as int, level.width as int);
    let y_to = spec_update_y(d, pos.1 as int, level.height as int);
    let i_from = level.index(pos.0 as int, pos.1 as int);
    let i_to = level.index(x_to, y_to);
    let leave = player_leave_tile(original.tiles[i_from], level.tiles[i_from]);
    let left = level.set(i_from, leave);
    let broken = leave == Tile::Hole;
    let target = left.tiles[i_to];
    let inner = if player_can_enter(target, d) {
        Step {
            level: left,
            result: MoveResult::Valid { has_won: false, secret_found: target == Tile::Secret, sound_effect: floor_broken_sound(broken) },
            animation: None,
        }
    } else if is_pushable(target) {
        let s = spec_move_box_or_key(original, left, x_to, y_to, d);
        Step { level: s.level, result: with_floor_broken(s.result, broken), animation: s.animation }
    } else {
        Step { level: left, result: MoveResult::Invalid, animation: None }
    };
    if inner.result is Invalid {
        PlayerStep { level, pos, result: MoveResult::Invalid, moved: false, animation: None }
    } else {
        let player = if is_fragile_tile(inner.level.tiles[i_to]) { Tile::PlayerOnFragileFloor } else { Tile::Player };
        let new_level = inner.level.set(i_to, player);
        let new_pos = (x_to as usize, y_to as usize);
        if target == Tile::Ice {
            PlayerStep {
                level: new_level,
                pos: new_pos,
                result: MoveResult::Animation { player_animation: true, sound_effect: floor_broken_sound(broken) },
                moved: true,
                animation: Some(AnimationState::Player { last_valid_move_result: inner.result, direction: d }),
            }
        } else {
            PlayerStep { level: new_level, pos: new_pos, result: inner.result, moved: true, animation: inner.animation }
        }
    }
}

/// The mathematical model of a level being played: the level as loaded, the running
/// animation, and the history of (level, player position) states.
pub struct PlayingLevelModel {
    pub original: LevelView,
    pub animation: Option<AnimationState>,
    pub history: HistoryModel<(LevelView, (usize, usize))>,
}

pub open spec fn player_count(tiles: Seq<Tile>) -> nat
    decreases tiles.len(),
{
    if tiles.len() == 0 {
        0
    } else {
        player_count(tiles.drop_last()) + if is_player_tile(tiles.last()) { 1nat } else { 0nat }
    }
}

/// A state of a level being played: the size of the original level, the player inside the
/// level at a player tile, and no other player tile.
pub open spec fn state_ok(original: LevelView, state: (LevelView, (usize, usize))) -> bool {
    &&& state.0.width == original.width
    &&& state.0.height == original.height
    &&& state.0.tiles.len() == original.tiles.len()
    &&& state.1.0 < original.width
    &&& state.1.1 < original.height
    &&& is_player_tile(state.0.tile_at(state.1.0 as int, state.1.1 as int))
    &&& player_count(state.0.tiles) == 1
}

impl PlayingLevelModel {
    pub open spec fn current(self) -> (LevelView, (usize, usize)) {
        self.history.current()
    }

    pub open spec fn inv(self) -> bool {
        &&& self.original.wf()
        &&& self.history.inv()
        &&& forall|i: int| 0 <= i < self.history.entries.len() ==> state_ok(self.original, #[trigger] self.history.entries[i])
        &&& (self.animation matches Some(AnimationState::BoxOrKey { x_from, y_from, .. }) ==> {
            &&& x_from < self.original.width
            &&& y_from < self.original.height
            &&& (self.current().0.tile_at(x_from as int, y_from as int) == Tile::BoxOnIce
                || self.current().0.tile_at(x_from as int, y_from as int) == Tile::KeyOnIce)
        })
    }

    pub open spec fn with_animation(self, animation: Option<AnimationState>) -> PlayingLevelModel {
        PlayingLevelModel { animation, ..self }
    }

    /// Commits the state reached by a step and sets the animation the step started.
    pub open spec fn take_step(self, level: LevelView, pos: (usize, usize), animation: Option<AnimationState>) -> PlayingLevelModel {
        PlayingLevelModel {
            animation: if animation is Some { animation } else { self.animation },
            history: self.history.commit((level, pos)),
            ..self
        }
    }

    /// A player step from the current state; a step that is not taken changes nothing.
    pub open spec fn move_internal(self, d: Direction) -> (MoveResult, PlayingLevelModel) {
        let s = spec_move_player(self.original, self.current().0, self.current().1, d);
        if s.moved {
            (s.result, self.take_step(s.level, s.pos, s.animation))
        } else {
            (MoveResult::Invalid, self)
        }
    }

    /// Moving the player: refused while an animation runs.
    pub open spec fn move_player(self, d: Direction) -> (MoveResult, PlayingLevelModel) {
        if self.animation is Some {
            (MoveResult::Invalid, self)
        } else {
            self.move_internal(d)
        }
    }

    /// Merges the last two states of the history into one: the newest state replaces the
    /// one before it.
    pub open spec fn collapse(self) -> PlayingLevelModel {
        PlayingLevelModel { history: self.history.undo().undo().commit(self.history.current()), ..self }
    }

    /// The next step of the running animation.
    pub open spec fn continue_animation(self) -> (MoveResult, PlayingLevelModel) {
        match self.animation {
            None => (MoveResult::Invalid, self),
            Some(AnimationState::Player { last_valid_move_result, direction }) => {
                let (r, m) = self.move_internal(direction);
                if r is Invalid {
                    (last_valid_move_result, self.with_animation(None))
                } else {
                    let m2 = if r is Valid { m.with_animation(None) } else { m };
                    (r, m2.collapse())
                }
            },
            Some(AnimationState::BoxOrKey { last_valid_move_result, x_from, y_from, direction }) => {
                let s = spec_move_box_or_key(self.original, self.current().0, x_from as int, y_from as int, direction);
                if s.result is Invalid {
                    (last_valid_move_result, self.with_animation(None))
                } else {
                    let m = self.take_step(s.level, self.current().1, s.animation);
                    let m2 = if s.result is Valid { m.with_animation(None) } else { m };
                    (s.result, m2.collapse())
                }
            },
        }
    }

    /// Stops the running animation and returns to the state before the move that started it.
    pub open spec fn cancel_animation(self) -> PlayingLevelModel {
        let h1 = self.history.undo();
        PlayingLevelModel { animation: None, history: h1.undo().commit(h1.current()), ..self }
    }
}

proof fn lemma_player_count_update(s: Seq<Tile>, i: int, t: Tile)
    requires
        0 <= i < s.len(),
    ensures
        player_count(s.update(i, t)) == player_count(s) - (if is_player_tile(s[i]) { 1int } else { 0int })
            + (if is_player_tile(t) { 1int } else { 0int }),
    decreases s.len(),
{
    let u = s.update(i, t);
    if i == s.len() - 1 {
        assert(u.drop_last() =~= s.drop_last());
    } else {
        lemma_player_count_update(s.drop_last(), i, t);
        assert(u.drop_last() =~= s.drop_last().update(i, t));
    }
}

proof fn lemma_no_player(s: Seq<Tile>, j: int)
    requires
        player_count(s) == 0,
        0 <= j < s.len(),
    ensures
        !is_player_tile(s[j]),
    decreases s.len(),
{
    if j < s.len() - 1 {
        lemma_no_player(s.drop_last(), j);
    }
}

proof fn lemma_single_player(s: Seq<Tile>, k: int, j: int)
    requires
        player_count(s) == 1,
        0 <= k < s.len(),
        is_player_tile(s[k]),
        0 <= j < s.len(),
        j != k,
    ensures
        !is_player_tile(s[j]),
{
    lemma_player_count_update(s, k, Tile::Empty);
    lemma_no_player(s.update(k, Tile::Empty), j);
}

proof fn lemma_player_exists(s: Seq<Tile>)
    requires
        player_count(s) > 0,
    ensures
        exists|k: int| 0 <= k < s.len() && is_player_tile(s[k]),
    decreases s.len(),
{
    if is_player_tile(s.last()) {
        assert(is_player_tile(s[s.len() - 1]));
    } else {
        lemma_player_exists(s.drop_last());
        let k = choose|k: int| 0 <= k < s.drop_last().len() && is_player_tile(s.drop_last()[k]);
        assert(is_player_tile(s[k]));
    }
}

/// The position of the player in a level with a single player.
pub open spec fn player_position(l: LevelView) -> (usize, usize) {
    choose|p: (usize, usize)| p.0 < l.width && p.1 < l.height && is_player_tile(l.tile_at(p.0 as int, p.1 as int))
}

/// In a level with a single player, a position with a player tile is the position of the
/// player.
pub proof fn lemma_player_position(l: LevelView, p: (usize, usize))
    requires
        l.wf(),
        player_count(l.tiles) == 1,
        p.0 < l.width,
        p.1 < l.height,
        is_player_tile(l.tile_at(p.0 as int, p.1 as int)),
    ensures
        player_position(l) == p,
{
    let q = player_position(l);
    assert(q.0 < l.width && q.1 < l.height && is_player_tile(l.tile_at(q.0 as int, q.1 as int)));
    lemma_index_inside(p.0 as int, p.1 as int, l.width as int, l.height as int);
    lemma_index_inside(q.0 as int, q.1 as int, l.width as int, l.height as int);
    let ip = l.index(p.0 as int, p.1 as int);
    let iq = l.index(q.0 as int, q.1 as int);
    if ip != iq {
        lemma_single_player(l.tiles, ip, iq);
    }
    let w = l.width as int;
    let (px, py, qx, qy) = (p.0 as int, p.1 as int, q.0 as int, q.1 as int);
    assert(py == qy) by (nonlinear_arith)
        requires
            px + py * w == qx + qy * w,
            0 <= px < w,
            0 <= qx < w,
            0 <= py,
            0 <= qy,
    {
        if py < qy {
            assert(py * w + w <= qy * w);
        } else if qy < py {
            assert(qy * w + w <= py * w);
        }
    }
}

/// A level being played from its start, keeping `capacity` states for undo.
pub open spec fn started(l: LevelView, capacity: nat) -> PlayingLevelModel {
    PlayingLevelModel {
        original: l,
        animation: None,
        history: HistoryModel { entries: seq![(l, player_position(l))], index: 0, capacity },
    }
}

/// The width and the height of a level fit in a `usize`.
pub proof fn lemma_dims_bounded(l: LevelView)
    requires
        l.wf(),
    ensures
        l.width <= l.tiles.len() <= usize::MAX,
        l.height <= l.tiles.len(),
{
    assert(l.width <= l.width * l.height) by (nonlinear_arith)
        requires
            l.height >= 1,
    ;
    assert(l.height <= l.width * l.height) by (nonlinear_arith)
        requires
            l.width >= 1,
    ;
}

/// Every index of the tiles is the index of a position inside the level.
pub proof fn lemma_position_of_index(k: int, width: int, height: int)
    requires
        width > 0,
        0 <= k < width * height,
    ensures
        0 <= k % width < width,
        0 <= k / width < height,
        k % width + (k / width) * width == k,
{
    vstd::arithmetic::div_mod::lemma_fundamental_div_mod(k, width);
    assert(width * (k / width) == (k / width) * width) by (nonlinear_arith);
    assert(0 <= k / width) by (nonlinear_arith)
        requires
            width > 0,
            0 <= k,
    ;
    assert(k / width < height) by (nonlinear_arith)
        requires
            width > 0,
            0 <= k < width * height,
            k == width * (k / width) + k % width,
            0 <= k % width,
    ;
}

/// A push keeps the size of the level, changes no tile but the two it moves between,
/// and neither removes nor adds a player.
proof fn lemma_box_step(original: LevelView, level: LevelView, x_from: int, y_from: int, d: Direction)
    requires
        original.wf(),
        level.width == original.width,
        level.height == original.height,
        level.tiles.len() == original.tiles.len(),
        0 <= x_from < level.width,
        0 <= y_from < level.height,
        is_pushable(level.tile_at(x_from, y_from)),
    ensures
        ({
            let s = spec_move_box_or_key(original, level, x_from, y_from, d);
            let x_to = spec_update_x(d, x_from, level.width as int);
            let y_to = spec_update_y(d, y_from, level.height as int);
            let i_from = level.index(x_from, y_from);
            let i_to = level.index(x_to, y_to);
            &&& 0 <= i_from < level.tiles.len()
            &&& 0 <= i_to < level.tiles.len()
            &&& s.level.width == level.width
            &&& s.level.height == level.height
            &&& s.level.tiles.len() == level.tiles.len()
            &&& (s.result is Invalid ==> s.level == level && s.animation is None)
            &&& (!(s.result is Invalid) ==> {
                &&& i_from != i_to
                &&& !is_player_tile(level.tiles[i_to])
                &&& (!is_player_tile(level.tiles[i_from]) ==> player_count(s.level.tiles) == player_count(level.tiles))
                &&& forall|k: int| 0 <= k < level.tiles.len() && k != i_from && k != i_to ==> s.level.tiles[k] == level.tiles[k]
            })
            &&& (s.animation matches Some(AnimationState::BoxOrKey { x_from: xa, y_from: ya, .. }) ==> {
                &&& xa == x_to
                &&& ya == y_to
                &&& !(s.result is Invalid)
                &&& (s.level.tiles[i_to] == Tile::BoxOnIce || s.level.tiles[i_to] == Tile::KeyOnIce)
            })
            &&& !(s.animation matches Some(AnimationState::Player { .. }))
        }),
{
    let x_to = spec_update_x(d, x_from, level.width as int);
    let y_to = spec_update_y(d, y_from, level.height as int);
    lemma_dims_bounded(original);
    lemma_update_stays_inside(d, x_from, y_from, level.width as int, level.height as int);
    lemma_index_inside(x_from, y_from, level.width as int, level.height as int);
    lemma_index_inside(x_to, y_to, level.width as int, level.height as int);
    let i_from = level.index(x_from, y_from);
    let i_to = level.index(x_to, y_to);
    let s = spec_move_box_or_key(original, level, x_from, y_from, d);
    let from = level.tiles[i_from];
    let to = level.tiles[i_to];
    let is_box = is_box_tile(from);
    if box_or_key_can_enter(to, is_box) {
        let l1 = level.tiles.update(i_from, box_or_key_departure(from));
        lemma_player_count_update(level.tiles, i_from, box_or_key_departure(from));
        lemma_player_count_update(l1, i_to, box_or_key_arrival(to, is_box));
    }
}

/// A step of the player keeps every state a level being played can be in.
proof fn lemma_player_step(original: LevelView, state: (LevelView, (usize, usize)), d: Direction)
    requires
        original.wf(),
        state_ok(original, state),
    ensures
        ({
            let s = spec_move_player(original, state.0, state.1, d);
            &&& (s.moved ==> state_ok(original, (s.level, s.pos)))
            &&& (s.moved <==> !(s.result is Invalid))
            &&& (!s.moved ==> s.animation is None)
            &&& (s.result is Animation ==> s.animation is Some)
            &&& (s.animation matches Some(AnimationState::BoxOrKey { x_from, y_from, .. }) ==> {
                &&& x_from < original.width
                &&& y_from < original.height
                &&& (s.level.tile_at(x_from as int, y_from as int) == Tile::BoxOnIce
                    || s.level.tile_at(x_from as int, y_from as int) == Tile::KeyOnIce)
            })
        }),
{
    let level = state.0;
    let pos = state.1;
    let w = level.width as int;
    let h = level.height as int;
    let x_to = spec_update_x(d, pos.0 as int, w);
    let y_to = spec_update_y(d, pos.1 as int, h);
    lemma_update_stays_inside(d, pos.0 as int, pos.1 as int, w, h);
    lemma_index_inside(pos.0 as int, pos.1 as int, w, h);
    lemma_index_inside(x_to, y_to, w, h);
    let i_from = level.index(pos.0 as int, pos.1 as int);
    let i_to = level.index(x_to, y_to);
    let leave = player_leave_tile(original.tiles[i_from], level.tiles[i_from]);
    let left = level.set(i_from, leave);
    lemma_dims_bounded(original);
    lemma_player_count_update(level.tiles, i_from, leave);
    assert(!is_player_tile(leave));
    assert(player_count(left.tiles) == 0);
    let target = left.tiles[i_to];
    let s = spec_move_player(original, level, pos, d);
    if player_can_enter(target, d) {
        let player = if is_fragile_tile(left.tiles[i_to]) { Tile::PlayerOnFragileFloor } else { Tile::Player };
        lemma_no_player(left.tiles, i_to);
        lemma_player_count_update(left.tiles, i_to, player);
        assert(s.level == left.set(i_to, player));
        assert(s.pos == (x_to as usize, y_to as usize));
        assert(s.level.tile_at(s.pos.0 as int, s.pos.1 as int) == player);
        assert(player_count(s.level.tiles) == 1);
        assert(state_ok(original, (s.level, s.pos)));
    } else if is_pushable(target) {
        lemma_box_step(original, left, x_to, y_to, d);
        let bs = spec_move_box_or_key(original, left, x_to, y_to, d);
        if !(bs.result is Invalid) {
            let player = if is_fragile_tile(bs.level.tiles[i_to]) { Tile::PlayerOnFragileFloor } else { Tile::Player };
            assert(player_count(bs.level.tiles) == 0);
            lemma_no_player(bs.level.tiles, i_to);
            lemma_player_count_update(bs.level.tiles, i_to, player);
            assert(s.level == bs.level.set(i_to, player));
            assert(s.level.tile_at(s.pos.0 as int, s.pos.1 as int) == player);
            assert(player_count(s.level.tiles) == 1);
            assert(state_ok(original, (s.level, s.pos)));
            if let Some(AnimationState::BoxOrKey { x_from: xa, y_from: ya, .. }) = bs.animation {
                let bx = spec_update_x(d, x_to, w);
                let by = spec_update_y(d, y_to, h);
                lemma_update_stays_inside(d, x_to, y_to, w, h);
                assert(xa == bx && ya == by);
                assert(left.index(bx, by) != i_to);
                assert(s.level.tiles[left.index(bx, by)] == bs.level.tiles[left.index(bx, by)]);
            }
        }
    }
}

/// A push of the box or key an animation carries keeps the state valid.
proof fn lemma_animation_box_step(original: LevelView, state: (LevelView, (usize, usize)), x_from: usize, y_from: usize, d: Direction)
    requires
        original.wf(),
        state_ok(original, state),
        x_from < original.width,
        y_from < original.height,
        state.0.tile_at(x_from as int, y_from as int) == Tile::BoxOnIce || state.0.tile_at(x_from as int, y_from as int) == Tile::KeyOnIce,
    ensures
        ({
            let s = spec_move_box_or_key(original, state.0, x_from as int, y_from as int, d);
            &&& (!(s.result is Invalid) ==> state_ok(original, (s.level, state.1)))
            &&& (s.result is Animation ==> s.animation is Some)
            &&& (s.animation matches Some(AnimationState::BoxOrKey { x_from: xa, y_from: ya, .. }) ==> {
                &&& xa < original.width
                &&& ya < original.height
                &&& (s.level.tile_at(xa as int, ya as int) == Tile::BoxOnIce
                    || s.level.tile_at(xa as int, ya as int) == Tile::KeyOnIce)
            })
            &&& !(s.animation matches Some(AnimationState::Player { .. }))
        }),
{
    let level = state.0;
    let pos = state.1;
    lemma_box_step(original, level, x_from as int, y_from as int, d);
    lemma_update_stays_inside(d, x_from as int, y_from as int, level.width as int, level.height as int);
    lemma_index_inside(pos.0 as int, pos.1 as int, level.width as int, level.height as int);
    let s = spec_move_box_or_key(original, level, x_from as int, y_from as int, d);
    let i_p = level.index(pos.0 as int, pos.1 as int);
    let i_from = level.index(x_from as int, y_from as int);
    if !(s.result is Invalid) {
        assert(i_p != i_from);
        let x_to = spec_update_x(d, x_from as int, level.width as int);
        let y_to = spec_update_y(d, y_from as int, level.height as int);
        assert(i_p != level.index(x_to, y_to));
        assert(s.level.tiles[i_p] == level.tiles[i_p]);
    }
}

/// Taking a valid step keeps the invariant of a level being played.
proof fn lemma_take_step_inv(m: PlayingLevelModel, level: LevelView, pos: (usize, usize), animation: Option<AnimationState>)
    requires
        m.inv(),
        state_ok(m.original, (level, pos)),
        !(m.animation matches Some(AnimationState::BoxOrKey { .. })),
        animation matches Some(AnimationState::BoxOrKey { x_from, y_from, .. }) ==> {
            &&& x_from < m.original.width
            &&& y_from < m.original.height
            &&& (level.tile_at(x_from as int, y_from as int) == Tile::BoxOnIce
                || level.tile_at(x_from as int, y_from as int) == Tile::KeyOnIce)
        },
    ensures
        m.take_step(level, pos, animation).inv(),
        m.take_step(level, pos, animation).current() == (level, pos),
{
    let p = |e: (LevelView, (usize, usize))| state_ok(m.original, e);
    lemma_commit_keeps_property(m.history, (level, pos), p);
    lemma_commit_then_undo(m.history, (level, pos));
    let m2 = m.take_step(level, pos, animation);
    assert forall|i: int| 0 <= i < m2.history.entries.len() implies state_ok(m2.original, #[trigger] m2.history.entries[i]) by {
        assert(p(m2.history.entries[i]));
    }
}

/// Merging the last two states keeps the invariant and the current state.
proof fn lemma_collapse_inv(m: PlayingLevelModel)
    requires
        m.inv(),
    ensures
        m.collapse().inv(),
        m.collapse().current() == m.current(),
{
    let h = m.history.undo().undo();
    crate::collections::lemma_operations_keep_invariant(m.history, m.current());
    crate::collections::lemma_operations_keep_invariant(m.history.undo(), m.current());
    assert(h.entries == m.history.entries);
    let p = |e: (LevelView, (usize, usize))| state_ok(m.original, e);
    assert(p(m.current()));
    lemma_commit_keeps_property(h, m.current(), p);
    lemma_commit_then_undo(h, m.current());
    let c = m.collapse();
    assert forall|i: int| 0 <= i < c.history.entries.len() implies state_ok(c.original, #[trigger] c.history.entries[i]) by {
        assert(p(c.history.entries[i]));
    }
}

/// Stopping an animation keeps the invariant.
proof fn lemma_cancel_inv(m: PlayingLevelModel)
    requires
        m.inv(),
    ensures
        m.cancel_animation().inv(),
{
    let h1 = m.history.undo();
    crate::collections::lemma_operations_keep_invariant(m.history, m.current());
    crate::collections::lemma_operations_keep_invariant(h1, m.current());
    let h = h1.undo();
    let p = |e: (LevelView, (usize, usize))| state_ok(m.original, e);
    assert(p(h1.current()));
    lemma_commit_keeps_property(h, h1.current(), p);
    crate::collections::lemma_operations_keep_invariant(h, h1.current());
    let c = m.cancel_animation();
    assert forall|i: int| 0 <= i < c.history.entries.len() implies state_ok(c.original, #[trigger] c.history.entries[i]) by {
        assert(p(c.history.entries[i]));
    }
}

/// Moving the player: a refused move changes nothing; any move keeps every state a state of
/// the level with its size and exactly one player; and, with room for two states in the
/// history, undoing an accepted move brings back the state before it.
pub proof fn lemma_move_player_laws(m: PlayingLevelModel, d: Direction)
    requires
        m.inv(),
    ensures
        m.move_player(d).0 is Invalid ==> m.move_player(d).1 == m,
        m.move_player(d).1.inv(),
        m.move_player(d).1.original == m.original,
        !(m.move_player(d).0 is Invalid) && m.history.capacity >= 2 ==> m.move_player(d).1.history.undo().current()
            == m.current(),
{
    if m.animation is None {
        assert(state_ok(m.original, m.history.entries[m.history.index as int]));
        lemma_player_step(m.original, m.current(), d);
        let s = spec_move_player(m.original, m.current().0, m.current().1, d);
        if s.moved {
            lemma_take_step_inv(m, s.level, s.pos, s.animation);
            lemma_commit_then_undo(m.history, (s.level, s.pos));
        }
    }
}

/// Pushing a box into a hole fills the hole: the box stays in it and is heard falling.
/// Pushing a key into a hole loses the key: the hole stays open and the key is heard
/// falling. Either push is a valid move that completes nothing and starts no animation, and
/// no other tile but the one the box or key left changes.
pub proof fn lemma_push_into_hole(original: LevelView, level: LevelView, x_from: int, y_from: int, d: Direction)
    requires
        level.wf(),
        0 <= x_from < level.width,
        0 <= y_from < level.height,
        is_pushable(level.tile_at(x_from, y_from)),
        level.tile_at(spec_update_x(d, x_from, level.width as int), spec_update_y(d, y_from, level.height as int))
            == Tile::Hole,
    ensures
        ({
            let x_to = spec_update_x(d, x_from, level.width as int);
            let y_to = spec_update_y(d, y_from, level.height as int);
            let s = spec_move_box_or_key(original, level, x_from, y_from, d);
            let is_box = is_box_tile(level.tile_at(x_from, y_from));
            &&& s.animation is None
            &&& s.level.width == level.width
            &&& s.level.height == level.height
            &&& s.level.tiles.len() == level.tiles.len()
            &&& is_box ==> s.level.tile_at(x_to, y_to) == Tile::BoxInHole
            &&& is_box ==> s.result == (MoveResult::Valid {
                has_won: false,
                secret_found: false,
                sound_effect: Some(LevelSoundEffect::BoxFall),
            })
            &&& !is_box ==> s.level.tile_at(x_to, y_to) == Tile::Hole
            &&& !is_box ==> s.result == (MoveResult::Valid {
                has_won: false,
                secret_found: false,
                sound_effect: Some(LevelSoundEffect::KeyFall),
            })
            &&& forall|i: int|
                0 <= i < level.tiles.len() && i != level.index(x_from, y_from) && i != level.index(x_to, y_to)
                    ==> #[trigger] s.level.tiles[i] == level.tiles[i]
        }),
{
    let x_to = spec_update_x(d, x_from, level.width as int);
    let y_to = spec_update_y(d, y_from, level.height as int);
    lemma_update_stays_inside(d, x_from, y_from, level.width as int, level.height as int);
    lemma_index_inside(x_from, y_from, level.width as int, level.height as int);
    lemma_index_inside(x_to, y_to, level.width as int, level.height as int);
}

/// A push completes the level only when a box arrives on an open goal and, after the push,
/// no goal is left open or holding a key anywhere but on the tile the box came from (where
/// the pushing player steps next).
pub proof fn lemma_push_wins_only_when_goals_filled(
    original: LevelView,
    level: LevelView,
    x_from: int,
    y_from: int,
    d: Direction,
)
    requires
        level.wf(),
        0 <= x_from < level.width,
        0 <= y_from < level.height,
    ensures
        ({
            let x_to = spec_update_x(d, x_from, level.width as int);
            let y_to = spec_update_y(d, y_from, level.height as int);
            let s = spec_move_box_or_key(original, level, x_from, y_from, d);
            s.result matches MoveResult::Valid { has_won, .. } && has_won ==> {
                &&& is_box_tile(level.tile_at(x_from, y_from))
                &&& level.tile_at(x_to, y_to) == Tile::Goal
                &&& s.level.tile_at(x_to, y_to) == Tile::BoxInGoal
                &&& s.level.tiles.len() == level.tiles.len()
                &&& forall|i: int|
                    0 <= i < s.level.tiles.len() && i != level.index(x_from, y_from) ==> {
                        &&& #[trigger] s.level.tiles[i] != Tile::Goal
                        &&& s.level.tiles[i] != Tile::KeyInGoal
                    }
            }
        }),
{
    let x_to = spec_update_x(d, x_from, level.width as int);
    let y_to = spec_update_y(d, y_from, level.height as int);
    lemma_update_stays_inside(d, x_from, y_from, level.width as int, level.height as int);
    lemma_index_inside(x_from, y_from, level.width as int, level.height as int);
    lemma_index_inside(x_to, y_to, level.width as int, level.height as int);
    let s = spec_move_box_or_key(original, level, x_from, y_from, d);
    let i_from = level.index(x_from, y_from);
    let i_to = level.index(x_to, y_to);
    if s.result matches MoveResult::Valid { has_won, .. } && has_won {
        assert(i_from != i_to);
        assert forall|i: int| 0 <= i < s.level.tiles.len() && i != i_from implies {
            &&& #[trigger] s.level.tiles[i] != Tile::Goal
            &&& s.level.tiles[i] != Tile::KeyInGoal
        } by {
            if i != i_to {
                assert(s.level.tiles[i] == level.tiles[i]);
            }
        }
    }
}

/// A move of the player completes the level only when, after it, no goal of the level is
/// left open or holding a key: every goal holds a box.
pub proof fn lemma_move_wins_only_when_goals_filled(m: PlayingLevelModel, d: Direction)
    requires
        m.inv(),
    ensures
        m.move_player(d).0 matches MoveResult::Valid { has_won, .. } && has_won ==> forall|i: int|
            0 <= i < m.move_player(d).1.current().0.tiles.len() ==> {
                &&& #[trigger] m.move_player(d).1.current().0.tiles[i] != Tile::Goal
                &&& m.move_player(d).1.current().0.tiles[i] != Tile::KeyInGoal
            },
{
    if m.animation is None {
        let level = m.current().0;
        let pos = m.current().1;
        assert(state_ok(m.original, m.history.entries[m.history.index as int]));
        let s = spec_move_player(m.original, level, pos, d);
        if s.moved && (s.result matches MoveResult::Valid { has_won, .. } && has_won) {
            let x_to = spec_update_x(d, pos.0 as int, level.width as int);
            let y_to = spec_update_y(d, pos.1 as int, level.height as int);
            lemma_update_stays_inside(d, pos.0 as int, pos.1 as int, level.width as int, level.height as int);
            lemma_index_inside(pos.0 as int, pos.1 as int, level.width as int, level.height as int);
            lemma_index_inside(x_to, y_to, level.width as int, level.height as int);
            let i_from = level.index(pos.0 as int, pos.1 as int);
            let i_to = level.index(x_to, y_to);
            let leave = player_leave_tile(m.original.tiles[i_from], level.tiles[i_from]);
            let left = level.set(i_from, leave);
            let target = left.tiles[i_to];
            assert(!player_can_enter(target, d));
            assert(is_pushable(target));
            assert(left.wf());
            lemma_push_wins_only_when_goals_filled(m.original, left, x_to, y_to, d);
            let push = spec_move_box_or_key(m.original, left, x_to, y_to, d);
            lemma_commit_then_undo(m.history, (s.level, s.pos));
            assert(m.move_player(d).1.current() == (s.level, s.pos));
            assert(s.level == push.level.set(i_to, if is_fragile_tile(push.level.tiles[i_to]) {
                Tile::PlayerOnFragileFloor
            } else {
                Tile::Player
            }));
            assert forall|i: int| 0 <= i < s.level.tiles.len() implies {
                &&& #[trigger] s.level.tiles[i] != Tile::Goal
                &&& s.level.tiles[i] != Tile::KeyInGoal
            } by {
                if i != i_to {
                    assert(s.level.tiles[i] == push.level.tiles[i]);
                }
            }
        }
    }
}

/// The states of a level being played, with each level taken by its model.
pub open spec fn history_view(h: HistoryModel<(Level, (usize, usize))>) -> HistoryModel<(LevelView, (usize, usize))> {
    HistoryModel {
        entries: h.entries.map_values(|e: (Level, (usize, usize))| (e.0@, e.1)),
        index: h.index,
        capacity: h.capacity,
    }
}

proof fn lemma_history_view_commit(h: HistoryModel<(Level, (usize, usize))>, v: (Level, (usize, usize)))
    requires
        h.inv(),
    ensures
        history_view(h.commit(v)) == history_view(h).commit((v.0@, v.1)),
        history_view(h.undo()) == history_view(h).undo(),
        history_view(h.redo()) == history_view(h).redo(),
        history_view(h).inv(),
        history_view(h).current() == (h.current().0@, h.current().1),
{
    let kept = h.entries.take(h.index + 1 as int);
    let hv = history_view(h);
    let kept_v = hv.entries.take(hv.index + 1 as int);
    assert(kept.map_values(|e: (Level, (usize, usize))| (e.0@, e.1)) =~= kept_v);
    if kept.len() == h.capacity {
        assert(kept.drop_first().push(v).map_values(|e: (Level, (usize, usize))| (e.0@, e.1)) =~= kept_v.drop_first().push((v.0@, v.1)));
    } else {
        assert(kept.push(v).map_values(|e: (Level, (usize, usize))| (e.0@, e.1)) =~= kept_v.push((v.0@, v.1)));
    }
    assert(history_view(h.commit(v)).entries =~= history_view(h).commit((v.0@, v.1)).entries);
}

/// A level being played, with undo and redo.
#[derive(Debug)]
pub struct PlayingLevel {
    original_level: Level,
    animation_state: Option<AnimationState>,
    playing_level: UndoHistory<(Level, (usize, usize))>,
}

impl View for PlayingLevel {
    type V = PlayingLevelModel;

    closed spec fn view(&self) -> PlayingLevelModel {
        PlayingLevelModel {
            original: self.original_level@,
            animation: self.animation_state,
            history: history_view(self.playing_level@),
        }
    }
}

impl PlayingLevel {
    pub open spec fn wf(&self) -> bool {
        self@.inv()
    }

    proof fn lemma_wf(&self)
        requires
            self.wf(),
        ensures
            self.playing_level.wf(),
            history_view(self.playing_level@).current() == (self.playing_level@.current().0@, self.playing_level@.current().1),
    {
        assert(self.playing_level@.entries.len() == history_view(self.playing_level@).entries.len());
        let h = self.playing_level@;
        assert(history_view(h).entries[h.index as int] == (h.entries[h.index as int].0@, h.entries[h.index as int].1));
    }

    /// The position of a player tile: columns are searched from the left, each from the top.
    fn find_player(level: &Level) -> (res: (usize, usize))
        requires
            level@.wf(),
            player_count(level@.tiles) > 0,
        ensures
            res.0 < level@.width,
            res.1 < level@.height,
            is_player_tile(level@.tile_at(res.0 as int, res.1 as int)),
    {
        let width = level.width();
        let height = level.height();
        let n = level.tiles().len();
        let mut i: usize = 0;
        while i < width
            invariant
                width == level@.width,
                height == level@.height,
                n == level@.tiles.len(),
                level@.wf(),
                i <= width,
                forall|a: int, b: int| 0 <= a < i && 0 <= b < height ==> !is_player_tile(#[trigger] level@.tile_at(a, b)),
            decreases width - i,
        {
            let mut j: usize = 0;
            while j < height
                invariant
                    width == level@.width,
                    height == level@.height,
                    n == level@.tiles.len(),
                    level@.wf(),
                    i < width,
                    j <= height,
                    forall|a: int, b: int| 0 <= a < i && 0 <= b < height ==> !is_player_tile(#[trigger] level@.tile_at(a, b)),
                    forall|b: int| 0 <= b < j ==> !is_player_tile(#[trigger] level@.tile_at(i as int, b)),
                decreases height - j,
            {
                proof {
                    lemma_index_inside(i as int, j as int, width as int, height as int);
                }
                let tile = level.get_tile(i, j);
                if let Some(t) = tile {
                    if matches!(t, Tile::Player | Tile::PlayerOnFragileFloor | Tile::PlayerOnIce) {
                        return (i, j);
                    }
                }
                j += 1;
            }
            i += 1;
        }
        proof {
            lemma_player_exists(level@.tiles);
            let k = choose|k: int| 0 <= k < level@.tiles.len() && is_player_tile(level@.tiles[k]);
            lemma_position_of_index(k, width as int, height as int);
            assert(is_player_tile(level@.tile_at(k % (width as int), k / (width as int))));
        }
        (0, 0)
    }


    /// Whether a box pushed from `index_from` onto the goal at `index_to` completes the level.
    fn all_goals_filled_exec(original: &Level, level: &Level, index_from: usize, index_to: usize) -> (res: bool)
        requires
            original@.tiles.len() == level@.tiles.len(),
        ensures
            res == all_goals_filled(original@.tiles, level@.tiles, index_from as int, index_to as int),
    {
        let n = level.tiles.len();
        let mut index: usize = 0;
        while index < n
            invariant
                n == level@.tiles.len(),
                original@.tiles.len() == n,
                index <= n,
                forall|i: int|
                    0 <= i < index && i != index_to ==> {
                        &&& #[trigger] level@.tiles[i] != Tile::Goal
                        &&& level@.tiles[i] != Tile::KeyInGoal
                        &&& !((level@.tiles[i] == Tile::Player || i == index_from) && is_goal_tile(original@.tiles[i]))
                    },
            decreases n - index,
        {
            if index != index_to {
                let tile = level.tiles[index];
                if tile == Tile::Goal || tile == Tile::KeyInGoal {
                    return false;
                }
                let tile_original = original.tiles[index];
                if (tile == Tile::Player || index == index_from) && matches!(tile_original, Tile::Goal | Tile::BoxInGoal | Tile::KeyInGoal) {
                    return false;
                }
            }
            index += 1;
        }
        true
    }

    /// Pushes the box or key at (`x_from`, `y_from`) one step; a push onto ice starts an
    /// animation that carries it on.
    fn move_box_or_key(&mut self, level: &mut Level, x_from: usize, y_from: usize, direction: Direction) -> (res: MoveResult)
        requires
            old(self).original_level@.wf(),
            old(level)@.width == old(self).original_level@.width,
            old(level)@.height == old(self).original_level@.height,
            old(level)@.tiles.len() == old(self).original_level@.tiles.len(),
            x_from < old(level)@.width,
            y_from < old(level)@.height,
        ensures
            ({
                let s = spec_move_box_or_key(old(self).original_level@, old(level)@, x_from as int, y_from as int, direction);
                &&& final(level)@ == s.level
                &&& res == s.result
                &&& final(self).animation_state == (if s.animation is Some { s.animation } else { old(self).animation_state })
            }),
            final(self).original_level == old(self).original_level,
            final(self).playing_level == old(self).playing_level,
    {
        let width = level.width;
        let height = level.height;
        proof {
            lemma_dims_bounded(self.original_level@);
            lemma_index_inside(x_from as int, y_from as int, width as int, height as int);
        }
        let (x_to, y_to) = direction.update_xy(x_from, y_from, width, height);
        proof {
            lemma_update_stays_inside(direction, x_from as int, y_from as int, width as int, height as int);
            lemma_index_inside(x_to as int, y_to as int, width as int, height as int);
        }
        let index_from = x_from + y_from * width;
        let index_to = x_to + y_to * width;
        let tile_from = level.tiles[index_from];
        let tile_to = level.tiles[index_to];
        let is_box = matches!(tile_from, Tile::Box | Tile::BoxInGoal | Tile::BoxOnFragileFloor | Tile::BoxOnIce);
        if matches!(tile_to, Tile::Empty | Tile::FragileFloor | Tile::Ice | Tile::Goal | Tile::BoxInHole | Tile::Hole)
            || (!is_box && tile_to == Tile::LockedDoor) {
            let mut has_won = false;
            let tile_to_new_value;
            if is_box && tile_to == Tile::Goal {
                tile_to_new_value = Tile::BoxInGoal;
                has_won = Self::all_goals_filled_exec(&self.original_level, level, index_from, index_to);
            } else if !is_box && tile_to == Tile::Goal {
                tile_to_new_value = Tile::KeyInGoal;
            } else if tile_to == Tile::FragileFloor {
                tile_to_new_value = if is_box { Tile::BoxOnFragileFloor } else { Tile::KeyOnFragileFloor };
            } else if tile_to == Tile::Ice {
                tile_to_new_value = if is_box { Tile::BoxOnIce } else { Tile::KeyOnIce };
            } else if tile_to == Tile::Hole {
                // A key is lost in a hole; only boxes fill holes
                tile_to_new_value = if is_box { Tile::BoxInHole } else { Tile::Hole };
            } else if is_box {
                tile_to_new_value = Tile::Box;
            } else if tile_to == Tile::LockedDoor {
                // The key opens the door and is used up
                tile_to_new_value = Tile::Empty;
            } else {
                tile_to_new_value = Tile::Key;
            }
            let tile_from_new_value = if tile_from == Tile::Box || tile_from == Tile::Key {
                Tile::Empty
            } else if tile_from == Tile::BoxInHole {
                Tile::BoxInHole
            } else if tile_from == Tile::BoxOnFragileFloor || tile_from == Tile::KeyOnFragileFloor {
                Tile::FragileFloor
            } else if tile_from == Tile::BoxOnIce || tile_from == Tile::KeyOnIce {
                Tile::Ice
            } else {
                Tile::Goal
            };
            level.tiles.set(index_from, tile_from_new_value);
            level.tiles.set(index_to, tile_to_new_value);
            let sound_effect = match tile_to_new_value {
                Tile::BoxInHole => Some(LevelSoundEffect::BoxFall),
                Tile::Hole => Some(LevelSoundEffect::KeyFall),
                Tile::Empty => Some(LevelSoundEffect::DoorUnlocked),
                _ => None,
            };
            let move_result = MoveResult::Valid { has_won, secret_found: false, sound_effect };
            // On ice the box or key slides on
            if matches!(tile_to_new_value, Tile::BoxOnIce | Tile::KeyOnIce) {
                self.animation_state = Some(AnimationState::BoxOrKey {
                    last_valid_move_result: move_result,
                    x_from: x_to,
                    y_from: y_to,
                    direction,
                });
                return MoveResult::Animation { player_animation: false, sound_effect: None };
            }
            return move_result;
        }
        MoveResult::Invalid
    }


    fn leave_tile(original: Tile, player: Tile) -> (res: Tile)
        ensures
            res == player_leave_tile(original, player),
    {
        if matches!(original, Tile::Player | Tile::Box | Tile::Key | Tile::LockedDoor) {
            Tile::Empty
        } else if matches!(original, Tile::BoxInGoal | Tile::KeyInGoal) {
            Tile::Goal
        } else if matches!(original, Tile::Hole | Tile::BoxInHole) {
            Tile::BoxInHole
        } else if matches!(original, Tile::FragileFloor | Tile::PlayerOnFragileFloor | Tile::BoxOnFragileFloor | Tile::KeyOnFragileFloor) {
            // Fragile floor breaks the first time the player leaves it; a hole left from it
            // must already have been filled with a box
            if player == Tile::PlayerOnFragileFloor { Tile::Hole } else { Tile::BoxInHole }
        } else if matches!(original, Tile::Ice | Tile::PlayerOnIce | Tile::BoxOnIce | Tile::KeyOnIce) {
            Tile::Ice
        } else {
            original
        }
    }

    /// The current state is a valid state of this level.
    proof fn lemma_current_ok(&self)
        requires
            self.wf(),
        ensures
            state_ok(self@.original, self@.current()),
            self.playing_level.wf(),
            self@.current() == (self.playing_level@.current().0@, self.playing_level@.current().1),
    {
        self.lemma_wf();
        let h = self@.history;
        assert(state_ok(self@.original, h.entries[h.index as int]));
    }

    #[verifier::spinoff_prover]
    #[verifier::rlimit(60)]
    fn move_player_internal(&mut self, direction: Direction) -> (res: MoveResult)
        requires
            old(self).wf(),
            !(old(self)@.animation matches Some(AnimationState::BoxOrKey { .. })),
        ensures
            final(self).wf(),
            (res, final(self)@) == old(self)@.move_internal(direction),
    {
        proof {
            self.lemma_current_ok();
        }
        let ghost old_model = self@;
        let ghost state = self@.current();
        let cur = self.playing_level.current();
        let mut level = cur.0.duplicate();
        let mut player_pos = cur.1;
        let (x_from, y_from) = player_pos;
        let width = level.width;
        let height = level.height;
        proof {
            lemma_dims_bounded(self.original_level@);
            lemma_index_inside(x_from as int, y_from as int, width as int, height as int);
            lemma_player_step(self@.original, state, direction);
        }
        let ghost step = spec_move_player(self@.original, state.0, state.1, direction);
        let (x_to, y_to) = direction.update_xy(x_from, y_from, width, height);
        proof {
            lemma_update_stays_inside(direction, x_from as int, y_from as int, width as int, height as int);
            lemma_index_inside(x_to as int, y_to as int, width as int, height as int);
        }
        let index_from = x_from + y_from * width;
        let index_to = x_to + y_to * width;
        let one_way_door_tile = match direction {
            Direction::Left => Tile::OneWayLeft,
            Direction::Up => Tile::OneWayUp,
            Direction::Right => Tile::OneWayRight,
            Direction::Down => Tile::OneWayDown,
        };
        // The player's old position shows the floor of the original level again
        let tile = Self::leave_tile(self.original_level.tiles[index_from], level.tiles[index_from]);
        level.set_tile(x_from, y_from, tile);
        let ghost left = level@;
        assert(left == state.0.set(index_from as int, player_leave_tile(self@.original.tiles[index_from as int], state.0.tiles[index_from as int])));
        let was_floor_broken = tile == Tile::Hole;
        let tile = level.tiles[index_to];
        assert(tile == left.tiles[index_to as int]);
        let move_result = if matches!(tile, Tile::Empty | Tile::FragileFloor | Tile::Ice | Tile::Goal | Tile::Secret | Tile::BoxInHole)
            || tile == one_way_door_tile {
            MoveResult::Valid {
                has_won: false,
                secret_found: tile == Tile::Secret,
                sound_effect: if was_floor_broken { Some(LevelSoundEffect::FloorBroken) } else { None },
            }
        } else if matches!(tile, Tile::Box | Tile::BoxInGoal | Tile::BoxOnFragileFloor | Tile::BoxOnIce | Tile::Key | Tile::KeyInGoal | Tile::KeyOnFragileFloor | Tile::KeyOnIce) {
            let move_result = self.move_box_or_key(&mut level, x_to, y_to, direction);
            match move_result {
                MoveResult::Valid { has_won, secret_found, sound_effect } => if was_floor_broken && sound_effect.is_none() {
                    MoveResult::Valid { has_won, secret_found, sound_effect: Some(LevelSoundEffect::FloorBroken) }
                } else {
                    move_result
                },
                _ => move_result,
            }
        } else {
            MoveResult::Invalid
        };
        if move_result.is_valid() || move_result.is_animation() {
            player_pos = (x_to, y_to);
            // The player stands on fragile floor or on anything else
            if matches!(level.tiles[index_to], Tile::FragileFloor | Tile::PlayerOnFragileFloor | Tile::BoxOnFragileFloor | Tile::KeyOnFragileFloor) {
                level.set_tile(x_to, y_to, Tile::PlayerOnFragileFloor);
            } else {
                level.set_tile(x_to, y_to, Tile::Player);
            }
            assert(level@ == step.level);
            assert(player_pos == step.pos);
            proof {
                lemma_history_view_commit(self.playing_level@, (level, player_pos));
                lemma_take_step_inv(old_model, step.level, step.pos, step.animation);
            }
            self.playing_level.commit_change((level, player_pos));
            // On ice the player slides on
            if tile == Tile::Ice {
                self.animation_state = Some(AnimationState::Player { last_valid_move_result: move_result, direction });
                return MoveResult::Animation {
                    player_animation: true,
                    sound_effect: if was_floor_broken { Some(LevelSoundEffect::FloorBroken) } else { None },
                };
            }
        }
        move_result
    }


    pub fn is_playing_animation(&self) -> (res: bool)
        ensures
            res == self@.animation is Some,
    {
        self.animation_state.is_some()
    }

    /// Moves the player one step; refused while an animation runs.
    pub fn move_player(&mut self, direction: Direction) -> (res: MoveResult)
        requires
            old(self).wf(),
        ensures
            final(self).wf(),
            (res, final(self)@) == old(self)@.move_player(direction),
    {
        if self.is_playing_animation() {
            return MoveResult::Invalid;
        }
        self.move_player_internal(direction)
    }

    /// Copies the current state and merges it with the state before it.
    fn collapse_last_step(&mut self)
        requires
            old(self).wf(),
        ensures
            final(self).wf(),
            final(self)@ == old(self)@.collapse(),
    {
        proof {
            self.lemma_current_ok();
            lemma_collapse_inv(self@);
        }
        let cur = self.playing_level.current();
        let current_playing_level = (cur.0.duplicate(), cur.1);
        let ghost h0 = self.playing_level@;
        proof {
            lemma_history_view_commit(h0, current_playing_level);
            crate::collections::lemma_operations_keep_invariant(h0, current_playing_level);
        }
        let _ = self.playing_level.undo();
        let ghost h1 = self.playing_level@;
        proof {
            lemma_history_view_commit(h1, current_playing_level);
            crate::collections::lemma_operations_keep_invariant(h1, current_playing_level);
        }
        let _ = self.playing_level.undo();
        let ghost h2 = self.playing_level@;
        proof {
            lemma_history_view_commit(h2, current_playing_level);
        }
        self.playing_level.commit_change(current_playing_level);
    }

    /// Carries the running animation one step further.
    #[verifier::spinoff_prover]
    #[verifier::rlimit(40)]
    pub fn continue_animation(&mut self) -> (res: MoveResult)
        requires
            old(self).wf(),
        ensures
            final(self).wf(),
            (res, final(self)@) == old(self)@.continue_animation(),
    {
        let ghost m0 = self@;
        let animation_state = match self.animation_state {
            None => {
                return MoveResult::Invalid;
            },
            Some(a) => a,
        };
        let move_result = match animation_state {
            AnimationState::Player { last_valid_move_result, direction } => {
                let move_result = self.move_player_internal(direction);
                if move_result.is_invalid() {
                    // The animation is over and the level did not change
                    self.animation_state = None;
                    return last_valid_move_result;
                }
                if move_result.is_valid() {
                    self.animation_state = None;
                }
                move_result
            },
            AnimationState::BoxOrKey { last_valid_move_result, x_from, y_from, direction } => {
                proof {
                    self.lemma_current_ok();
                    lemma_animation_box_step(m0.original, m0.current(), x_from, y_from, direction);
                }
                let ghost bs = spec_move_box_or_key(m0.original, m0.current().0, x_from as int, y_from as int, direction);
                let cur = self.playing_level.current();
                let mut level = cur.0.duplicate();
                let player_pos = cur.1;
                let move_result = self.move_box_or_key(&mut level, x_from, y_from, direction);
                if move_result.is_invalid() {
                    // The animation is over and the level did not change
                    self.animation_state = None;
                    return last_valid_move_result;
                }
                if move_result.is_valid() {
                    self.animation_state = None;
                }
                proof {
                    lemma_history_view_commit(self.playing_level@, (level, player_pos));
                    lemma_take_step_inv(m0.with_animation(None), bs.level, player_pos, bs.animation);
                }
                self.playing_level.commit_change((level, player_pos));
                move_result
            },
        };
        // The step of the animation replaces the state it started from
        self.collapse_last_step();
        move_result
    }

    /// Stops a running animation and returns to the state before the move that started
    /// it; returns `None` where no animation runs.
    pub fn cancel_animation_and_undo_move(&mut self) -> (res: Option<&(Level, (usize, usize))>)
        requires
            old(self).wf(),
        ensures
            final(self).wf(),
            old(self)@.animation is None ==> res is None && final(self)@ == old(self)@,
            old(self)@.animation is Some ==> {
                &&& final(self)@ == old(self)@.cancel_animation()
                &&& res matches Some(r) && (r.0@, r.1) == final(self)@.current()
            },
    {
        if !self.is_playing_animation() {
            return None;
        }
        proof {
            self.lemma_current_ok();
            lemma_cancel_inv(self@);
        }
        self.animation_state = None;
        let ghost h0 = self.playing_level@;
        proof {
            lemma_history_view_commit(h0, h0.current());
            crate::collections::lemma_operations_keep_invariant(h0, h0.current());
        }
        // Back to the state before the last animation step
        let _ = self.playing_level.undo();
        let cur = self.playing_level.current();
        let current_playing_level = (cur.0.duplicate(), cur.1);
        let ghost h1 = self.playing_level@;
        proof {
            lemma_history_view_commit(h1, current_playing_level);
            crate::collections::lemma_operations_keep_invariant(h1, current_playing_level);
        }
        // Committing after the undo prevents a redo into the animation
        let _ = self.playing_level.undo();
        let ghost h2 = self.playing_level@;
        proof {
            lemma_history_view_commit(h2, current_playing_level);
            crate::collections::lemma_operations_keep_invariant(h2, current_playing_level);
            lemma_commit_then_undo(h2, current_playing_level);
            lemma_history_view_commit(h2.commit(current_playing_level), current_playing_level);
        }
        self.playing_level.commit_change(current_playing_level);
        Some(self.playing_level.current())
    }

    pub fn original_level(&self) -> (res: &Level)
        ensures
            res@ == self@.original,
    {
        &self.original_level
    }

    pub fn current_playing_level(&self) -> (res: &(Level, (usize, usize)))
        requires
            self.wf(),
        ensures
            (res.0@, res.1) == self@.current(),
    {
        proof {
            self.lemma_current_ok();
        }
        self.playing_level.current()
    }

    /// The number of moves made: the position of the current state in the history.
    pub fn current_move_index(&self) -> (res: usize)
        ensures
            res == self@.history.index,
    {
        self.playing_level.current_index()
    }

    /// Returns to the state before the last move; refused while an animation runs.
    pub fn undo_move(&mut self) -> (res: Option<&(Level, (usize, usize))>)
        requires
            old(self).wf(),
        ensures
            final(self).wf(),
            old(self)@.animation is Some ==> res is None && final(self)@ == old(self)@,
            old(self)@.animation is None ==> {
                &&& final(self)@ == PlayingLevelModel { history: old(self)@.history.undo(), ..old(self)@ }
                &&& (old(self)@.history.index == 0 <==> res is None)
                &&& (res matches Some(r) ==> (r.0@, r.1) == final(self)@.current())
            },
    {
        if self.is_playing_animation() {
            return None;
        }
        proof {
            self.lemma_current_ok();
            lemma_history_view_commit(self.playing_level@, self.playing_level@.current());
            crate::collections::lemma_operations_keep_invariant(self@.history, self@.current());
            let h = self.playing_level@;
            if h.index > 0 {
                assert(history_view(h).entries[h.index - 1] == (h.entries[h.index - 1].0@, h.entries[h.index - 1].1));
            }
        }
        self.playing_level.undo()
    }

    /// Returns to the state after the next move; refused while an animation runs.
    pub fn redo_move(&mut self) -> (res: Option<&(Level, (usize, usize))>)
        requires
            old(self).wf(),
        ensures
            final(self).wf(),
            old(self)@.animation is Some ==> res is None && final(self)@ == old(self)@,
            old(self)@.animation is None ==> {
                &&& final(self)@ == PlayingLevelModel { history: old(self)@.history.redo(), ..old(self)@ }
                &&& (old(self)@.history.index + 1 == old(self)@.history.entries.len() <==> res is None)
                &&& (res matches Some(r) ==> (r.0@, r.1) == final(self)@.current())
            },
    {
        if self.is_playing_animation() {
            return None;
        }
        proof {
            self.lemma_current_ok();
            lemma_history_view_commit(self.playing_level@, self.playing_level@.current());
            crate::collections::lemma_operations_keep_invariant(self@.history, self@.current());
            let h = self.playing_level@;
            if h.index + 1 < h.entries.len() {
                assert(history_view(h).entries[h.index + 1 as int] == (h.entries[h.index + 1 as int].0@, h.entries[h.index + 1 as int].1));
            }
        }
        self.playing_level.redo()
    }

    /// Starts playing `level`, keeping at most `history_size` states for undo.
    pub fn new(level: &Level, history_size: usize) -> (res: Result<Self, LevelLoadingError>)
        requires
            level@.wf(),
            history_size > 0,
        ensures
            match res {
                Ok(p) => {
                    &&& player_count(level@.tiles) == 1
                    &&& p.wf()
                    &&& p@.original == level@
                    &&& p@.animation is None
                    &&& p@.history.capacity == history_size
                    &&& p@.history.index == 0
                    &&& p@.history.entries.len() == 1
                    &&& p@.current().0 == level@
                    &&& is_player_tile(level@.tile_at(p@.current().1.0 as int, p@.current().1.1 as int))
                    &&& p@ == started(level@, history_size as nat)
                },
                Err(e) => {
                    &&& player_count(level@.tiles) != 1
                    &&& e@ == (if player_count(level@.tiles) == 0 {
                        "Level does not contain a player tile!"@
                    } else {
                        "Level contains too many player tiles!"@
                    })
                },
            },
    {
        let tiles = level.tiles();
        let mut count: usize = 0;
        let mut k: usize = 0;
        while k < tiles.len()
            invariant
                tiles@ == level@.tiles,
                k <= tiles@.len(),
                count == player_count(tiles@.take(k as int)),
                count <= k,
            decreases tiles@.len() - k,
        {
            assert(tiles@.take(k + 1).drop_last() =~= tiles@.take(k as int));
            if matches!(tiles[k], Tile::Player | Tile::PlayerOnFragileFloor | Tile::PlayerOnIce) {
                count += 1;
            }
            k += 1;
        }
        assert(tiles@.take(tiles@.len() as int) =~= tiles@);
        if count == 0 {
            return Err(LevelLoadingError::new(String::from_str("Level does not contain a player tile!")));
        } else if count > 1 {
            return Err(LevelLoadingError::new(String::from_str("Level contains too many player tiles!")));
        }
        let pos = Self::find_player(level);
        let original_level = level.duplicate();
        let start = level.duplicate();
        let playing_level = UndoHistory::new(history_size, (start, pos));
        let res = PlayingLevel { original_level, animation_state: None, playing_level };
        proof {
            assert(res@.history.entries =~= seq![(level@, pos)]);
            lemma_player_position(level@, pos);
        }
        Ok(res)
    }
}

} // verus!
