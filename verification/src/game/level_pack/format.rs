use vstd::prelude::*;
use crate::game::GameError;
use crate::game::audio::{BackgroundMusicId, BackgroundMusicTracks};
use crate::game::level::{
    Level, LevelView, LevelLoadingError, Tile, utf8_len, utf8_len_seq, spec_parse_level, player_count,
};
use crate::text::{
    decimal, trim, starts_with, parse_unsigned, contains, is_first_occurrence, occurs_at, chars_find, push_str, push_chars, push_decimal,
    chars_to_string, trim_chars, chars_start_with, str_chars, sub_chars, parse_unsigned_chars,
    lines, split_lines, signed_decimal, push_signed_decimal,
};
use crate::game::level::level_text;
use crate::game::level_pack::LevelWithStatsView;

verus! {

/// An error while reading a level pack: a loading error, or a game error for a pack
/// whose levels cannot be played.
#[derive(Debug)]
pub enum LevelPackError {
    Loading(LevelLoadingError),
    Game(GameError),
}

/// The model of a [`LevelPackError`]: its kind and its message.
pub enum LevelPackErrorView {
    Loading(Seq<char>),
    Game(Seq<char>),
}

impl View for LevelPackError {
    type V = LevelPackErrorView;

    open spec fn view(&self) -> LevelPackErrorView {
        match self {
            LevelPackError::Loading(e) => LevelPackErrorView::Loading(e@),
            LevelPackError::Game(e) => LevelPackErrorView::Game(e@),
        }
    }
}

impl LevelPackError {
    /// The message of the error.
    pub fn message(&self) -> (res: &str)
        ensures
            res@ == (match self@ {
                LevelPackErrorView::Loading(m) => m,
                LevelPackErrorView::Game(m) => m,
            }),
    {
        match self {
            LevelPackError::Loading(e) => e.message(),
            LevelPackError::Game(e) => e.message(),
        }
    }
}

pub open spec fn msg_pack_empty(path: Seq<char>) -> Seq<char> {
    "The level pack file \""@ + path + "\" is empty!"@
}

pub open spec fn msg_name_too_long(name: Seq<char>) -> Seq<char> {
    "The level pack name \""@ + name + "\" is too long!"@
}

pub open spec fn msg_no_level_count(path: Seq<char>) -> Seq<char> {
    "The level pack file \""@ + path + "\" does not contain level count!"@
}

pub open spec fn msg_thumbnail_invalid(line: Seq<char>, path: Seq<char>) -> Seq<char> {
    "The thumbnail level index \""@ + line + "\" is invalid in the level pack file \""@ + path + "\"!"@
}

pub open spec fn msg_music_invalid(line: Seq<char>, path: Seq<char>) -> Seq<char> {
    "The background music id \""@ + line + "\" is invalid in the level pack file \""@ + path + "\"!"@
}

pub open spec fn msg_music_missing(id: nat, path: Seq<char>) -> Seq<char> {
    "The background music \""@ + decimal(id) + "\" from level pack file \""@ + path
        + "\" does not exist (Make sure that you are playing the latest version of SokoTerm)!"@
}

pub open spec fn msg_count_missing(path: Seq<char>) -> Seq<char> {
    "The level count is missing in the level pack file \""@ + path + "\"!"@
}

pub open spec fn msg_count_invalid(count: Seq<char>, path: Seq<char>) -> Seq<char> {
    "The level count \""@ + count + "\" is invalid in the level pack file \""@ + path + "\"!"@
}

pub open spec fn msg_too_many_levels(path: Seq<char>, count: Seq<char>) -> Seq<char> {
    "There are too many levels in the level pack file \""@ + path + "\" (Count: "@ + count
        + ", Max: 190)!"@
}

pub open spec fn msg_thumbnail_out_of_bounds(index: nat, count: nat, path: Seq<char>) -> Seq<char> {
    "The thumbnail level index "@ + decimal(index) + " is out of bounds (Should be less then "@
        + decimal(count) + ") in the level pack file \""@ + path + "\"!"@
}

/// What the header of a level pack file holds, and the lines after it.
pub struct PackHeader {
    pub name: Option<Seq<char>>,
    pub thumbnail: Option<nat>,
    pub music: Option<nat>,
    pub level_count: nat,
    pub rest: Seq<Seq<char>>,
}

/// Whether some track has the id number `m`.
pub open spec fn has_track(ids: Seq<BackgroundMusicId>, m: nat) -> bool {
    exists|k: int| 0 <= k < ids.len() && ids[k]@ == m
}

/// The last line of the header: `Levels: <count>`.
pub open spec fn header_count_stage(
    path: Seq<char>,
    name: Option<Seq<char>>,
    thumbnail: Option<nat>,
    music: Option<nat>,
    line: Seq<char>,
    rest: Seq<Seq<char>>,
) -> Result<PackHeader, LevelPackErrorView> {
    if !starts_with(line, "Levels: "@) {
        Err(LevelPackErrorView::Loading(msg_count_missing(path)))
    } else {
        let count = line.skip(8);
        match parse_unsigned(count, usize::MAX as nat) {
            None => Err(LevelPackErrorView::Loading(msg_count_invalid(count, path))),
            Some(c) => if c > 190 {
                Err(LevelPackErrorView::Loading(msg_too_many_levels(path, count)))
            } else if thumbnail matches Some(t) && c <= t {
                Err(LevelPackErrorView::Loading(msg_thumbnail_out_of_bounds(thumbnail->0, c, path)))
            } else {
                Ok(PackHeader { name, thumbnail, music, level_count: c, rest })
            },
        }
    }
}

/// The optional line `Background Music: <id>`, where the id is that of a known track.
pub open spec fn header_music_stage(
    path: Seq<char>,
    name: Option<Seq<char>>,
    thumbnail: Option<nat>,
    line: Seq<char>,
    rest: Seq<Seq<char>>,
    ids: Seq<BackgroundMusicId>,
) -> Result<PackHeader, LevelPackErrorView> {
    if starts_with(line, "Background Music: "@) {
        match parse_unsigned(trim(line.skip(18)), usize::MAX as nat) {
            None => Err(LevelPackErrorView::Loading(msg_music_invalid(line, path))),
            Some(m) => if !has_track(ids, m) {
                Err(LevelPackErrorView::Loading(msg_music_missing(m, path)))
            } else if rest.len() == 0 {
                Err(LevelPackErrorView::Loading(msg_no_level_count(path)))
            } else {
                header_count_stage(path, name, thumbnail, Some(m), trim(rest[0]), rest.drop_first())
            },
        }
    } else {
        header_count_stage(path, name, thumbnail, None, line, rest)
    }
}

/// The optional line `Thumbnail Level: <index>`.
pub open spec fn header_thumbnail_stage(
    path: Seq<char>,
    name: Option<Seq<char>>,
    line: Seq<char>,
    rest: Seq<Seq<char>>,
    ids: Seq<BackgroundMusicId>,
) -> Result<PackHeader, LevelPackErrorView> {
    if starts_with(line, "Thumbnail Level: "@) {
        match parse_unsigned(trim(line.skip(17)), usize::MAX as nat) {
            None => Err(LevelPackErrorView::Loading(msg_thumbnail_invalid(line, path))),
            Some(t) => if rest.len() == 0 {
                Err(LevelPackErrorView::Loading(msg_no_level_count(path)))
            } else {
                header_music_stage(path, name, Some(t), trim(rest[0]), rest.drop_first(), ids)
            },
        }
    } else {
        header_music_stage(path, name, None, line, rest, ids)
    }
}

/// The optional line `Name: <name>`, of at most 25 bytes.
pub open spec fn header_name_stage(
    path: Seq<char>,
    line: Seq<char>,
    rest: Seq<Seq<char>>,
    ids: Seq<BackgroundMusicId>,
) -> Result<PackHeader, LevelPackErrorView> {
    if starts_with(line, "Name: "@) {
        let name = trim(line.skip(6));
        if utf8_len_seq(name) > 25 {
            Err(LevelPackErrorView::Loading(msg_name_too_long(name)))
        } else if rest.len() == 0 {
            Err(LevelPackErrorView::Loading(msg_no_level_count(path)))
        } else {
            header_thumbnail_stage(path, Some(name), trim(rest[0]), rest.drop_first(), ids)
        }
    } else {
        header_thumbnail_stage(path, None, line, rest, ids)
    }
}

/// Reading the header of a level pack file from its lines, each line trimmed.
pub open spec fn spec_pack_header(
    path: Seq<char>,
    ls: Seq<Seq<char>>,
    ids: Seq<BackgroundMusicId>,
) -> Result<PackHeader, LevelPackErrorView> {
    if ls.len() == 0 {
        Err(LevelPackErrorView::Loading(msg_pack_empty(path)))
    } else {
        header_name_stage(path, trim(ls[0]), ls.drop_first(), ids)
    }
}

pub open spec fn opt_chars(o: Option<Vec<char>>) -> Option<Seq<char>> {
    match o {
        Some(v) => Some(v@),
        None => None,
    }
}

pub open spec fn opt_nat(o: Option<usize>) -> Option<nat> {
    match o {
        Some(v) => Some(v as nat),
        None => None,
    }
}

/// The number of an optional track id.
pub open spec fn opt_id(o: Option<BackgroundMusicId>) -> Option<nat> {
    match o {
        Some(v) => Some(v@ as nat),
        None => None,
    }
}

/// The lines `ls` are the characters of the lines `lsv`.
pub open spec fn vec_lines(ls: Seq<Vec<char>>, lsv: Seq<Seq<char>>) -> bool {
    &&& ls.len() == lsv.len()
    &&& forall|k: int| 0 <= k < ls.len() ==> #[trigger] ls[k]@ == lsv[k]
}

fn loading_error(msg: Vec<char>) -> (res: LevelPackError)
    ensures
        res@ == LevelPackErrorView::Loading(msg@),
{
    LevelPackError::Loading(LevelLoadingError::new(chars_to_string(msg.as_slice())))
}

fn game_error(msg: Vec<char>) -> (res: LevelPackError)
    ensures
        res@ == LevelPackErrorView::Game(msg@),
{
    LevelPackError::Game(GameError::new(chars_to_string(msg.as_slice())))
}

/// `"<a><s><b>"` as characters.
fn framed(a: &str, s: &[char], b: &str) -> (res: Vec<char>)
    ensures
        res@ == a@ + s@ + b@,
{
    let mut m: Vec<char> = Vec::new();
    push_str(&mut m, a);
    push_chars(&mut m, s);
    push_str(&mut m, b);
    assert(m@ =~= a@ + s@ + b@);
    m
}

/// `"<a><s><b><t><c>"` as characters.
fn framed2(a: &str, s: &[char], b: &str, t: &[char], c: &str) -> (res: Vec<char>)
    ensures
        res@ == a@ + s@ + b@ + t@ + c@,
{
    let mut m = framed(a, s, b);
    push_chars(&mut m, t);
    push_str(&mut m, c);
    m
}

/// The number of bytes of characters in UTF-8 exceeds `max`.
fn utf8_len_exceeds(s: &[char], max: usize) -> (res: bool)
    ensures
        res == (utf8_len_seq(s@) > max),
{
    let mut len: usize = 0;
    let mut i: usize = 0;
    while i < s.len()
        invariant
            i <= s@.len(),
            len == utf8_len_seq(s@.take(i as int)),
            len <= max,
        decreases s@.len() - i,
    {
        let v = s[i] as u32;
        let l: usize = if v < 0x80 {
            1
        } else if v < 0x800 {
            2
        } else if v < 0x10000 {
            3
        } else {
            4
        };
        assert(s@.take(i + 1).drop_last() =~= s@.take(i as int));
        assert(l == utf8_len(s@[i as int]));
        if l > max - len {
            proof {
                lemma_utf8_len_monotone(s@, i + 1);
            }
            return true;
        }
        len += l;
        i += 1;
    }
    assert(s@.take(s@.len() as int) =~= s@);
    false
}

proof fn lemma_utf8_len_monotone(s: Seq<char>, i: int)
    requires
        0 <= i <= s.len(),
    ensures
        utf8_len_seq(s.take(i)) <= utf8_len_seq(s),
    decreases s.len(),
{
    if i < s.len() {
        lemma_utf8_len_monotone(s.drop_last(), i);
        assert(s.drop_last().take(i) =~= s.take(i));
    } else {
        assert(s.take(i) =~= s);
    }
}

/// The trimmed characters after the first `n` of `line`.
fn trimmed_after(line: &[char], n: usize) -> (res: Vec<char>)
    requires
        n <= line@.len(),
    ensures
        res@ == trim(line@.skip(n as int)),
{
    let tail = sub_chars(line, n, line.len());
    assert(tail@ =~= line@.skip(n as int));
    trim_chars(tail.as_slice())
}

/// The header of a level pack: its name, thumbnail level, background music and level count,
/// and the index of the first line after it (see [`spec_pack_header`]).
fn parse_pack_header<const N: usize>(
    path: &[char],
    ls: &Vec<Vec<char>>,
    Ghost(lsv): Ghost<Seq<Seq<char>>>,
    tracks: &BackgroundMusicTracks<N>,
) -> (res: Result<(Option<Vec<char>>, Option<usize>, Option<BackgroundMusicId>, usize, usize), LevelPackError>)
    requires
        vec_lines(ls@, lsv),
    ensures
        match spec_pack_header(path@, lsv, tracks.ids()) {
            Ok(h) => res matches Ok((name, thumbnail, music, count, pos)) && {
                &&& h.name == opt_chars(name)
                &&& h.thumbnail == opt_nat(thumbnail)
                &&& h.music == opt_id(music)
                &&& h.level_count == count
                &&& count <= 190
                &&& pos <= lsv.len()
                &&& h.rest == lsv.skip(pos as int)
            },
            Err(e) => res matches Err(err) && err@ == e,
        },
{
    let ghost ids = tracks.ids();
    if ls.len() == 0 {
        return Err(loading_error(framed("The level pack file \"", path, "\" is empty!")));
    }
    let mut line = trim_chars(ls[0].as_slice());
    let mut pos: usize = 1;
    assert(lsv.drop_first() =~= lsv.skip(1));
    let name_prefix = str_chars("Name: ");
    proof {
        reveal_strlit("Name: ");
        reveal_strlit("Thumbnail Level: ");
        reveal_strlit("Background Music: ");
        reveal_strlit("Levels: ");
    }
    let mut name: Option<Vec<char>> = None;
    if chars_start_with(line.as_slice(), name_prefix.as_slice()) {
        let n = trimmed_after(line.as_slice(), 6);
        if utf8_len_exceeds(n.as_slice(), 25) {
            return Err(loading_error(framed("The level pack name \"", n.as_slice(), "\" is too long!")));
        }
        if pos >= ls.len() {
            return Err(loading_error(framed("The level pack file \"", path, "\" does not contain level count!")));
        }
        line = trim_chars(ls[pos].as_slice());
        assert(lsv.skip(pos as int).drop_first() =~= lsv.skip(pos + 1));
        pos += 1;
        name = Some(n);
    }
    assert(spec_pack_header(path@, lsv, ids) == header_thumbnail_stage(
        path@,
        opt_chars(name),
        line@,
        lsv.skip(pos as int),
        ids,
    ));
    let thumbnail_prefix = str_chars("Thumbnail Level: ");
    let mut thumbnail: Option<usize> = None;
    if chars_start_with(line.as_slice(), thumbnail_prefix.as_slice()) {
        let t = trimmed_after(line.as_slice(), 17);
        match parse_unsigned_chars(t.as_slice(), usize::MAX as u64) {
            None => {
                return Err(loading_error(framed2(
                    "The thumbnail level index \"",
                    line.as_slice(),
                    "\" is invalid in the level pack file \"",
                    path,
                    "\"!",
                )));
            },
            Some(v) => {
                if pos >= ls.len() {
                    return Err(loading_error(framed("The level pack file \"", path, "\" does not contain level count!")));
                }
                thumbnail = Some(v as usize);
            },
        }
        line = trim_chars(ls[pos].as_slice());
        assert(lsv.skip(pos as int).drop_first() =~= lsv.skip(pos + 1));
        pos += 1;
    }
    let ghost name_v = opt_chars(name);
    let ghost thumb_v = opt_nat(thumbnail);
    assert(spec_pack_header(path@, lsv, ids) == header_music_stage(
        path@,
        name_v,
        thumb_v,
        line@,
        lsv.skip(pos as int),
        ids,
    ));
    let music_prefix = str_chars("Background Music: ");
    let mut music: Option<BackgroundMusicId> = None;
    if chars_start_with(line.as_slice(), music_prefix.as_slice()) {
        let m = trimmed_after(line.as_slice(), 18);
        match parse_unsigned_chars(m.as_slice(), usize::MAX as u64) {
            None => {
                return Err(loading_error(framed2(
                    "The background music id \"",
                    line.as_slice(),
                    "\" is invalid in the level pack file \"",
                    path,
                    "\"!",
                )));
            },
            Some(v) => {
                match tracks.check_id(v as usize) {
                    None => {
                        assert(!has_track(ids, v as nat));
                        let mut msg: Vec<char> = Vec::new();
                        push_str(&mut msg, "The background music \"");
                        push_decimal(&mut msg, v);
                        push_str(&mut msg, "\" from level pack file \"");
                        push_chars(&mut msg, path);
                        push_str(&mut msg, "\" does not exist (Make sure that you are playing the latest version of SokoTerm)!");
                        assert(msg@ =~= msg_music_missing(v as nat, path@));
                        return Err(loading_error(msg));
                    },
                    Some(id) => {
                        proof {
                            let k = choose|k: int| 0 <= k < ids.len() && ids[k] == id;
                            assert(ids[k]@ == v);
                        }
                        if pos >= ls.len() {
                            return Err(loading_error(framed("The level pack file \"", path, "\" does not contain level count!")));
                        }
                        music = Some(id);
                    },
                }
            },
        }
        line = trim_chars(ls[pos].as_slice());
        assert(lsv.skip(pos as int).drop_first() =~= lsv.skip(pos + 1));
        pos += 1;
    }
    let ghost music_v = opt_id(music);
    assert(spec_pack_header(path@, lsv, ids) == header_count_stage(
        path@,
        name_v,
        thumb_v,
        music_v,
        line@,
        lsv.skip(pos as int),
    ));
    let count_prefix = str_chars("Levels: ");
    if !chars_start_with(line.as_slice(), count_prefix.as_slice()) {
        return Err(loading_error(framed("The level count is missing in the level pack file \"", path, "\"!")));
    }
    let count_str = sub_chars(line.as_slice(), 8, line.len());
    assert(count_str@ =~= line@.skip(8));
    let count = match parse_unsigned_chars(count_str.as_slice(), usize::MAX as u64) {
        None => {
            return Err(loading_error(framed2(
                "The level count \"",
                count_str.as_slice(),
                "\" is invalid in the level pack file \"",
                path,
                "\"!",
            )));
        },
        Some(c) => c as usize,
    };
    if count > 190 {
        return Err(loading_error(framed2(
            "There are too many levels in the level pack file \"",
            path,
            "\" (Count: ",
            count_str.as_slice(),
            ", Max: 190)!",
        )));
    }
    if let Some(index) = thumbnail {
        if count <= index {
            let mut msg: Vec<char> = Vec::new();
            push_str(&mut msg, "The thumbnail level index ");
            push_decimal(&mut msg, index as u64);
            push_str(&mut msg, " is out of bounds (Should be less then ");
            push_decimal(&mut msg, count as u64);
            push_str(&mut msg, ") in the level pack file \"");
            push_chars(&mut msg, path);
            push_str(&mut msg, "\"!");
            assert(msg@ =~= msg_thumbnail_out_of_bounds(index as nat, count as nat, path@));
            return Err(loading_error(msg));
        }
    }
    Ok((name, thumbnail, music, count, pos))
}

pub open spec fn msg_eof(path: Seq<char>, n: nat, count: nat) -> Seq<char> {
    "EOF was reached early in the level pack file \""@ + path + "\" (Read: "@ + decimal(n)
        + " levels, Expected: "@ + decimal(count) + " levels)!"@
}

pub open spec fn msg_pack_level_invalid(n: nat, path: Seq<char>) -> Seq<char> {
    "Level "@ + decimal(n) + " is invalid in the level pack file \""@ + path + "\"!"@
}

pub open spec fn msg_eof_during(n: nat, path: Seq<char>) -> Seq<char> {
    "EOF was reached early during parsing of level "@ + decimal(n)
        + " is invalid in the level pack file \""@ + path + "\"!"@
}

pub open spec fn msg_level_error(err: Seq<char>, n: nat, path: Seq<char>) -> Seq<char> {
    "\""@ + err + "\" occurred during parsing of level "@ + decimal(n)
        + " is invalid in the level pack file \""@ + path + "\"!"@
}

pub open spec fn msg_no_player(id: Seq<char>, n: nat) -> Seq<char> {
    "Error while loading level pack \""@ + id + "\": Level "@ + decimal(n)
        + " does not contain a player tile"@
}

pub open spec fn msg_many_players(id: Seq<char>, n: nat) -> Seq<char> {
    "Error while loading level pack \""@ + id + "\": Level "@ + decimal(n)
        + " contains too many player tiles"@
}

pub open spec fn msg_additional(path: Seq<char>) -> Seq<char> {
    "Additional data was found after last level was parsed in the level pack file \""@ + path
        + "\"!"@
}

pub open spec fn msg_no_levels(id: Seq<char>) -> Seq<char> {
    "Error while loading level pack \""@ + id + "\": Level pack contains no levels"@
}

/// The lines that are not blank, in order.
pub open spec fn nonblank(ls: Seq<Seq<char>>) -> Seq<Seq<char>>
    decreases ls.len(),
{
    if ls.len() == 0 {
        seq![]
    } else if trim(ls.last()).len() > 0 {
        nonblank(ls.drop_last()).push(ls.last())
    } else {
        nonblank(ls.drop_last())
    }
}

/// Lines joined by line breaks.
pub open spec fn join_lines(ls: Seq<Seq<char>>) -> Seq<char>
    decreases ls.len(),
{
    if ls.len() == 0 {
        seq![]
    } else if ls.len() == 1 {
        ls[0]
    } else {
        join_lines(ls.drop_last()) + seq!['\n'] + ls.last()
    }
}

/// The height in the first line of a level in a pack: it starts with `w: `, and after the
/// first `, h: ` stands the height.
pub open spec fn level_header_height(line: Seq<char>) -> Option<nat> {
    if starts_with(line, "w: "@) && contains(line, ", h: "@) {
        let idx = choose|i: int| is_first_occurrence(line, ", h: "@, i);
        parse_unsigned(line.skip(idx + 5), usize::MAX as nat)
    } else {
        None
    }
}

/// Reading level number `n` of `count` from the non-blank lines `ls` of a level pack: the
/// level and the number of lines it takes.
pub open spec fn spec_pack_level(
    path: Seq<char>,
    id: Seq<char>,
    editor: bool,
    ls: Seq<Seq<char>>,
    n: nat,
    count: nat,
) -> Result<(LevelView, nat), LevelPackErrorView> {
    if ls.len() == 0 {
        Err(LevelPackErrorView::Loading(msg_eof(path, n, count)))
    } else {
        match level_header_height(ls[0]) {
            None => Err(LevelPackErrorView::Loading(msg_pack_level_invalid(n, path))),
            Some(h) => if ls.len() < 1 + h {
                Err(LevelPackErrorView::Loading(msg_eof_during(n, path)))
            } else {
                match spec_parse_level(join_lines(ls.take((1 + h) as int))) {
                    Err(e) => Err(LevelPackErrorView::Loading(msg_level_error(e, n, path))),
                    Ok(l) => if !editor && player_count(l.tiles) == 0 {
                        Err(LevelPackErrorView::Game(msg_no_player(id, n)))
                    } else if !editor && player_count(l.tiles) > 1 {
                        Err(LevelPackErrorView::Game(msg_many_players(id, n)))
                    } else {
                        Ok((l, 1 + h))
                    },
                }
            },
        }
    }
}

/// Reading the levels from number `i + 1` up to `count` from the non-blank lines `ls`;
/// no line may be left after them.
pub open spec fn spec_pack_levels(
    path: Seq<char>,
    id: Seq<char>,
    editor: bool,
    ls: Seq<Seq<char>>,
    i: nat,
    count: nat,
) -> Result<Seq<LevelView>, LevelPackErrorView>
    decreases count - i,
{
    if i >= count {
        if ls.len() > 0 {
            Err(LevelPackErrorView::Loading(msg_additional(path)))
        } else {
            Ok(seq![])
        }
    } else {
        match spec_pack_level(path, id, editor, ls, i + 1, count) {
            Err(e) => Err(e),
            Ok((l, used)) => match spec_pack_levels(path, id, editor, ls.skip(used as int), i + 1, count) {
                Err(e) => Err(e),
                Ok(rest) => Ok(seq![l] + rest),
            },
        }
    }
}

/// The lines of `ls` from index `from` that are not blank.
fn nonblank_lines(ls: &Vec<Vec<char>>, Ghost(lsv): Ghost<Seq<Seq<char>>>, from: usize) -> (res: Vec<Vec<char>>)
    requires
        vec_lines(ls@, lsv),
        from <= lsv.len(),
    ensures
        vec_lines(res@, nonblank(lsv.skip(from as int))),
{
    let mut res: Vec<Vec<char>> = Vec::new();
    let mut k = from;
    let ghost rest = lsv.skip(from as int);
    assert(rest.take(0) =~= Seq::<Seq<char>>::empty());
    while k < ls.len()
        invariant
            from <= k <= lsv.len(),
            vec_lines(ls@, lsv),
            rest == lsv.skip(from as int),
            vec_lines(res@, nonblank(rest.take(k - from))),
        decreases lsv.len() - k,
    {
        let ghost j = k - from;
        assert(rest.take(j + 1).drop_last() =~= rest.take(j));
        assert(rest.take(j + 1).last() == lsv[k as int]);
        let t = trim_chars(ls[k].as_slice());
        if t.len() > 0 {
            let line = sub_chars(ls[k].as_slice(), 0, ls[k].len());
            assert(line@ =~= lsv[k as int]);
            res.push(line);
        }
        k += 1;
    }
    assert(rest.take(lsv.len() - from) =~= rest);
    res
}

/// The lines `from..to` of `ls` joined by line breaks.
fn join_line_range(ls: &Vec<Vec<char>>, Ghost(lsv): Ghost<Seq<Seq<char>>>, from: usize, to: usize) -> (res: Vec<char>)
    requires
        vec_lines(ls@, lsv),
        from <= to <= lsv.len(),
    ensures
        res@ == join_lines(lsv.subrange(from as int, to as int)),
{
    let mut res: Vec<char> = Vec::new();
    let mut k = from;
    assert(lsv.subrange(from as int, from as int).len() == 0);
    while k < to
        invariant
            from <= k <= to <= lsv.len(),
            vec_lines(ls@, lsv),
            res@ == join_lines(lsv.subrange(from as int, k as int)),
        decreases to - k,
    {
        let ghost sub = lsv.subrange(from as int, k + 1);
        assert(sub.drop_last() =~= lsv.subrange(from as int, k as int));
        assert(sub.last() == lsv[k as int]);
        if k > from {
            res.push('\n');
        }
        push_chars(&mut res, ls[k].as_slice());
        proof {
            if k == from {
                assert(res@ =~= sub[0]);
            } else {
                assert(res@ =~= join_lines(sub.drop_last()) + seq!['\n'] + sub.last());
            }
        }
        k += 1;
    }
    res
}

/// The height in the first line of a level (see [`level_header_height`]).
fn parse_level_header_height(line: &[char]) -> (res: Option<usize>)
    ensures
        res == (match level_header_height(line@) {
            Some(h) => Some(h as usize),
            None => None::<usize>,
        }),
        res matches Some(h) ==> level_header_height(line@) == Some(h as nat),
{
    let prefix = str_chars("w: ");
    let sep = str_chars(", h: ");
    proof {
        reveal_strlit("w: ");
        reveal_strlit(", h: ");
    }
    if !chars_start_with(line, prefix.as_slice()) {
        return None;
    }
    let idx = match chars_find(line, sep.as_slice()) {
        Some(i) => i,
        None => {
            return None;
        },
    };
    proof {
        let c = choose|i: int| is_first_occurrence(line@, ", h: "@, i);
        assert(c == idx) by {
            if c < idx {
                assert(!occurs_at(line@, ", h: "@, c));
            } else if c > idx {
                assert(!occurs_at(line@, ", h: "@, idx as int));
            }
        }
    }
    assert(sep@.len() == 5);
    let line_len = line.len();
    assert(idx + 5 <= line_len);
    let h = sub_chars(line, idx + 5, line_len);
    assert(h@ =~= line@.skip(idx + 5));
    match parse_unsigned_chars(h.as_slice(), usize::MAX as u64) {
        Some(v) => Some(v as usize),
        None => None,
    }
}

/// The number of player tiles of a level.
fn count_player_tiles(level: &Level) -> (res: usize)
    ensures
        res == player_count(level@.tiles),
{
    let tiles = level.tiles();
    let mut count: usize = 0;
    let mut k: usize = 0;
    while k < tiles.len()
        invariant
            tiles@ == level@.tiles,
            k <= tiles@.len(),
            count == player_count(tiles@.take(k as int)),
            count <= k,
        decreases tiles@.len() - k,
    {
        assert(tiles@.take(k + 1).drop_last() =~= tiles@.take(k as int));
        if matches!(tiles[k], Tile::Player | Tile::PlayerOnFragileFloor | Tile::PlayerOnIce) {
            count += 1;
        }
        k += 1;
    }
    assert(tiles@.take(tiles@.len() as int) =~= tiles@);
    count
}

/// `"Level <n> ..."`-style message: `<a><n><b><path><c>`.
fn numbered(a: &str, n: usize, b: &str, path: &[char], c: &str) -> (res: Vec<char>)
    ensures
        res@ == a@ + decimal(n as nat) + b@ + path@ + c@,
{
    let mut m: Vec<char> = Vec::new();
    push_str(&mut m, a);
    push_decimal(&mut m, n as u64);
    push_str(&mut m, b);
    push_chars(&mut m, path);
    push_str(&mut m, c);
    assert(m@ =~= a@ + decimal(n as nat) + b@ + path@ + c@);
    m
}

/// Reads level number `n` of `count` from the non-blank lines from index `p` (see
/// [`spec_pack_level`]).
fn parse_pack_level(
    path: &[char],
    id: &[char],
    editor: bool,
    ls: &Vec<Vec<char>>,
    Ghost(lsv): Ghost<Seq<Seq<char>>>,
    p: usize,
    n: usize,
    count: usize,
) -> (res: Result<(Level, usize), LevelPackError>)
    requires
        vec_lines(ls@, lsv),
        p <= lsv.len(),
        n <= 190,
        count <= 190,
    ensures
        match spec_pack_level(path@, id@, editor, lsv.skip(p as int), n as nat, count as nat) {
            Ok((l, used)) => res matches Ok((level, u)) && level@ == l && u == used && level@.wf()
                && p + u <= lsv.len(),
            Err(e) => res matches Err(err) && err@ == e,
        },
        res matches Ok((_, u)) ==> p + u <= lsv.len(),
{
    let ghost rest = lsv.skip(p as int);
    if p >= ls.len() {
        let mut msg: Vec<char> = Vec::new();
        push_str(&mut msg, "EOF was reached early in the level pack file \"");
        push_chars(&mut msg, path);
        push_str(&mut msg, "\" (Read: ");
        push_decimal(&mut msg, n as u64);
        push_str(&mut msg, " levels, Expected: ");
        push_decimal(&mut msg, count as u64);
        push_str(&mut msg, " levels)!");
        assert(msg@ =~= msg_eof(path@, n as nat, count as nat));
        return Err(loading_error(msg));
    }
    assert(rest[0] == lsv[p as int]);
    let height = match parse_level_header_height(ls[p].as_slice()) {
        Some(h) => h,
        None => {
            return Err(loading_error(numbered("Level ", n, " is invalid in the level pack file \"", path, "\"!")));
        },
    };
    if height >= ls.len() - p {
        return Err(loading_error(numbered(
            "EOF was reached early during parsing of level ",
            n,
            " is invalid in the level pack file \"",
            path,
            "\"!",
        )));
    }
    let used = height + 1;
    let text = join_line_range(ls, Ghost(lsv), p, p + used);
    assert(lsv.subrange(p as int, p + used) =~= rest.take(1 + height));
    let level = match Level::from_chars(text.as_slice()) {
        Ok(l) => l,
        Err(e) => {
            let err = str_chars(e.message());
            let mut msg: Vec<char> = Vec::new();
            push_str(&mut msg, "\"");
            push_chars(&mut msg, err.as_slice());
            push_str(&mut msg, "\" occurred during parsing of level ");
            push_decimal(&mut msg, n as u64);
            push_str(&mut msg, " is invalid in the level pack file \"");
            push_chars(&mut msg, path);
            push_str(&mut msg, "\"!");
            assert(msg@ =~= msg_level_error(e@, n as nat, path@));
            return Err(loading_error(msg));
        },
    };
    if !editor {
        let players = count_player_tiles(&level);
        if players == 0 {
            return Err(game_error(numbered_id("Error while loading level pack \"", id, "\": Level ", n, " does not contain a player tile")));
        } else if players > 1 {
            return Err(game_error(numbered_id("Error while loading level pack \"", id, "\": Level ", n, " contains too many player tiles")));
        }
    }
    Ok((level, used))
}

/// `<a><id><b><n><c>`.
fn numbered_id(a: &str, id: &[char], b: &str, n: usize, c: &str) -> (res: Vec<char>)
    ensures
        res@ == a@ + id@ + b@ + decimal(n as nat) + c@,
{
    let mut m: Vec<char> = Vec::new();
    push_str(&mut m, a);
    push_chars(&mut m, id);
    push_str(&mut m, b);
    push_decimal(&mut m, n as u64);
    push_str(&mut m, c);
    assert(m@ =~= a@ + id@ + b@ + decimal(n as nat) + c@);
    m
}

/// Reads `count` levels from the non-blank lines `ls` (see [`spec_pack_levels`]).
fn parse_pack_levels(
    path: &[char],
    id: &[char],
    editor: bool,
    ls: &Vec<Vec<char>>,
    Ghost(lsv): Ghost<Seq<Seq<char>>>,
    count: usize,
) -> (res: Result<Vec<Level>, LevelPackError>)
    requires
        vec_lines(ls@, lsv),
        count <= 190,
    ensures
        match spec_pack_levels(path@, id@, editor, lsv, 0, count as nat) {
            Ok(levels) => res matches Ok(v) && v@.len() == levels.len() && v@.len() == count
                && forall|k: int| 0 <= k < v@.len() ==> #[trigger] v@[k]@ == levels[k] && v@[k]@.wf(),
            Err(e) => res matches Err(err) && err@ == e,
        },
{
    let mut levels: Vec<Level> = Vec::new();
    let mut i: usize = 0;
    let mut p: usize = 0;
    assert(lsv.skip(0) =~= lsv);
    while i < count
        invariant
            vec_lines(ls@, lsv),
            i <= count <= 190,
            p <= lsv.len(),
            levels@.len() == i,
            forall|k: int| 0 <= k < i ==> (#[trigger] levels@[k])@.wf(),
            spec_pack_levels(path@, id@, editor, lsv, 0, count as nat) == (match spec_pack_levels(
                path@,
                id@,
                editor,
                lsv.skip(p as int),
                i as nat,
                count as nat,
            ) {
                Ok(rest) => Ok(levels@.map_values(|l: Level| l@) + rest),
                Err(e) => Err(e),
            }),
        decreases count - i,
    {
        match parse_pack_level(path, id, editor, ls, Ghost(lsv), p, i + 1, count) {
            Ok((level, used)) => {
                let n_lines = ls.len();
                assert(p + used <= n_lines);
                let ghost old_levels = levels@;
                assert(lsv.skip(p as int).skip(used as int) =~= lsv.skip(p + used));
                levels.push(level);
                proof {
                    match spec_pack_levels(path@, id@, editor, lsv.skip(p + used), (i + 1) as nat, count as nat) {
                        Ok(rest) => {
                            assert(old_levels.map_values(|l: Level| l@) + (seq![level@] + rest)
                                =~= levels@.map_values(|l: Level| l@) + rest);
                        },
                        Err(e) => {},
                    }
                }
                p = p + used;
                i += 1;
            },
            Err(e) => {
                return Err(e);
            },
        }
    }
    if p < ls.len() {
        return Err(loading_error(framed(
            "Additional data was found after last level was parsed in the level pack file \"",
            path,
            "\"!",
        )));
    }
    assert(lsv.skip(p as int).len() == 0);
    assert(levels@.map_values(|l: Level| l@) + Seq::<LevelView>::empty() =~= levels@.map_values(|l: Level| l@));
    Ok(levels)
}

/// What a level pack file holds.
pub struct ParsedLevelPack {
    pub name: Seq<char>,
    pub thumbnail: Option<nat>,
    pub music: Option<nat>,
    pub levels: Seq<LevelView>,
}

/// Reading a level pack file: its header, then exactly the announced number of levels; a
/// pack that is not edited must have at least one level, and each of its levels exactly one
/// player. A pack without a name is named by its id.
pub open spec fn spec_parse_level_pack(
    id: Seq<char>,
    path: Seq<char>,
    data: Seq<char>,
    editor: bool,
    ids: Seq<BackgroundMusicId>,
) -> Result<ParsedLevelPack, LevelPackErrorView> {
    match spec_pack_header(path, lines(data), ids) {
        Err(e) => Err(e),
        Ok(h) => match spec_pack_levels(path, id, editor, nonblank(h.rest), 0, h.level_count) {
            Err(e) => Err(e),
            Ok(levels) => if !editor && levels.len() == 0 {
                Err(LevelPackErrorView::Game(msg_no_levels(id)))
            } else {
                Ok(ParsedLevelPack {
                    name: match h.name {
                        Some(n) => n,
                        None => id,
                    },
                    thumbnail: h.thumbnail,
                    music: h.music,
                    levels,
                })
            },
        },
    }
}

/// The position of the only comma of `s`.
pub open spec fn single_comma_at(s: Seq<char>, k: int) -> bool {
    &&& 0 <= k < s.len()
    &&& s[k] == ','
    &&& forall|j: int| 0 <= j < s.len() && j != k ==> s[j] != ','
}

/// The two parts of a text with exactly one comma, around the comma.
pub open spec fn comma_tokens(s: Seq<char>) -> Option<(Seq<char>, Seq<char>)> {
    if exists|k: int| single_comma_at(s, k) {
        let k = choose|k: int| single_comma_at(s, k);
        Some((s.take(k), s.skip(k + 1)))
    } else {
        None
    }
}

/// The best time and fewest moves on a line of a save game: `ms<time>,<moves>` with the time
/// in milliseconds, or `<time>,<moves>` with the time in seconds (read as its last
/// millisecond, wrapping around at 2^64). A part that is not a number gives `None`, and so
/// do both where the line does not have exactly one comma.
pub open spec fn stat_line(line: Seq<char>) -> (Option<u64>, Option<u32>) {
    let t = trim(line);
    let is_new = starts_with(t, "ms"@);
    let body = if is_new {
        t.skip(2)
    } else {
        t
    };
    match comma_tokens(body) {
        None => (None, None),
        Some((a, b)) => (
            match parse_unsigned(a, u64::MAX as nat) {
                Some(v) => Some(
                    if is_new {
                        v as u64
                    } else {
                        (v as u64).wrapping_mul(1000).wrapping_add(999)
                    },
                ),
                None => None,
            },
            match parse_unsigned(b, u32::MAX as nat) {
                Some(v) => Some(v as u32),
                None => None,
            },
        ),
    }
}

/// No statistics for any of the at most 190 levels.
pub open spec fn no_stats() -> Seq<(Option<u64>, Option<u32>)> {
    Seq::new(190, |i: int| (None::<u64>, None::<u32>))
}

/// What a save game holds: the first level not completed yet (not in the save game of an
/// edited pack), and the statistics of each of the first 190 levels, one line each. An empty
/// save game, or one whose first line is not a number, gives nothing.
pub open spec fn save_game_stats(data: Seq<char>, editor: bool) -> (usize, Seq<(Option<u64>, Option<u32>)>) {
    let ls = lines(data);
    if ls.len() == 0 {
        (0, no_stats())
    } else if !editor && parse_unsigned(trim(ls[0]), usize::MAX as nat) is None {
        (0, no_stats())
    } else {
        let skip: int = if editor {
            0
        } else {
            1
        };
        (
            if editor {
                0
            } else {
                parse_unsigned(trim(ls[0]), usize::MAX as nat)->0 as usize
            },
            Seq::new(
                190,
                |i: int|
                    if i + skip < ls.len() {
                        stat_line(ls[i + skip])
                    } else {
                        (None::<u64>, None::<u32>)
                    },
            ),
        )
    }
}

/// The levels of a pack in text form, each after a line break.
pub open spec fn levels_text(levels: Seq<LevelWithStatsView>) -> Seq<char>
    decreases levels.len(),
{
    if levels.len() == 0 {
        seq![]
    } else {
        levels_text(levels.drop_last()) + seq!['\n'] + level_text(levels.last().level)
    }
}

/// The header of a level pack file for a pack of `count` levels; the thumbnail level is left
/// out where there is no such level.
pub open spec fn pack_header_text(
    name: Seq<char>,
    thumbnail: Option<usize>,
    music: Option<BackgroundMusicId>,
    count: nat,
) -> Seq<char> {
    "Name: "@ + name + seq!['\n'] + (match thumbnail {
        Some(t) => if t < count {
            "Thumbnail Level: "@ + decimal(t as nat) + seq!['\n']
        } else {
            seq![]
        },
        None => seq![],
    }) + (match music {
        Some(m) => "Background Music: "@ + decimal(m@ as nat) + seq!['\n'],
        None => seq![],
    }) + "Levels: "@ + decimal(count) + seq!['\n']
}

/// A level pack in the text form of a level pack file.
pub open spec fn pack_text(
    name: Seq<char>,
    thumbnail: Option<usize>,
    music: Option<BackgroundMusicId>,
    levels: Seq<LevelWithStatsView>,
) -> Seq<char> {
    pack_header_text(name, thumbnail, music, levels.len()) + levels_text(levels)
}

/// The line of a save game for a level: `ms<time>,<moves>`, with `-1` for a missing value
/// (values that do not fit a signed number wrap around).
pub open spec fn stat_body(l: LevelWithStatsView) -> Seq<char> {
    "ms"@ + signed_decimal(
        match l.best_time {
            Some(t) => (t as i64) as int,
            None => -1,
        },
    ) + seq![','] + signed_decimal(
        match l.best_moves {
            Some(m) => (m as i32) as int,
            None => -1,
        },
    )
}

/// The line of a save game for a level, with its line break.
pub open spec fn stat_text(l: LevelWithStatsView) -> Seq<char> {
    stat_body(l) + seq!['\n']
}

pub open spec fn stats_text(levels: Seq<LevelWithStatsView>) -> Seq<char>
    decreases levels.len(),
{
    if levels.len() == 0 {
        seq![]
    } else {
        stats_text(levels.drop_last()) + stat_text(levels.last())
    }
}

/// The save game of a pack: for an edited pack the lines of all its levels; else the first
/// level not completed yet, then the lines of the levels before it.
pub open spec fn save_game_text(min_level_not_completed: usize, levels: Seq<LevelWithStatsView>, editor: bool) -> Seq<char> {
    if editor {
        stats_text(levels)
    } else {
        decimal(min_level_not_completed as nat) + seq!['\n'] + stats_text(
            levels.take(
                if min_level_not_completed < levels.len() {
                    min_level_not_completed as int
                } else {
                    levels.len() as int
                },
            ),
        )
    }
}

/// Reads the header and the levels of a level pack file (see [`spec_parse_level_pack`]).
pub(crate) fn parse_level_pack_text<const N: usize>(
    id: &[char],
    path: &[char],
    data: &[char],
    editor: bool,
    tracks: &BackgroundMusicTracks<N>,
) -> (res: Result<(Vec<char>, Option<usize>, Option<BackgroundMusicId>, Vec<Level>), LevelPackError>)
    ensures
        match spec_parse_level_pack(id@, path@, data@, editor, tracks.ids()) {
            Ok(p) => res matches Ok((name, thumbnail, music, levels)) && {
                &&& name@ == p.name
                &&& opt_nat(thumbnail) == p.thumbnail
                &&& opt_id(music) == p.music
                &&& levels@.len() == p.levels.len()
                &&& levels@.len() <= 190
                &&& forall|k: int| 0 <= k < levels@.len() ==> #[trigger] levels@[k]@ == p.levels[k] && levels@[k]@.wf()
            },
            Err(e) => res matches Err(err) && err@ == e,
        },
{
    let ls = split_lines(data);
    let ghost lsv = lines(data@);
    let (name, thumbnail, music, count, pos) = match parse_pack_header(path, &ls, Ghost(lsv), tracks) {
        Ok(h) => h,
        Err(e) => {
            return Err(e);
        },
    };
    let nb = nonblank_lines(&ls, Ghost(lsv), pos);
    let levels = match parse_pack_levels(path, id, editor, &nb, Ghost(nonblank(lsv.skip(pos as int))), count) {
        Ok(v) => v,
        Err(e) => {
            return Err(e);
        },
    };
    if !editor && levels.len() == 0 {
        return Err(game_error(framed("Error while loading level pack \"", id, "\": Level pack contains no levels")));
    }
    let name = match name {
        Some(n) => n,
        None => sub_chars(id, 0, id.len()),
    };
    assert(id@.subrange(0, id@.len() as int) =~= id@);
    Ok((name, thumbnail, music, levels))
}

/// The only comma of `s`, if it has exactly one.
fn find_single_comma(s: &[char]) -> (res: Option<usize>)
    ensures
        match res {
            Some(k) => single_comma_at(s@, k as int),
            None => !exists|k: int| single_comma_at(s@, k),
        },
{
    let mut found: Option<usize> = None;
    let mut i: usize = 0;
    while i < s.len()
        invariant
            i <= s@.len(),
            match found {
                Some(k) => k < i && s@[k as int] == ',' && forall|j: int| 0 <= j < i && j != k ==> s@[j] != ',',
                None => forall|j: int| 0 <= j < i ==> s@[j] != ',',
            },
        decreases s@.len() - i,
    {
        if s[i] == ',' {
            match found {
                Some(k) => {
                    assert(!exists|m: int| single_comma_at(s@, m)) by {
                        if exists|m: int| single_comma_at(s@, m) {
                            let m = choose|m: int| single_comma_at(s@, m);
                            if m != k as int {
                                assert(s@[k as int] != ',');
                            } else {
                                assert(s@[i as int] != ',');
                            }
                        }
                    }
                    return None;
                },
                None => {
                    found = Some(i);
                },
            }
        }
        i += 1;
    }
    proof {
        if found is None {
            assert(!exists|m: int| single_comma_at(s@, m));
        }
    }
    found
}

/// Reads a line of a save game (see [`stat_line`]).
fn parse_stat_line(line: &[char]) -> (res: (Option<u64>, Option<u32>))
    ensures
        res == stat_line(line@),
{
    let t = trim_chars(line);
    let ms = str_chars("ms");
    proof {
        reveal_strlit("ms");
    }
    let is_new = chars_start_with(t.as_slice(), ms.as_slice());
    let body = if is_new {
        sub_chars(t.as_slice(), 2, t.len())
    } else {
        sub_chars(t.as_slice(), 0, t.len())
    };
    assert(body@ =~= (if is_new { t@.skip(2) } else { t@ }));
    let k = match find_single_comma(body.as_slice()) {
        Some(k) => k,
        None => {
            return (None, None);
        },
    };
    proof {
        let c = choose|c: int| single_comma_at(body@, c);
        assert(c == k) by {
            if c != k as int {
                assert(body@[c] != ',');
            }
        }
    }
    let a = sub_chars(body.as_slice(), 0, k);
    let b = sub_chars(body.as_slice(), k + 1, body.len());
    assert(a@ =~= body@.take(k as int));
    assert(b@ =~= body@.skip(k + 1));
    let best_time = match parse_unsigned_chars(a.as_slice(), u64::MAX) {
        Some(v) => Some(
            if is_new {
                v
            } else {
                v.wrapping_mul(1000).wrapping_add(999)
            },
        ),
        None => None,
    };
    let best_moves = match parse_unsigned_chars(b.as_slice(), u32::MAX as u64) {
        Some(v) => Some(v as u32),
        None => None,
    };
    (best_time, best_moves)
}

/// Reads a save game (see [`save_game_stats`]).
pub(crate) fn parse_save_game(data: &[char], editor: bool) -> (res: (usize, Vec<(Option<u64>, Option<u32>)>))
    ensures
        res.0 == save_game_stats(data@, editor).0,
        res.1@ == save_game_stats(data@, editor).1,
{
    let ls = split_lines(data);
    let ghost lsv = lines(data@);
    let mut stats: Vec<(Option<u64>, Option<u32>)> = Vec::new();
    if ls.len() == 0 {
        while stats.len() < 190
            invariant
                stats@.len() <= 190,
                forall|j: int| 0 <= j < stats@.len() ==> stats@[j] == (None::<u64>, None::<u32>),
            decreases 190 - stats@.len(),
        {
            stats.push((None, None));
        }
        assert(stats@ =~= no_stats());
        return (0, stats);
    }
    let mut min: usize = 0;
    if !editor {
        let first = trim_chars(ls[0].as_slice());
        match parse_unsigned_chars(first.as_slice(), usize::MAX as u64) {
            Some(v) => {
                min = v as usize;
            },
            None => {
                while stats.len() < 190
                    invariant
                        stats@.len() <= 190,
                        forall|j: int| 0 <= j < stats@.len() ==> stats@[j] == (None::<u64>, None::<u32>),
                    decreases 190 - stats@.len(),
                {
                    stats.push((None, None));
                }
                assert(stats@ =~= no_stats());
                return (0, stats);
            },
        }
    }
    let skip: usize = if editor {
        0
    } else {
        1
    };
    let ghost expected = save_game_stats(data@, editor).1;
    let mut i: usize = 0;
    while i < 190
        invariant
            i <= 190,
            stats@.len() == i,
            vec_lines(ls@, lsv),
            lsv == lines(data@),
            lsv.len() > 0,
            skip == (if editor { 0usize } else { 1usize }),
            expected == save_game_stats(data@, editor).1,
            !editor ==> parse_unsigned(trim(lsv[0]), usize::MAX as nat) is Some,
            forall|j: int| 0 <= j < i ==> stats@[j] == expected[j],
        decreases 190 - i,
    {
        if i + skip < ls.len() {
            let s = parse_stat_line(ls[i + skip].as_slice());
            stats.push(s);
        } else {
            stats.push((None, None));
        }
        i += 1;
    }
    assert(stats@ =~= expected);
    (min, stats)
}

/// Appends the text of a level pack file (see [`pack_text`]).
pub(crate) fn push_pack_text(
    out: &mut Vec<char>,
    name: &str,
    thumbnail: Option<usize>,
    music: Option<BackgroundMusicId>,
    levels: &[crate::game::level_pack::LevelWithStats],
)
    requires
        forall|k: int| 0 <= k < levels@.len() ==> (#[trigger] levels@[k])@.level.wf(),
    ensures
        final(out)@ == old(out)@ + pack_text(name@, thumbnail, music, levels@.map_values(|l: crate::game::level_pack::LevelWithStats| l@)),
{
    push_pack_header_text(out, name, thumbnail, music, levels.len());
    push_levels_text(out, levels);
}

/// Appends the header of a level pack file (see [`pack_header_text`]).
fn push_pack_header_text(
    out: &mut Vec<char>,
    name: &str,
    thumbnail: Option<usize>,
    music: Option<BackgroundMusicId>,
    count: usize,
)
    ensures
        final(out)@ == old(out)@ + pack_header_text(name@, thumbnail, music, count as nat),
{
    let ghost start = out@;
    push_str(out, "Name: ");
    push_str(out, name);
    out.push('\n');
    let ghost a = out@;
    assert(a =~= start + ("Name: "@ + name@ + seq!['\n']));
    let ghost thumb_part = match thumbnail {
        Some(t) => if t < count {
            "Thumbnail Level: "@ + decimal(t as nat) + seq!['\n']
        } else {
            Seq::<char>::empty()
        },
        None => Seq::<char>::empty(),
    };
    match thumbnail {
        Some(t) => {
            if t < count {
                push_str(out, "Thumbnail Level: ");
                push_decimal(out, t as u64);
                out.push('\n');
            }
        },
        None => {},
    }
    let ghost b = out@;
    assert(b =~= a + thumb_part);
    let ghost music_part = match music {
        Some(m) => "Background Music: "@ + decimal(m@ as nat) + seq!['\n'],
        None => Seq::<char>::empty(),
    };
    match music {
        Some(m) => {
            push_str(out, "Background Music: ");
            push_decimal(out, m.id() as u64);
            out.push('\n');
        },
        None => {},
    }
    let ghost c = out@;
    assert(c =~= b + music_part);
    push_str(out, "Levels: ");
    push_decimal(out, count as u64);
    out.push('\n');
    assert(final(out)@ =~= c + ("Levels: "@ + decimal(count as nat) + seq!['\n']));
    assert(pack_header_text(name@, thumbnail, music, count as nat) =~= ("Name: "@ + name@ + seq!['\n'])
        + thumb_part + music_part + ("Levels: "@ + decimal(count as nat) + seq!['\n']));
}

/// Appends the levels of a pack in text form (see [`levels_text`]).
fn push_levels_text(out: &mut Vec<char>, levels: &[crate::game::level_pack::LevelWithStats])
    requires
        forall|k: int| 0 <= k < levels@.len() ==> (#[trigger] levels@[k])@.level.wf(),
    ensures
        final(out)@ == old(out)@ + levels_text(levels@.map_values(|l: crate::game::level_pack::LevelWithStats| l@)),
{
    let ghost lv = levels@.map_values(|l: crate::game::level_pack::LevelWithStats| l@);
    let ghost d = out@;
    assert(d + levels_text(lv.take(0)) =~= d);
    let mut i: usize = 0;
    while i < levels.len()
        invariant
            i <= levels@.len(),
            lv == levels@.map_values(|l: crate::game::level_pack::LevelWithStats| l@),
            out@ == d + levels_text(lv.take(i as int)),
            forall|k: int| 0 <= k < levels@.len() ==> (#[trigger] levels@[k])@.level.wf(),
        decreases levels@.len() - i,
    {
        assert(lv.take(i + 1).drop_last() =~= lv.take(i as int));
        out.push('\n');
        let text = levels[i].level().to_str();
        push_str(out, text.as_str());
        i += 1;
        assert(out@ =~= d + levels_text(lv.take(i as int)));
    }
    assert(lv.take(lv.len() as int) =~= lv);
}

/// Appends the line of a save game for a level (see [`stat_text`]).
fn push_stat_text(out: &mut Vec<char>, level: &crate::game::level_pack::LevelWithStats)
    ensures
        final(out)@ == old(out)@ + stat_text(level@),
{
    push_str(out, "ms");
    let t: i64 = match level.best_time() {
        Some(t) => t as i64,
        None => -1,
    };
    push_signed_decimal(out, t);
    out.push(',');
    let m: i64 = match level.best_moves() {
        Some(m) => (m as i32) as i64,
        None => -1,
    };
    push_signed_decimal(out, m);
    out.push('\n');
    assert(final(out)@ =~= old(out)@ + stat_text(level@));
}

/// Appends a save game (see [`save_game_text`]).
pub(crate) fn push_save_game_text(
    out: &mut Vec<char>,
    min_level_not_completed: usize,
    levels: &[crate::game::level_pack::LevelWithStats],
    editor: bool,
)
    ensures
        final(out)@ == old(out)@ + save_game_text(min_level_not_completed, levels@.map_values(|l: crate::game::level_pack::LevelWithStats| l@), editor),
{
    let ghost lv = levels@.map_values(|l: crate::game::level_pack::LevelWithStats| l@);
    let ghost start = out@;
    let count = if editor {
        levels.len()
    } else {
        push_decimal(out, min_level_not_completed as u64);
        out.push('\n');
        if min_level_not_completed < levels.len() {
            min_level_not_completed
        } else {
            levels.len()
        }
    };
    let ghost d = out@;
    push_stats_text(out, levels, count);
    proof {
        if editor {
            assert(lv.take(lv.len() as int) =~= lv);
            assert(d == start);
        } else {
            assert(d =~= start + decimal(min_level_not_completed as nat) + seq!['\n']);
        }
    }
}

/// Appends the lines of a save game for the first `count` levels.
fn push_stats_text(out: &mut Vec<char>, levels: &[crate::game::level_pack::LevelWithStats], count: usize)
    requires
        count <= levels@.len(),
    ensures
        final(out)@ == old(out)@ + stats_text(levels@.map_values(|l: crate::game::level_pack::LevelWithStats| l@).take(count as int)),
{
    let ghost lv = levels@.map_values(|l: crate::game::level_pack::LevelWithStats| l@);
    let ghost d = out@;
    assert(d + stats_text(lv.take(0)) =~= d);
    let mut i: usize = 0;
    while i < count
        invariant
            i <= count <= levels@.len(),
            lv == levels@.map_values(|l: crate::game::level_pack::LevelWithStats| l@),
            out@ == d + stats_text(lv.take(i as int)),
        decreases count - i,
    {
        assert(lv.take(i + 1).drop_last() =~= lv.take(i as int));
        push_stat_text(out, &levels[i]);
        i += 1;
        assert(out@ =~= d + stats_text(lv.take(i as int)));
    }
}

} // verus!
