pub mod format;
pub mod roundtrip;

use vstd::prelude::*;
use crate::game::audio::{BackgroundMusicId, BackgroundMusicTracks};
use crate::game::level::{Level, LevelView, player_count};
use crate::game::level_pack::format::{
    LevelPackError, ParsedLevelPack, spec_parse_level_pack, save_game_stats, no_stats, pack_text,
    save_game_text, opt_nat, opt_id, parse_level_pack_text, parse_save_game, push_pack_text,
    push_save_game_text,
};
use crate::text::{str_chars, chars_to_string};

verus! {

/// A level with the best time (in milliseconds) and the fewest moves it was completed with.
#[derive(Debug, Clone)]
pub struct LevelWithStats {
    level: Level,
    best_time: Option<u64>,
    best_moves: Option<u32>,
}

/// The model of a level with its statistics.
pub struct LevelWithStatsView {
    pub level: LevelView,
    pub best_time: Option<u64>,
    pub best_moves: Option<u32>,
}

impl View for LevelWithStats {
    type V = LevelWithStatsView;

    closed spec fn view(&self) -> LevelWithStatsView {
        LevelWithStatsView { level: self.level@, best_time: self.best_time, best_moves: self.best_moves }
    }
}

impl LevelWithStats {
    pub fn new(level: Level, best_time: Option<u64>, best_moves: Option<u32>) -> (res: Self)
        ensures
            res@ == (LevelWithStatsView { level: level@, best_time, best_moves }),
    {
        Self { level, best_time, best_moves }
    }

    pub fn level(&self) -> (res: &Level)
        ensures
            res@ == self@.level,
    {
        &self.level
    }

    pub fn level_mut(&mut self) -> (res: &mut Level)
        ensures
            (*res)@ == old(self)@.level,
            final(self)@ == (LevelWithStatsView { level: final(res)@, ..old(self)@ }),
    {
        &mut self.level
    }

    pub fn best_time(&self) -> (res: Option<u64>)
        ensures
            res == self@.best_time,
    {
        self.best_time
    }

    pub fn best_moves(&self) -> (res: Option<u32>)
        ensures
            res == self@.best_moves,
    {
        self.best_moves
    }

    pub fn set_best_time(&mut self, best_time: Option<u64>)
        ensures
            final(self)@ == (LevelWithStatsView { best_time, ..old(self)@ }),
    {
        self.best_time = best_time;
    }

    pub fn set_best_moves(&mut self, best_moves: Option<u32>)
        ensures
            final(self)@ == (LevelWithStatsView { best_moves, ..old(self)@ }),
    {
        self.best_moves = best_moves;
    }
}

/// The sum of the best times, or `None` where a level has none; sums wrap around at 2^64.
pub open spec fn best_time_sum(levels: Seq<LevelWithStatsView>) -> Option<u64>
    decreases levels.len(),
{
    if levels.len() == 0 {
        Some(0)
    } else {
        match (best_time_sum(levels.drop_last()), levels.last().best_time) {
            (Some(s), Some(t)) => Some(((s + t) % 0x1_0000_0000_0000_0000) as u64),
            _ => None,
        }
    }
}

/// The sum of the fewest moves, or `None` where a level has none; sums wrap around at 2^32.
pub open spec fn best_moves_sum(levels: Seq<LevelWithStatsView>) -> Option<u32>
    decreases levels.len(),
{
    if levels.len() == 0 {
        Some(0)
    } else {
        match (best_moves_sum(levels.drop_last()), levels.last().best_moves) {
            (Some(s), Some(m)) => Some(((s + m) % 0x1_0000_0000) as u32),
            _ => None,
        }
    }
}

/// Levels with the statistics at the same index.
pub open spec fn with_stats(levels: Seq<LevelView>, stats: Seq<(Option<u64>, Option<u32>)>) -> Seq<LevelWithStatsView> {
    Seq::new(
        levels.len(),
        |i: int| LevelWithStatsView { level: levels[i], best_time: stats[i].0, best_moves: stats[i].1 },
    )
}

/// Levels whose statistics are replaced by those at the same index.
pub open spec fn replace_stats(levels: Seq<LevelWithStatsView>, stats: Seq<(Option<u64>, Option<u32>)>) -> Seq<LevelWithStatsView> {
    Seq::new(
        levels.len(),
        |i: int| LevelWithStatsView { level: levels[i].level, best_time: stats[i].0, best_moves: stats[i].1 },
    )
}

/// A level after `a` keeps it, and keeps or improves its best time and its best number of
/// moves where there were some.
pub open spec fn better_or_same(a: LevelWithStatsView, b: LevelWithStatsView) -> bool {
    &&& b.level == a.level
    &&& (a.best_time matches Some(t) ==> (b.best_time matches Some(t2) && t2 <= t))
    &&& (a.best_moves matches Some(m) ==> (b.best_moves matches Some(m2) && m2 <= m))
}

/// The model of a level pack.
pub struct LevelPackView {
    pub name: Seq<char>,
    pub id: Seq<char>,
    pub path: Seq<char>,
    pub thumbnail_level_index: Option<usize>,
    pub background_music_id: Option<BackgroundMusicId>,
    pub levels: Seq<LevelWithStatsView>,
    pub min_level_not_completed: usize,
    pub level_pack_best_time_sum: Option<u64>,
    pub level_pack_best_moves_sum: Option<u32>,
}

impl LevelPackView {
    /// The sums as they are computed from the levels: `None` for a pack without levels.
    pub open spec fn sums_of(levels: Seq<LevelWithStatsView>) -> (Option<u64>, Option<u32>) {
        if levels.len() == 0 {
            (None, None)
        } else {
            (best_time_sum(levels), best_moves_sum(levels))
        }
    }

    /// Every level is well formed.
    pub open spec fn levels_wf(self) -> bool {
        forall|k: int| 0 <= k < self.levels.len() ==> (#[trigger] self.levels[k]).level.wf()
    }

    /// The pack can be played: it has 1 to 190 well-formed levels, each with exactly one
    /// player.
    pub open spec fn playable(self) -> bool {
        &&& self.levels_wf()
        &&& 0 < self.levels.len() <= 190
        &&& forall|k: int| 0 <= k < self.levels.len() ==> player_count((#[trigger] self.levels[k]).level.tiles) == 1
    }

    /// The pack holds what a level pack file holds, with the given progress and statistics.
    pub open spec fn loaded(
        self,
        p: ParsedLevelPack,
        id: Seq<char>,
        path: Seq<char>,
        min_level_not_completed: usize,
        stats: Seq<(Option<u64>, Option<u32>)>,
    ) -> bool {
        &&& self.name == p.name
        &&& self.id == id
        &&& self.path == path
        &&& opt_nat(self.thumbnail_level_index) == p.thumbnail
        &&& opt_id(self.background_music_id) == p.music
        &&& self.levels == with_stats(p.levels, stats)
        &&& self.levels_wf()
        &&& self.min_level_not_completed == min_level_not_completed
        &&& self.sums_up_to_date()
    }

    /// The pack after completing level `index` in `best_time` milliseconds with
    /// `best_moves` moves: the better value of each is kept and the sums are recomputed.
    pub open spec fn completed(self, index: int, best_time: u64, best_moves: u32) -> LevelPackView {
        let old_level = self.levels[index];
        let new_level = LevelWithStatsView {
            best_time: match old_level.best_time {
                Some(t) => if best_time < t { Some(best_time) } else { Some(t) },
                None => Some(best_time),
            },
            best_moves: match old_level.best_moves {
                Some(m) => if best_moves < m { Some(best_moves) } else { Some(m) },
                None => Some(best_moves),
            },
            ..old_level
        };
        let levels = self.levels.update(index, new_level);
        LevelPackView {
            levels,
            level_pack_best_time_sum: Self::sums_of(levels).0,
            level_pack_best_moves_sum: Self::sums_of(levels).1,
            ..self
        }
    }

    pub open spec fn sums_up_to_date(self) -> bool {
        (self.level_pack_best_time_sum, self.level_pack_best_moves_sum) == Self::sums_of(self.levels)
    }
}

/// A pack of levels with the player's progress and statistics.
#[derive(Debug)]
pub struct LevelPack {
    name: String,
    id: String,
    path: String,
    thumbnail_level_index: Option<usize>,
    background_music_id: Option<BackgroundMusicId>,
    levels: Vec<LevelWithStats>,
    min_level_not_completed: usize,
    level_pack_best_time_sum: Option<u64>,
    level_pack_best_moves_sum: Option<u32>,
}

impl View for LevelPack {
    type V = LevelPackView;

    closed spec fn view(&self) -> LevelPackView {
        LevelPackView {
            name: self.name@,
            id: self.id@,
            path: self.path@,
            thumbnail_level_index: self.thumbnail_level_index,
            background_music_id: self.background_music_id,
            levels: self.levels@.map_values(|l: LevelWithStats| l@),
            min_level_not_completed: self.min_level_not_completed,
            level_pack_best_time_sum: self.level_pack_best_time_sum,
            level_pack_best_moves_sum: self.level_pack_best_moves_sum,
        }
    }
}

impl LevelPack {
    pub const MAX_LEVEL_PACK_NAME_LEN: usize = 25;
    pub const MAX_LEVEL_PACK_COUNT: usize = 190;
    pub const MAX_LEVEL_COUNT_PER_PACK: usize = 190;

    /// An empty level pack.
    pub fn new(name: String, id: String, path: String) -> (res: Self)
        ensures
            res@ == (LevelPackView {
                name: name@,
                id: id@,
                path: path@,
                thumbnail_level_index: None,
                background_music_id: None,
                levels: seq![],
                min_level_not_completed: 0,
                level_pack_best_time_sum: None,
                level_pack_best_moves_sum: None,
            }),
    {
        let res = Self {
            name,
            id,
            path,
            levels: Vec::new(),
            thumbnail_level_index: None,
            background_music_id: None,
            min_level_not_completed: 0,
            level_pack_best_time_sum: None,
            level_pack_best_moves_sum: None,
        };
        assert(res@.levels =~= seq![]);
        res
    }

    pub fn name(&self) -> (res: &str)
        ensures
            res@ == self@.name,
    {
        self.name.as_str()
    }

    pub fn set_name(&mut self, name: String)
        ensures
            final(self)@ == (LevelPackView { name: name@, ..old(self)@ }),
    {
        self.name = name;
    }

    pub fn id(&self) -> (res: &str)
        ensures
            res@ == self@.id,
    {
        self.id.as_str()
    }

    pub fn path(&self) -> (res: &str)
        ensures
            res@ == self@.path,
    {
        self.path.as_str()
    }

    pub fn thumbnail_level_index(&self) -> (res: Option<usize>)
        ensures
            res == self@.thumbnail_level_index,
    {
        self.thumbnail_level_index
    }

    pub fn set_thumbnail_level_index(&mut self, thumbnail_level_index: Option<usize>)
        ensures
            final(self)@ == (LevelPackView { thumbnail_level_index, ..old(self)@ }),
    {
        self.thumbnail_level_index = thumbnail_level_index;
    }

    pub fn background_music_id(&self) -> (res: Option<BackgroundMusicId>)
        ensures
            res == self@.background_music_id,
    {
        self.background_music_id
    }

    pub fn set_background_music_id(&mut self, background_music_id: Option<BackgroundMusicId>)
        ensures
            final(self)@ == (LevelPackView { background_music_id, ..old(self)@ }),
    {
        self.background_music_id = background_music_id;
    }

    pub fn levels(&self) -> (res: &[LevelWithStats])
        ensures
            res@.map_values(|l: LevelWithStats| l@) == self@.levels,
    {
        self.levels.as_slice()
    }

    /// Mutable access to the levels; the sums are not updated.
    pub fn levels_mut(&mut self) -> (res: &mut Vec<LevelWithStats>)
        ensures
            res@.map_values(|l: LevelWithStats| l@) == old(self)@.levels,
            final(self)@ == (LevelPackView { levels: final(res)@.map_values(|l: LevelWithStats| l@), ..old(self)@ }),
    {
        &mut self.levels
    }

    pub fn min_level_not_completed(&self) -> (res: usize)
        ensures
            res == self@.min_level_not_completed,
    {
        self.min_level_not_completed
    }

    pub fn level_pack_best_time_sum(&self) -> (res: Option<u64>)
        ensures
            res == self@.level_pack_best_time_sum,
    {
        self.level_pack_best_time_sum
    }

    pub fn level_pack_best_moves_sum(&self) -> (res: Option<u32>)
        ensures
            res == self@.level_pack_best_moves_sum,
    {
        self.level_pack_best_moves_sum
    }

    pub fn set_min_level_not_completed(&mut self, min_level_not_completed: usize)
        ensures
            final(self)@ == (LevelPackView { min_level_not_completed, ..old(self)@ }),
    {
        self.min_level_not_completed = min_level_not_completed;
    }

    pub fn level_count(&self) -> (res: usize)
        ensures
            res == self@.levels.len(),
    {
        self.levels.len()
    }

    /// Records a completion of level `index` in `best_time` milliseconds with `best_moves`
    /// moves, keeping the better value of each; `None` where there is no such level.
    pub fn update_stats(&mut self, index: usize, best_time: u64, best_moves: u32) -> (res: Option<()>)
        ensures
            index >= old(self)@.levels.len() ==> res is None && final(self)@ == old(self)@,
            index < old(self)@.levels.len() ==> final(self)@ == old(self)@.completed(index as int, best_time, best_moves),
            index < old(self)@.levels.len() ==> {
                let old_level = old(self)@.levels[index as int];
                let new_level = LevelWithStatsView {
                    best_time: match old_level.best_time {
                        Some(t) => if best_time < t { Some(best_time) } else { Some(t) },
                        None => Some(best_time),
                    },
                    best_moves: match old_level.best_moves {
                        Some(m) => if best_moves < m { Some(best_moves) } else { Some(m) },
                        None => Some(best_moves),
                    },
                    ..old_level
                };
                &&& res is Some
                &&& final(self)@.levels == old(self)@.levels.update(index as int, new_level)
                &&& final(self)@.sums_up_to_date()
                &&& final(self)@ == (LevelPackView {
                    levels: final(self)@.levels,
                    level_pack_best_time_sum: final(self)@.level_pack_best_time_sum,
                    level_pack_best_moves_sum: final(self)@.level_pack_best_moves_sum,
                    ..old(self)@
                })
            },
    {
        if index >= self.levels.len() {
            return None;
        }
        let ghost old_levels = self.levels@;
        let level = &self.levels[index];
        let new_best_time = match level.best_time {
            Some(t) => if best_time < t { Some(best_time) } else { Some(t) },
            None => Some(best_time),
        };
        let new_best_moves = match level.best_moves {
            Some(m) => if best_moves < m { Some(best_moves) } else { Some(m) },
            None => Some(best_moves),
        };
        let mut levels: Vec<LevelWithStats> = Vec::new();
        std::mem::swap(&mut levels, &mut self.levels);
        let mut entry = levels.remove(index);
        entry.best_time = new_best_time;
        entry.best_moves = new_best_moves;
        levels.insert(index, entry);
        self.levels = levels;
        assert(self.levels@ =~= old_levels.update(index as int, entry));
        assert(self@.levels =~= old(self)@.levels.update(index as int, entry@));
        self.calculate_stats_sum();
        Some(())
    }

    /// Whether the pack can be played (see [`LevelPackView::playable`]).
    pub fn is_playable(&self) -> (res: bool)
        ensures
            res == self@.playable(),
    {
        let n = self.levels.len();
        if n == 0 || n > 190 {
            return false;
        }
        let mut i: usize = 0;
        while i < n
            invariant
                i <= n == self.levels@.len(),
                forall|k: int| 0 <= k < i ==> (#[trigger] self@.levels[k]).level.wf()
                    && player_count(self@.levels[k].level.tiles) == 1,
            decreases n - i,
        {
            let level = self.levels[i].level();
            assert(self@.levels[i as int] == self.levels@[i as int]@);
            if !level.is_wf() || level.player_count() != 1 {
                return false;
            }
            i += 1;
        }
        true
    }

    /// Adds a level without statistics at the end.
    pub fn add_level(&mut self, level: Level)
        ensures
            final(self)@.levels == old(self)@.levels.push(LevelWithStatsView { level: level@, best_time: None, best_moves: None }),
            final(self)@.sums_up_to_date(),
            final(self)@ == (LevelPackView {
                levels: final(self)@.levels,
                level_pack_best_time_sum: final(self)@.level_pack_best_time_sum,
                level_pack_best_moves_sum: final(self)@.level_pack_best_moves_sum,
                ..old(self)@
            }),
    {
        let entry = LevelWithStats::new(level, None, None);
        self.levels.push(entry);
        assert(self@.levels =~= old(self)@.levels.push(entry@));
        self.calculate_stats_sum();
    }

    /// Recomputes the sums of best times and fewest moves.
    pub(crate) fn calculate_stats_sum(&mut self)
        ensures
            final(self)@.sums_up_to_date(),
            final(self)@ == (LevelPackView {
                level_pack_best_time_sum: final(self)@.level_pack_best_time_sum,
                level_pack_best_moves_sum: final(self)@.level_pack_best_moves_sum,
                ..old(self)@
            }),
    {
        if self.levels.len() == 0 {
            self.level_pack_best_time_sum = None;
            self.level_pack_best_moves_sum = None;
            return;
        }
        let ghost levels = self@.levels;
        let mut time_sum: Option<u64> = Some(0);
        let mut moves_sum: Option<u32> = Some(0);
        let mut i: usize = 0;
        while i < self.levels.len()
            invariant
                i <= self.levels@.len(),
                levels == self@.levels,
                levels.len() == self.levels@.len(),
                time_sum == best_time_sum(levels.take(i as int)),
                moves_sum == best_moves_sum(levels.take(i as int)),
            decreases self.levels@.len() - i,
        {
            let current = &self.levels[i];
            assert(levels.take(i + 1).drop_last() =~= levels.take(i as int));
            assert(levels.take(i + 1).last() == current@);
            time_sum = match (time_sum, current.best_time) {
                (Some(s), Some(t)) => Some(s.wrapping_add(t)),
                _ => None,
            };
            moves_sum = match (moves_sum, current.best_moves) {
                (Some(s), Some(m)) => Some(m.wrapping_add(s)),
                _ => None,
            };
            i += 1;
        }
        assert(levels.take(levels.len() as int) =~= levels);
        self.level_pack_best_time_sum = time_sum;
        self.level_pack_best_moves_sum = moves_sum;
    }
}

impl LevelPack {
    /// Reads a level pack from the text of its file (see [`spec_parse_level_pack`]); the pack
    /// has no progress and no statistics yet. `tracks` are the background music tracks a pack
    /// may name.
    pub fn from_level_pack_data<const N: usize>(
        id: &str,
        path: &str,
        lvl_data: &str,
        editor_level_pack: bool,
        tracks: &BackgroundMusicTracks<N>,
    ) -> (res: Result<Self, LevelPackError>)
        ensures
            match spec_parse_level_pack(id@, path@, lvl_data@, editor_level_pack, tracks.ids()) {
                Ok(p) => res matches Ok(pack) && pack@.loaded(p, id@, path@, 0, no_stats()),
                Err(e) => res matches Err(err) && err@ == e,
            },
            res matches Ok(pack) ==> pack@.levels.len() <= 190,
    {
        let idc = str_chars(id);
        let pathc = str_chars(path);
        let datac = str_chars(lvl_data);
        let (name, thumbnail, music, mut parsed) = match parse_level_pack_text(
            idc.as_slice(),
            pathc.as_slice(),
            datac.as_slice(),
            editor_level_pack,
            tracks,
        ) {
            Ok(r) => r,
            Err(e) => {
                return Err(e);
            },
        };
        let ghost parsed_views = parsed@.map_values(|l: Level| l@);
        let ghost pp = spec_parse_level_pack(id@, path@, lvl_data@, editor_level_pack, tracks.ids())->Ok_0;
        assert(parsed_views =~= pp.levels);
        let n = parsed.len();
        let mut levels: Vec<LevelWithStats> = Vec::new();
        assert forall|k: int| 0 <= k < n implies (#[trigger] parsed_views[k]).wf() by {
            assert(parsed_views[k] == parsed@[k]@);
        }
        while parsed.len() > 0
            invariant
                levels@.len() + parsed@.len() == n,
                parsed_views.len() == n,
                n <= 190,
                forall|k: int| 0 <= k < n ==> (#[trigger] parsed_views[k]).wf(),
                forall|k: int| 0 <= k < parsed@.len() ==> #[trigger] parsed@[k]@ == parsed_views[levels@.len() + k]
                    && parsed@[k]@.wf(),
                forall|k: int| 0 <= k < levels@.len() ==> (#[trigger] levels@[k])@ == (LevelWithStatsView {
                    level: parsed_views[k],
                    best_time: None,
                    best_moves: None,
                }),
            decreases parsed@.len(),
        {
            let ghost before = parsed@;
            let level = parsed.remove(0);
            levels.push(LevelWithStats::new(level, None, None));
            assert forall|k: int| 0 <= k < parsed@.len() implies #[trigger] parsed@[k]@ == parsed_views[levels@.len() + k]
                && parsed@[k]@.wf() by {
                assert(parsed@[k] == before[k + 1]);
            }
        }
        let mut pack = LevelPack {
            name: chars_to_string(name.as_slice()),
            id: String::from_str(id),
            path: String::from_str(path),
            thumbnail_level_index: thumbnail,
            background_music_id: music,
            levels,
            min_level_not_completed: 0,
            level_pack_best_time_sum: None,
            level_pack_best_moves_sum: None,
        };
        pack.calculate_stats_sum();
        assert(pack@.levels =~= with_stats(parsed_views, no_stats()));
        assert(pack@.name == pp.name);
        assert(pack@.levels_wf());
        Ok(pack)
    }

    /// Takes the progress and statistics from the text of a save game (see
    /// [`save_game_stats`]), replacing those the pack had.
    pub fn load_save_game(&mut self, save_game_data: &str, editor_level_pack: bool)
        requires
            old(self)@.levels.len() <= 190,
        ensures
            final(self)@.levels == replace_stats(old(self)@.levels, save_game_stats(save_game_data@, editor_level_pack).1),
            final(self)@.min_level_not_completed == save_game_stats(save_game_data@, editor_level_pack).0,
            final(self)@.sums_up_to_date(),
            final(self)@ == (LevelPackView {
                levels: final(self)@.levels,
                min_level_not_completed: final(self)@.min_level_not_completed,
                level_pack_best_time_sum: final(self)@.level_pack_best_time_sum,
                level_pack_best_moves_sum: final(self)@.level_pack_best_moves_sum,
                ..old(self)@
            }),
    {
        let data = str_chars(save_game_data);
        let (min, stats) = parse_save_game(data.as_slice(), editor_level_pack);
        let ghost old_levels = self@.levels;
        let mut old_vec: Vec<LevelWithStats> = Vec::new();
        std::mem::swap(&mut old_vec, &mut self.levels);
        let ghost ov = old_vec@;
        let n = old_vec.len();
        let mut levels: Vec<LevelWithStats> = Vec::new();
        while old_vec.len() > 0
            invariant
                levels@.len() + old_vec@.len() == n,
                ov.len() == n,
                n <= 190,
                stats@.len() == 190,
                old_levels == ov.map_values(|l: LevelWithStats| l@),
                forall|k: int| 0 <= k < old_vec@.len() ==> #[trigger] old_vec@[k] == ov[levels@.len() + k],
                forall|k: int| 0 <= k < levels@.len() ==> (#[trigger] levels@[k])@ == (LevelWithStatsView {
                    level: ov[k]@.level,
                    best_time: stats@[k].0,
                    best_moves: stats@[k].1,
                }),
            decreases old_vec@.len(),
        {
            let i = levels.len();
            let ghost before = old_vec@;
            let mut entry = old_vec.remove(0);
            assert(entry == ov[i as int]);
            entry.best_time = stats[i].0;
            entry.best_moves = stats[i].1;
            levels.push(entry);
            assert forall|k: int| 0 <= k < old_vec@.len() implies #[trigger] old_vec@[k] == ov[levels@.len() + k] by {
                assert(old_vec@[k] == before[k + 1]);
            }
        }
        self.levels = levels;
        self.min_level_not_completed = min;
        assert(self@.levels =~= replace_stats(old_levels, stats@));
        self.calculate_stats_sum();
    }

    /// Reads a level pack from the text of its file, then its progress and statistics from
    /// its save game, where there is one (`None`: no save game exists).
    pub fn read_from_save_game<const N: usize>(
        id: &str,
        path: &str,
        lvl_data: &str,
        editor_level_pack: bool,
        save_game_data: Option<&str>,
        tracks: &BackgroundMusicTracks<N>,
    ) -> (res: Result<Self, LevelPackError>)
        ensures
            match spec_parse_level_pack(id@, path@, lvl_data@, editor_level_pack, tracks.ids()) {
                Ok(p) => res matches Ok(pack) && match save_game_data {
                    Some(d) => pack@.loaded(
                        p,
                        id@,
                        path@,
                        save_game_stats(d@, editor_level_pack).0,
                        save_game_stats(d@, editor_level_pack).1,
                    ),
                    None => pack@.loaded(p, id@, path@, 0, no_stats()),
                },
                Err(e) => res matches Err(err) && err@ == e,
            },
    {
        let mut pack = match Self::from_level_pack_data(id, path, lvl_data, editor_level_pack, tracks) {
            Ok(p) => p,
            Err(e) => {
                return Err(e);
            },
        };
        match save_game_data {
            Some(d) => {
                let ghost before = pack@;
                pack.load_save_game(d, editor_level_pack);
                proof {
                    let stats = save_game_stats(d@, editor_level_pack).1;
                    let p = spec_parse_level_pack(id@, path@, lvl_data@, editor_level_pack, tracks.ids())->Ok_0;
                    assert(pack@.levels =~= with_stats(p.levels, stats));
                }
            },
            None => {},
        }
        Ok(pack)
    }

    /// The pack in the text form of a level pack file (see [`pack_text`]).
    pub fn export_editor_level_pack_text(&self) -> (res: String)
        requires
            self@.levels_wf(),
        ensures
            res@ == pack_text(self@.name, self@.thumbnail_level_index, self@.background_music_id, self@.levels),
    {
        let mut out: Vec<char> = Vec::new();
        assert forall|k: int| 0 <= k < self.levels@.len() implies (#[trigger] self.levels@[k])@.level.wf() by {
            assert(self@.levels[k] == self.levels@[k]@);
        }
        push_pack_text(&mut out, self.name.as_str(), self.thumbnail_level_index, self.background_music_id, self.levels.as_slice());
        assert(out@ =~= pack_text(self@.name, self@.thumbnail_level_index, self@.background_music_id, self@.levels));
        chars_to_string(out.as_slice())
    }

    /// The save game of the pack (see [`save_game_text`]); an edited pack keeps the
    /// statistics of all its levels.
    pub fn save_game_text(&self, editor_validation: bool) -> (res: String)
        ensures
            res@ == save_game_text(self@.min_level_not_completed, self@.levels, editor_validation),
    {
        let mut out: Vec<char> = Vec::new();
        push_save_game_text(&mut out, self.min_level_not_completed, self.levels.as_slice(), editor_validation);
        assert(out@ =~= save_game_text(self@.min_level_not_completed, self@.levels, editor_validation));
        chars_to_string(out.as_slice())
    }
}

} // verus!
