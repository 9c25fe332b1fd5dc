use vstd::prelude::*;
use crate::game::level_pack::LevelWithStatsView;
use crate::game::level_pack::format::{
    save_game_stats, save_game_text, stat_body, stat_line, stat_text, stats_text, comma_tokens,
    single_comma_at, nonblank, join_lines, levels_text, level_header_height, spec_pack_level,
    spec_pack_levels, pack_text, pack_header_text, spec_pack_header, spec_parse_level_pack,
    header_name_stage, header_thumbnail_stage, header_music_stage, header_count_stage, PackHeader,
    ParsedLevelPack, LevelPackErrorView, has_track, opt_id,
};
use crate::game::audio::BackgroundMusicId;
use crate::game::level::utf8_len_seq;
use crate::game::level::{LevelView, level_text, spec_parse_level, header_dims, rows_text};
use crate::game::level::roundtrip::{
    level_lines, header_text, rows_of, lemma_level_lines, lemma_header_dims, lemma_header_shape,
    lemma_header_separator, lemma_rows_of,
};
use crate::text::{
    decimal, signed_decimal, is_digit, is_whitespace, trim, strip_cr, lines, lines_from, starts_with,
    parse_unsigned, unsigned_digits, is_first_occurrence, occurs_at, contains, lemma_decimal_digits, lemma_parse_decimal, lemma_trim_identity,
    lemma_lines_from_append, lemma_lines_from_concat,
};

verus! {

/// The best time and fewest moves of a level fit the signed numbers they are saved as.
pub open spec fn stats_fit(l: LevelWithStatsView) -> bool {
    &&& (l.best_time matches Some(t) ==> t < 0x8000_0000_0000_0000)
    &&& (l.best_moves matches Some(m) ==> m < 0x8000_0000)
}

/// A saved value reads back: a number gives itself, `-1` gives nothing.
proof fn lemma_signed_value(x: int, max: nat)
    requires
        0 <= x <= max || x == -1,
    ensures
        parse_unsigned(signed_decimal(x), max) == (if x >= 0 { Some(x as nat) } else { None::<nat> }),
        forall|i: int| 0 <= i < signed_decimal(x).len() ==> #[trigger] signed_decimal(x)[i] != ','
            && signed_decimal(x)[i] != '\n' && !is_whitespace(signed_decimal(x)[i]),
        signed_decimal(x).len() > 0,
{
    if x >= 0 {
        let n = x as nat;
        lemma_decimal_digits(n);
        lemma_parse_decimal(n, max);
        assert forall|i: int| 0 <= i < decimal(n).len() implies #[trigger] decimal(n)[i] != ',' && decimal(n)[i] != '\n'
            && !is_whitespace(decimal(n)[i]) by {
            assert(is_digit(decimal(n)[i]));
        }
    } else {
        let s = signed_decimal(-1);
        lemma_decimal_digits(1);
        assert(decimal(1) == seq!['1']);
        assert(s =~= seq!['-', '1']);
        assert(unsigned_digits(s) == s);
        assert(!is_digit(s[0]));
    }
}

/// The line of a level reads back as its statistics.
proof fn lemma_stat_line(l: LevelWithStatsView)
    requires
        stats_fit(l),
    ensures
        stat_line(stat_body(l)) == (l.best_time, l.best_moves),
        forall|i: int| 0 <= i < stat_body(l).len() ==> stat_body(l)[i] != '\n',
{
    reveal_strlit("ms");
    let ti: int = match l.best_time {
        Some(t) => (t as i64) as int,
        None => -1,
    };
    let mi: int = match l.best_moves {
        Some(m) => (m as i32) as int,
        None => -1,
    };
    lemma_signed_value(ti, u64::MAX as nat);
    lemma_signed_value(mi, u32::MAX as nat);
    let a = signed_decimal(ti);
    let b = signed_decimal(mi);
    let body = stat_body(l);
    assert(body =~= "ms"@ + (a + seq![','] + b));
    assert(body[0] == 'm');
    assert(body.last() == b.last());
    lemma_trim_identity(body);
    assert(starts_with(body, "ms"@)) by {
        assert(body.take(2) =~= "ms"@);
    }
    let rest = body.skip(2);
    assert(rest =~= a + seq![','] + b);
    let k = a.len() as int;
    assert(single_comma_at(rest, k)) by {
        assert forall|j: int| 0 <= j < rest.len() && j != k implies rest[j] != ',' by {
            if j < k {
                assert(rest[j] == a[j]);
            } else {
                assert(rest[j] == b[j - k - 1]);
            }
        }
    }
    let c = choose|c: int| single_comma_at(rest, c);
    assert(c == k) by {
        if c != k {
            assert(rest[c] != ',');
        }
    }
    assert(rest.take(k) =~= a);
    assert(rest.skip(k + 1) =~= b);
    assert(comma_tokens(rest) == Some((a, b)));
    match l.best_time {
        Some(t) => {
            assert(parse_unsigned(a, u64::MAX as nat) == Some(t as nat));
        },
        None => {},
    }
    match l.best_moves {
        Some(m) => {
            assert(parse_unsigned(b, u32::MAX as nat) == Some(m as nat));
        },
        None => {},
    }
    assert forall|i: int| 0 <= i < body.len() implies body[i] != '\n' by {
        if i >= 2 {
            assert(body[i] == rest[i - 2]);
            if i - 2 < k {
                assert(rest[i - 2] == a[i - 2]);
            } else if i - 2 > k {
                assert(rest[i - 2] == b[i - 2 - k - 1]);
            }
        }
    }
}

/// The lines of the save game lines of some levels: one per level.
proof fn lemma_stats_lines(levels: Seq<LevelWithStatsView>)
    requires
        forall|k: int| 0 <= k < levels.len() ==> stats_fit(#[trigger] levels[k]),
    ensures
        lines(stats_text(levels)) == levels.map_values(|l: LevelWithStatsView| stat_body(l)),
    decreases levels.len(),
{
    if levels.len() > 0 {
        let init = levels.drop_last();
        lemma_stats_lines(init);
        let l = levels.last();
        lemma_stat_line(l);
        let x = stats_text(init);
        let body = stat_body(l);
        lemma_lines_from_append(body, Seq::<char>::empty(), seq![]);
        assert(body + seq!['\n'] + Seq::<char>::empty() =~= stat_text(l));
        assert(Seq::<char>::empty() + body =~= body);
        assert(strip_cr(body) == body) by {
            if body.len() > 0 {
                assert(body.last() != '\r') by {
                    lemma_stat_line_last(l);
                }
            }
        }
        assert(lines_from(Seq::<char>::empty(), seq![]) == Seq::<Seq<char>>::empty());
        assert(lines(stat_text(l)) =~= seq![body]);
        if x.len() > 0 {
            lemma_stats_text_ends(init);
            lemma_lines_from_concat(x, stat_text(l), seq![]);
        } else {
            assert(x + stat_text(l) =~= stat_text(l));
            assert(lines(x) == Seq::<Seq<char>>::empty());
        }
        assert(stats_text(levels) == x + stat_text(l));
        assert(levels.map_values(|l: LevelWithStatsView| stat_body(l)) =~= init.map_values(
            |l: LevelWithStatsView| stat_body(l),
        ).push(body));
    } else {
        assert(levels.map_values(|l: LevelWithStatsView| stat_body(l)) =~= Seq::<Seq<char>>::empty());
    }
}

proof fn lemma_stat_line_last(l: LevelWithStatsView)
    ensures
        stat_body(l).last() != '\r',
        stat_body(l).len() > 0,
{
    let ti: int = match l.best_time {
        Some(t) => (t as i64) as int,
        None => -1,
    };
    let mi: int = match l.best_moves {
        Some(m) => (m as i32) as int,
        None => -1,
    };
    let b = signed_decimal(mi);
    if mi < 0 {
        lemma_decimal_digits((-mi) as nat);
        let d = decimal((-mi) as nat);
        assert(b.last() == d.last());
        assert(is_digit(d[d.len() - 1]));
    } else {
        lemma_decimal_digits(mi as nat);
        let d = decimal(mi as nat);
        assert(is_digit(d[d.len() - 1]));
    }
    assert(stat_body(l).last() == b.last());
}

proof fn lemma_stats_text_ends(levels: Seq<LevelWithStatsView>)
    ensures
        stats_text(levels).len() > 0 ==> stats_text(levels).last() == '\n',
    decreases levels.len(),
{
    if levels.len() > 0 {
        assert(stat_text(levels.last()).last() == '\n');
    }
}

/// Saving the progress and statistics of a pack and reading them back gives them back: the
/// first level not completed yet and the statistics of the levels before it, where best
/// times stay below 2^63 and fewest moves below 2^31 (larger values are saved wrapped
/// around).
pub proof fn lemma_save_game_roundtrip(min_level_not_completed: usize, levels: Seq<LevelWithStatsView>)
    requires
        forall|k: int| 0 <= k < levels.len() ==> stats_fit(#[trigger] levels[k]),
    ensures
        save_game_stats(save_game_text(min_level_not_completed, levels, false), false).0 == min_level_not_completed,
        forall|i: int| 0 <= i < 190 ==> #[trigger] save_game_stats(
            save_game_text(min_level_not_completed, levels, false),
            false,
        ).1[i] == (if i < min_level_not_completed && i < levels.len() {
            (levels[i].best_time, levels[i].best_moves)
        } else {
            (None::<u64>, None::<u32>)
        }),
{
    let count: int = if min_level_not_completed < levels.len() {
        min_level_not_completed as int
    } else {
        levels.len() as int
    };
    let saved = levels.take(count);
    assert forall|k: int| 0 <= k < saved.len() implies stats_fit(#[trigger] saved[k]) by {
        assert(saved[k] == levels[k]);
    }
    lemma_stats_lines(saved);
    let first = decimal(min_level_not_completed as nat);
    lemma_decimal_digits(min_level_not_completed as nat);
    assert forall|i: int| 0 <= i < first.len() implies first[i] != '\n' by {
        assert(is_digit(first[i]));
    }
    let text = save_game_text(min_level_not_completed, levels, false);
    lemma_lines_from_append(first, stats_text(saved), seq![]);
    assert(Seq::<char>::empty() + first =~= first);
    assert(is_digit(first[first.len() - 1]));
    assert(strip_cr(first) == first);
    lemma_trim_identity(first);
    lemma_parse_decimal(min_level_not_completed as nat, usize::MAX as nat);
    let ls = lines(text);
    assert(ls == seq![first] + saved.map_values(|l: LevelWithStatsView| stat_body(l)));
    assert(ls[0] == first);
    let r = save_game_stats(text, false);
    assert forall|i: int| 0 <= i < 190 implies #[trigger] r.1[i] == (if i < min_level_not_completed && i < levels.len() {
        (levels[i].best_time, levels[i].best_moves)
    } else {
        (None::<u64>, None::<u32>)
    }) by {
        if i < count {
            assert(ls[i + 1] == stat_body(levels[i]));
            lemma_stat_line(levels[i]);
        }
    }
}

/// Saving the statistics of an edited pack and reading them back gives them back, where
/// best times stay below 2^63 and fewest moves below 2^31.
pub proof fn lemma_editor_save_game_roundtrip(min_level_not_completed: usize, levels: Seq<LevelWithStatsView>)
    requires
        levels.len() <= 190,
        forall|k: int| 0 <= k < levels.len() ==> stats_fit(#[trigger] levels[k]),
    ensures
        save_game_stats(save_game_text(min_level_not_completed, levels, true), true).0 == 0,
        forall|i: int| 0 <= i < 190 ==> #[trigger] save_game_stats(
            save_game_text(min_level_not_completed, levels, true),
            true,
        ).1[i] == (if i < levels.len() {
            (levels[i].best_time, levels[i].best_moves)
        } else {
            (None::<u64>, None::<u32>)
        }),
{
    lemma_stats_lines(levels);
    let ls = lines(save_game_text(min_level_not_completed, levels, true));
    let r = save_game_stats(save_game_text(min_level_not_completed, levels, true), true);
    if levels.len() == 0 {
        assert(ls.len() == 0);
    }
    assert forall|i: int| 0 <= i < 190 implies #[trigger] r.1[i] == (if i < levels.len() {
        (levels[i].best_time, levels[i].best_moves)
    } else {
        (None::<u64>, None::<u32>)
    }) by {
        if i < levels.len() {
            assert(ls[i] == stat_body(levels[i]));
            lemma_stat_line(levels[i]);
        }
    }
}

/// A text without line breaks is one line, where it is not empty.
proof fn lemma_lines_of_line(a: Seq<char>, cur: Seq<char>)
    requires
        forall|i: int| 0 <= i < a.len() ==> a[i] != '\n',
        (cur + a).len() > 0,
    ensures
        lines_from(a, cur) == seq![cur + a],
    decreases a.len(),
{
    if a.len() == 0 {
        assert(cur + a =~= cur);
    } else {
        assert(a.drop_first().len() < a.len());
        lemma_lines_of_line(a.drop_first(), cur.push(a[0]));
        assert(cur.push(a[0]) + a.drop_first() =~= cur + a);
    }
}

/// Lines without line breaks, none ending with a carriage return.
pub open spec fn plain_lines(ls: Seq<Seq<char>>) -> bool {
    forall|k: int| 0 <= k < ls.len() ==> {
        &&& (forall|i: int| 0 <= i < ls[k].len() ==> #[trigger] ls[k][i] != '\n')
        &&& strip_cr(#[trigger] ls[k]) == ls[k]
    }
}

/// Joining lines and splitting the text again gives the lines back.
proof fn lemma_join_lines(ls: Seq<Seq<char>>)
    requires
        ls.len() >= 1,
        plain_lines(ls),
    ensures
        lines(join_lines(ls) + seq!['\n']) == ls,
        ls.last().len() > 0 ==> lines(join_lines(ls)) == ls,
    decreases ls.len(),
{
    if ls.len() == 1 {
        let a = ls[0];
        assert(join_lines(ls) == a);
        lemma_lines_from_append(a, Seq::<char>::empty(), seq![]);
        assert(a + seq!['\n'] + Seq::<char>::empty() =~= a + seq!['\n']);
        assert(Seq::<char>::empty() + a =~= a);
        assert(lines_from(Seq::<char>::empty(), seq![]) == Seq::<Seq<char>>::empty());
        assert(ls =~= seq![a]);
        if a.len() > 0 {
            lemma_lines_of_line(a, seq![]);
        }
    } else {
        let init = ls.drop_last();
        let last = ls.last();
        assert(plain_lines(init)) by {
            assert forall|k: int| 0 <= k < init.len() implies {
                &&& (forall|i: int| 0 <= i < init[k].len() ==> #[trigger] init[k][i] != '\n')
                &&& strip_cr(#[trigger] init[k]) == init[k]
            } by {
                assert(init[k] == ls[k]);
            }
        }
        lemma_join_lines(init);
        let x = join_lines(init) + seq!['\n'];
        assert(join_lines(ls) == join_lines(init) + seq!['\n'] + last);
        assert(forall|i: int| 0 <= i < last.len() ==> last[i] != '\n') by {
            assert(last == ls[ls.len() - 1]);
        }
        assert(strip_cr(last) == last);
        lemma_lines_from_concat(x, last + seq!['\n'], seq![]);
        assert(x + (last + seq!['\n']) =~= join_lines(ls) + seq!['\n']);
        lemma_lines_from_append(last, Seq::<char>::empty(), seq![]);
        assert(last + seq!['\n'] + Seq::<char>::empty() =~= last + seq!['\n']);
        assert(Seq::<char>::empty() + last =~= last);
        assert(lines_from(Seq::<char>::empty(), seq![]) == Seq::<Seq<char>>::empty());
        assert(init + seq![last] =~= ls);
        if last.len() > 0 {
            lemma_lines_from_concat(x, last, seq![]);
            assert(x + last =~= join_lines(ls));
            lemma_lines_of_line(last, seq![]);
            assert(Seq::<char>::empty() + last =~= last);
        }
    }
}

/// The first line of a level in a pack gives its height.
proof fn lemma_level_header_height(w: nat, h: nat)
    requires
        h <= usize::MAX,
    ensures
        level_header_height(header_text(w, h)) == Some(h),
{
    lemma_header_shape(w, h);
    lemma_header_separator(w, h);
    let s = header_text(w, h);
    let idx: int = 3 + decimal(w).len() as int;
    reveal_strlit(", h: ");
    assert(occurs_at(s, ", h: "@, idx));
    assert(contains(s, ", h: "@));
    let c = choose|i: int| is_first_occurrence(s, ", h: "@, i);
    assert(c == idx) by {
        if c < idx {
            assert(!occurs_at(s, ", h: "@, c));
        } else if c > idx {
            assert(!occurs_at(s, ", h: "@, idx));
        }
    }
    lemma_parse_decimal(h, usize::MAX as nat);
}

/// A level reads back from its lines in a level pack, followed by any lines.
proof fn lemma_level_in_pack(
    path: Seq<char>,
    id: Seq<char>,
    editor: bool,
    l: LevelView,
    rest: Seq<Seq<char>>,
    n: nat,
    count: nat,
)
    requires
        l.wf(),
        !editor ==> crate::game::level::player_count(l.tiles) == 1,
    ensures
        spec_pack_level(path, id, editor, level_lines(l) + rest, n, count) == Ok::<(LevelView, nat), crate::game::level_pack::format::LevelPackErrorView>(
            (l, 1 + l.height),
        ),
{
    crate::game::level::lemma_dims_bounded(l);
    lemma_level_lines(l);
    let ll = level_lines(l);
    let ls = ll + rest;
    assert(ls[0] == header_text(l.width, l.height));
    lemma_level_header_height(l.width, l.height);
    assert(ls.take((1 + l.height) as int) =~= ll);
    assert(plain_lines(ll)) by {
        assert forall|k: int| 0 <= k < ll.len() implies {
            &&& (forall|i: int| 0 <= i < ll[k].len() ==> #[trigger] ll[k][i] != '\n')
            &&& strip_cr(#[trigger] ll[k]) == ll[k]
        } by {
            assert(ll[k] == level_lines(l)[k]);
        }
    }
    assert(ll.last().len() > 0) by {
        assert(ll.last() == level_lines(l)[ll.len() - 1]);
    }
    lemma_join_lines(ll);
    lemma_header_dims(l.width, l.height);
    lemma_rows_of(l.tiles, l.width, l.height);
    assert(ll[0] == header_text(l.width, l.height));
    assert(trim(ll[0]) == ll[0]) by {
        assert(ll[0] == level_lines(l)[0]);
    }
    assert(ll.drop_first() =~= rows_of(l.tiles, l.width));
    assert(spec_parse_level(join_lines(ll)) == Ok::<LevelView, Seq<char>>(l));
}

/// The lines of the levels of a pack, one level after the other.
pub open spec fn flat_level_lines(levels: Seq<LevelView>) -> Seq<Seq<char>>
    decreases levels.len(),
{
    if levels.len() == 0 {
        seq![]
    } else {
        level_lines(levels[0]) + flat_level_lines(levels.drop_first())
    }
}

proof fn lemma_flat_push(levels: Seq<LevelView>, l: LevelView)
    ensures
        flat_level_lines(levels.push(l)) == flat_level_lines(levels) + level_lines(l),
    decreases levels.len(),
{
    let e = Seq::<Seq<char>>::empty();
    if levels.len() == 0 {
        assert(levels.push(l).drop_first() =~= Seq::<LevelView>::empty());
        assert(levels.push(l)[0] == l);
        assert(flat_level_lines(Seq::<LevelView>::empty()) == e);
        assert(flat_level_lines(levels) == e);
        assert(flat_level_lines(levels.push(l)) == level_lines(l) + e);
        assert(level_lines(l) + e =~= level_lines(l));
        assert(e + level_lines(l) =~= level_lines(l));
    } else {
        assert(levels.push(l).drop_first() =~= levels.drop_first().push(l));
        lemma_flat_push(levels.drop_first(), l);
        assert(levels.push(l)[0] == levels[0]);
        assert(flat_level_lines(levels.push(l)) == level_lines(levels[0]) + flat_level_lines(
            levels.drop_first().push(l),
        ));
        assert(level_lines(levels[0]) + (flat_level_lines(levels.drop_first()) + level_lines(l))
            =~= (level_lines(levels[0]) + flat_level_lines(levels.drop_first())) + level_lines(l));
    }
}

/// The levels of a pack read back from their lines.
proof fn lemma_pack_levels(path: Seq<char>, id: Seq<char>, editor: bool, levels: Seq<LevelView>, i: nat)
    requires
        forall|k: int| 0 <= k < levels.len() ==> (#[trigger] levels[k]).wf(),
        !editor ==> forall|k: int| 0 <= k < levels.len() ==> crate::game::level::player_count(
            (#[trigger] levels[k]).tiles,
        ) == 1,
    ensures
        spec_pack_levels(path, id, editor, flat_level_lines(levels), i, i + levels.len())
            == Ok::<Seq<LevelView>, crate::game::level_pack::format::LevelPackErrorView>(levels),
    decreases levels.len(),
{
    if levels.len() == 0 {
        assert(flat_level_lines(levels) == Seq::<Seq<char>>::empty());
        assert(levels =~= Seq::<LevelView>::empty());
    } else {
        let l = levels[0];
        let rest = levels.drop_first();
        assert forall|k: int| 0 <= k < rest.len() implies (#[trigger] rest[k]).wf() by {
            assert(rest[k] == levels[k + 1]);
        }
        if !editor {
            assert forall|k: int| 0 <= k < rest.len() implies crate::game::level::player_count(
                (#[trigger] rest[k]).tiles,
            ) == 1 by {
                assert(rest[k] == levels[k + 1]);
            }
        }
        lemma_pack_levels(path, id, editor, rest, i + 1);
        lemma_level_in_pack(path, id, editor, l, flat_level_lines(rest), i + 1, i + levels.len());
        let fl = flat_level_lines(levels);
        assert(fl == level_lines(l) + flat_level_lines(rest));
        lemma_level_lines(l);
        assert(fl.skip((1 + l.height) as int) =~= flat_level_lines(rest));
        assert(seq![l] + rest =~= levels);
    }
}

/// The lines of the levels of a pack as they are written: an empty line before each level.
pub open spec fn level_block(levels: Seq<LevelView>) -> Seq<Seq<char>>
    decreases levels.len(),
{
    if levels.len() == 0 {
        seq![]
    } else {
        level_block(levels.drop_last()) + seq![Seq::<char>::empty()] + level_lines(levels.last())
    }
}

proof fn lemma_level_text_ends(l: LevelView)
    requires
        l.wf(),
    ensures
        level_text(l).len() > 0,
        level_text(l).last() == '\n',
{
    crate::game::level::lemma_dims_bounded(l);
    lemma_rows_of(l.tiles, l.width, l.height);
    let body = rows_text(l.tiles, l.width);
    assert(l.tiles.len() >= l.width) by (nonlinear_arith)
        requires
            l.tiles.len() == l.width * l.height,
            l.height >= 1,
    ;
    if l.tiles.len() <= l.width {
        assert(body == crate::game::level::row_chars(l.tiles).push('\n'));
    } else {
        lemma_rows_text_ends(l.tiles.skip(l.width as int), l.width);
        assert(body == crate::game::level::row_chars(l.tiles.take(l.width as int)).push('\n') + rows_text(
            l.tiles.skip(l.width as int),
            l.width,
        ));
    }
    assert(level_text(l) =~= header_text(l.width, l.height) + seq!['\n'] + body);
}

proof fn lemma_rows_text_ends(tiles: Seq<crate::game::level::Tile>, w: nat)
    ensures
        rows_text(tiles, w).len() > 0 ==> rows_text(tiles, w).last() == '\n',
    decreases tiles.len(),
{
    if w > 0 && tiles.len() > w {
        lemma_rows_text_ends(tiles.skip(w as int), w);
    }
}

/// The lines of the levels as a pack writes them.
proof fn lemma_levels_text_lines(levels: Seq<LevelWithStatsView>)
    requires
        forall|k: int| 0 <= k < levels.len() ==> (#[trigger] levels[k]).level.wf(),
    ensures
        lines(levels_text(levels)) == level_block(levels.map_values(|l: LevelWithStatsView| l.level)),
    decreases levels.len(),
{
    let lv = levels.map_values(|l: LevelWithStatsView| l.level);
    if levels.len() == 0 {
        assert(levels_text(levels) == Seq::<char>::empty());
        assert(lines(Seq::<char>::empty()) == Seq::<Seq<char>>::empty());
    } else {
        let init = levels.drop_last();
        let last = levels.last();
        assert forall|k: int| 0 <= k < init.len() implies (#[trigger] init[k]).level.wf() by {
            assert(init[k] == levels[k]);
        }
        lemma_levels_text_lines(init);
        assert(init.map_values(|l: LevelWithStatsView| l.level) =~= lv.drop_last());
        assert(lv.last() == last.level);
        let lt = level_text(last.level);
        lemma_level_lines(last.level);
        let e = Seq::<char>::empty();
        lemma_lines_from_append(e, lt, seq![]);
        assert(e + seq!['\n'] + lt =~= seq!['\n'] + lt);
        assert(Seq::<char>::empty() + e =~= e);
        assert(strip_cr(e) == e);
        let x = levels_text(init);
        if x.len() > 0 {
            assert(init.len() > 0);
            lemma_level_text_ends(init.last().level);
            assert(x.last() == lt_of(init).last()) by {
                assert(x == levels_text(init.drop_last()) + seq!['\n'] + level_text(init.last().level));
            }
            lemma_lines_from_concat(x, seq!['\n'] + lt, seq![]);
            assert(levels_text(levels) =~= x + (seq!['\n'] + lt));
        } else {
            assert(levels_text(levels) =~= seq!['\n'] + lt);
            assert(lines(x) == Seq::<Seq<char>>::empty());
            assert(level_block(lv.drop_last()) == lines(x));
        }
    }
}

spec fn lt_of(levels: Seq<LevelWithStatsView>) -> Seq<char> {
    level_text(levels.last().level)
}

proof fn lemma_nonblank_append(a: Seq<Seq<char>>, b: Seq<Seq<char>>)
    ensures
        nonblank(a + b) == nonblank(a) + nonblank(b),
    decreases b.len(),
{
    if b.len() == 0 {
        assert(a + b =~= a);
        assert(nonblank(a) + Seq::<Seq<char>>::empty() =~= nonblank(a));
    } else {
        lemma_nonblank_append(a, b.drop_last());
        assert((a + b).drop_last() =~= a + b.drop_last());
        assert((a + b).last() == b.last());
        if trim(b.last()).len() > 0 {
            assert(nonblank(a) + nonblank(b.drop_last()).push(b.last()) =~= (nonblank(a) + nonblank(
                b.drop_last(),
            )).push(b.last()));
        }
    }
}

proof fn lemma_nonblank_all(ls: Seq<Seq<char>>)
    requires
        forall|k: int| 0 <= k < ls.len() ==> trim(#[trigger] ls[k]).len() > 0,
    ensures
        nonblank(ls) == ls,
    decreases ls.len(),
{
    if ls.len() > 0 {
        assert forall|k: int| 0 <= k < ls.drop_last().len() implies trim(#[trigger] ls.drop_last()[k]).len() > 0 by {
            assert(ls.drop_last()[k] == ls[k]);
        }
        lemma_nonblank_all(ls.drop_last());
        assert(trim(ls[ls.len() - 1]).len() > 0);
        assert(ls.drop_last().push(ls.last()) =~= ls);
    }
}

/// The non-blank lines of the levels of a pack are the lines of the levels.
proof fn lemma_level_block_nonblank(levels: Seq<LevelView>)
    requires
        forall|k: int| 0 <= k < levels.len() ==> (#[trigger] levels[k]).wf(),
    ensures
        nonblank(level_block(levels)) == flat_level_lines(levels),
    decreases levels.len(),
{
    if levels.len() == 0 {
        assert(nonblank(Seq::<Seq<char>>::empty()) == Seq::<Seq<char>>::empty());
        assert(flat_level_lines(levels) == Seq::<Seq<char>>::empty());
    } else {
        let init = levels.drop_last();
        let l = levels.last();
        assert forall|k: int| 0 <= k < init.len() implies (#[trigger] init[k]).wf() by {
            assert(init[k] == levels[k]);
        }
        lemma_level_block_nonblank(init);
        let e = Seq::<char>::empty();
        lemma_nonblank_append(level_block(init) + seq![e], level_lines(l));
        lemma_nonblank_append(level_block(init), seq![e]);
        assert(seq![e].drop_last() =~= Seq::<Seq<char>>::empty());
        assert(trim(e).len() == 0);
        assert(seq![e].last() == e);
        assert(nonblank(Seq::<Seq<char>>::empty()) == Seq::<Seq<char>>::empty());
        assert(nonblank(seq![e]) == nonblank(seq![e].drop_last()));
        assert(nonblank(seq![e]) == Seq::<Seq<char>>::empty());
        lemma_level_lines(l);
        assert forall|k: int| 0 <= k < level_lines(l).len() implies trim(#[trigger] level_lines(l)[k]).len() > 0 by {}
        lemma_nonblank_all(level_lines(l));
        lemma_flat_push(init, l);
        assert(init.push(l) =~= levels);
        assert(flat_level_lines(init) + Seq::<Seq<char>>::empty() =~= flat_level_lines(init));
    }
}

/// The line of a header of a pack with a prefix and a number.
pub open spec fn numbered_line(prefix: Seq<char>, v: nat) -> Seq<char> {
    prefix + decimal(v)
}

/// The lines of the header of a pack file as it is written.
pub open spec fn pack_header_lines(
    name: Seq<char>,
    thumbnail: Option<usize>,
    music: Option<BackgroundMusicId>,
    count: nat,
) -> Seq<Seq<char>> {
    seq!["Name: "@ + name] + (match thumbnail {
        Some(t) => if t < count {
            seq![numbered_line("Thumbnail Level: "@, t as nat)]
        } else {
            seq![]
        },
        None => seq![],
    }) + (match music {
        Some(m) => seq![numbered_line("Background Music: "@, m@ as nat)],
        None => seq![],
    }) + seq![numbered_line("Levels: "@, count)]
}

/// A numbered header line: no line break, no white space at either end, and its number
/// after the prefix.
proof fn lemma_numbered_line(prefix: Seq<char>, v: nat)
    requires
        prefix.len() > 0,
        !is_whitespace(prefix[0]),
        forall|i: int| 0 <= i < prefix.len() ==> prefix[i] != '\n',
    ensures
        forall|i: int| 0 <= i < numbered_line(prefix, v).len() ==> numbered_line(prefix, v)[i] != '\n',
        strip_cr(numbered_line(prefix, v)) == numbered_line(prefix, v),
        trim(numbered_line(prefix, v)) == numbered_line(prefix, v),
        starts_with(numbered_line(prefix, v), prefix),
        numbered_line(prefix, v).skip(prefix.len() as int) == decimal(v),
        numbered_line(prefix, v)[0] == prefix[0],
{
    lemma_decimal_digits(v);
    let d = decimal(v);
    let line = numbered_line(prefix, v);
    assert(line.last() == d[d.len() - 1]);
    assert(is_digit(d[d.len() - 1]));
    lemma_trim_identity(line);
    assert(line.take(prefix.len() as int) =~= prefix);
    assert(line.skip(prefix.len() as int) =~= d);
    assert forall|i: int| 0 <= i < line.len() implies line[i] != '\n' by {
        if i >= prefix.len() {
            assert(line[i] == d[i - prefix.len()]);
            assert(is_digit(d[i - prefix.len()]));
        }
    }
}

proof fn lemma_prefixes()
    ensures
        "Name: "@.len() == 6,
        "Thumbnail Level: "@.len() == 17,
        "Background Music: "@.len() == 18,
        "Levels: "@.len() == 8,
        "Name: "@[0] == 'N',
        "Thumbnail Level: "@[0] == 'T',
        "Background Music: "@[0] == 'B',
        "Levels: "@[0] == 'L',
        forall|i: int| 0 <= i < 17 ==> "Thumbnail Level: "@[i] != '\n',
        forall|i: int| 0 <= i < 18 ==> "Background Music: "@[i] != '\n',
        forall|i: int| 0 <= i < 8 ==> "Levels: "@[i] != '\n',
        forall|i: int| 0 <= i < 6 ==> "Name: "@[i] != '\n',
{
    reveal_strlit("Name: ");
    reveal_strlit("Thumbnail Level: ");
    reveal_strlit("Background Music: ");
    reveal_strlit("Levels: ");
}

/// Lines starting with different characters do not share a prefix.
proof fn lemma_not_prefix(line: Seq<char>, prefix: Seq<char>)
    requires
        line.len() > 0,
        prefix.len() > 0,
        line[0] != prefix[0],
    ensures
        !starts_with(line, prefix),
{
    if starts_with(line, prefix) {
        assert(line.take(prefix.len() as int)[0] == line[0]);
    }
}

/// The count line of a pack header reads back.
proof fn lemma_count_stage(
    path: Seq<char>,
    name: Option<Seq<char>>,
    thumbnail: Option<nat>,
    music: Option<nat>,
    count: nat,
    rest: Seq<Seq<char>>,
)
    requires
        count <= 190,
        thumbnail matches Some(t) ==> t < count,
    ensures
        header_count_stage(path, name, thumbnail, music, numbered_line("Levels: "@, count), rest)
            == Ok::<PackHeader, LevelPackErrorView>(PackHeader { name, thumbnail, music, level_count: count, rest }),
{
    lemma_prefixes();
    lemma_numbered_line("Levels: "@, count);
    lemma_parse_decimal(count, usize::MAX as nat);
}

/// The music line of a pack header, where there is one, reads back.
proof fn lemma_music_stage(
    path: Seq<char>,
    name: Option<Seq<char>>,
    thumbnail: Option<nat>,
    music: Option<BackgroundMusicId>,
    count: nat,
    block: Seq<Seq<char>>,
    ids: Seq<BackgroundMusicId>,
)
    requires
        count <= 190,
        thumbnail matches Some(t) ==> t < count,
        music matches Some(m) ==> has_track(ids, m@ as nat),
    ensures
        ({
            let ls = (match music {
                Some(m) => seq![numbered_line("Background Music: "@, m@ as nat)],
                None => seq![],
            }) + seq![numbered_line("Levels: "@, count)] + block;
            header_music_stage(path, name, thumbnail, trim(ls[0]), ls.drop_first(), ids)
                == Ok::<PackHeader, LevelPackErrorView>(PackHeader {
                    name,
                    thumbnail,
                    music: opt_id(music),
                    level_count: count,
                    rest: block,
                })
        }),
{
    lemma_prefixes();
    lemma_numbered_line("Levels: "@, count);
    let cl = numbered_line("Levels: "@, count);
    match music {
        Some(m) => {
            lemma_numbered_line("Background Music: "@, m@ as nat);
            let ml = numbered_line("Background Music: "@, m@ as nat);
            let ls = seq![ml] + seq![cl] + block;
            assert(ls[0] == ml);
            assert(ls.drop_first() =~= seq![cl] + block);
            assert(ls.drop_first()[0] == cl);
            assert(ls.drop_first().drop_first() =~= block);
            assert(trim(ml.skip(18)) == decimal(m@ as nat)) by {
                lemma_decimal_digits(m@ as nat);
                let d = decimal(m@ as nat);
                assert(is_digit(d[0]));
                assert(is_digit(d[d.len() - 1]));
                lemma_trim_identity(d);
            }
            lemma_parse_decimal(m@ as nat, usize::MAX as nat);
            lemma_count_stage(path, name, thumbnail, Some(m@ as nat), count, block);
        },
        None => {
            let ls = seq![cl] + block;
            assert((Seq::<Seq<char>>::empty() + seq![cl] + block) =~= ls);
            assert(ls[0] == cl);
            assert(ls.drop_first() =~= block);
            lemma_not_prefix(cl, "Background Music: "@);
            lemma_count_stage(path, name, thumbnail, None, count, block);
        },
    }
}

/// The thumbnail line of a pack header, where there is one, reads back.
proof fn lemma_thumbnail_stage(
    path: Seq<char>,
    name: Option<Seq<char>>,
    thumbnail: Option<usize>,
    music: Option<BackgroundMusicId>,
    count: nat,
    block: Seq<Seq<char>>,
    ids: Seq<BackgroundMusicId>,
)
    requires
        count <= 190,
        music matches Some(m) ==> has_track(ids, m@ as nat),
    ensures
        ({
            let tl = match thumbnail {
                Some(t) => if t < count {
                    seq![numbered_line("Thumbnail Level: "@, t as nat)]
                } else {
                    seq![]
                },
                None => seq![],
            };
            let ml = match music {
                Some(m) => seq![numbered_line("Background Music: "@, m@ as nat)],
                None => seq![],
            };
            let ls = tl + ml + seq![numbered_line("Levels: "@, count)] + block;
            header_thumbnail_stage(path, name, trim(ls[0]), ls.drop_first(), ids)
                == Ok::<PackHeader, LevelPackErrorView>(PackHeader {
                    name,
                    thumbnail: match thumbnail {
                        Some(t) => if t < count { Some(t as nat) } else { None },
                        None => None,
                    },
                    music: opt_id(music),
                    level_count: count,
                    rest: block,
                })
        }),
{
    lemma_prefixes();
    lemma_numbered_line("Levels: "@, count);
    let cl = numbered_line("Levels: "@, count);
    let ml = match music {
        Some(m) => seq![numbered_line("Background Music: "@, m@ as nat)],
        None => Seq::<Seq<char>>::empty(),
    };
    let after = ml + seq![cl] + block;
    match music {
        Some(m) => {
            lemma_numbered_line("Background Music: "@, m@ as nat);
            assert(after[0] == numbered_line("Background Music: "@, m@ as nat));
        },
        None => {
            assert(after[0] == cl);
        },
    }
    let thumb_kept = match thumbnail {
        Some(t) => t < count,
        None => false,
    };
    if thumb_kept {
        let t = thumbnail->0;
        lemma_numbered_line("Thumbnail Level: "@, t as nat);
        let tl = numbered_line("Thumbnail Level: "@, t as nat);
        let ls = seq![tl] + ml + seq![cl] + block;
        assert(ls[0] == tl);
        assert(ls.drop_first() =~= after);
        assert(trim(tl.skip(17)) == decimal(t as nat)) by {
            lemma_decimal_digits(t as nat);
            let d = decimal(t as nat);
            assert(is_digit(d[0]));
            assert(is_digit(d[d.len() - 1]));
            lemma_trim_identity(d);
        }
        lemma_parse_decimal(t as nat, usize::MAX as nat);
        lemma_music_stage(path, name, Some(t as nat), music, count, block, ids);
        assert(after.drop_first() == (ml + seq![cl] + block).drop_first());
    } else {
        let ls = Seq::<Seq<char>>::empty() + ml + seq![cl] + block;
        assert(ls =~= after);
        lemma_not_prefix(after[0], "Thumbnail Level: "@);
        lemma_music_stage(path, name, None, music, count, block, ids);
    }
}

/// The lines of a pack header as it is written.
proof fn lemma_pack_header_lines(name: Seq<char>, thumbnail: Option<usize>, music: Option<BackgroundMusicId>, count: nat)
    requires
        name.len() > 0,
        trim(name) == name,
        forall|i: int| 0 <= i < name.len() ==> name[i] != '\n',
    ensures
        lines(pack_header_text(name, thumbnail, music, count)) == pack_header_lines(name, thumbnail, music, count),
        pack_header_text(name, thumbnail, music, count).len() > 0,
        pack_header_text(name, thumbnail, music, count).last() == '\n',
{
    lemma_prefixes();
    let nl = "Name: "@ + name;
    let tp = match thumbnail {
        Some(t) => if t < count {
            "Thumbnail Level: "@ + decimal(t as nat) + seq!['\n']
        } else {
            Seq::<char>::empty()
        },
        None => Seq::<char>::empty(),
    };
    let mp = match music {
        Some(m) => "Background Music: "@ + decimal(m@ as nat) + seq!['\n'],
        None => Seq::<char>::empty(),
    };
    let cl = numbered_line("Levels: "@, count);
    let e = Seq::<char>::empty();
    let text = pack_header_text(name, thumbnail, music, count);
    assert(text =~= nl + seq!['\n'] + (tp + mp + cl + seq!['\n']));
    assert forall|i: int| 0 <= i < nl.len() implies nl[i] != '\n' by {
        if i >= 6 {
            assert(nl[i] == name[i - 6]);
        }
    }
    assert(nl.last() == name.last());
    crate::text::lemma_trimmed_ends(name);
    lemma_lines_from_append(nl, tp + mp + cl + seq!['\n'], seq![]);
    assert(e + nl =~= nl);
    lemma_numbered_line("Levels: "@, count);
    lemma_lines_from_append(cl, e, seq![]);
    assert(cl + seq!['\n'] + e =~= cl + seq!['\n']);
    assert(e + cl =~= cl);
    assert(lines_from(e, seq![]) == Seq::<Seq<char>>::empty());
    let ml_lines = match music {
        Some(m) => seq![numbered_line("Background Music: "@, m@ as nat)],
        None => Seq::<Seq<char>>::empty(),
    };
    assert(lines(mp + cl + seq!['\n']) == ml_lines + seq![cl]) by {
        match music {
            Some(m) => {
                let ml = numbered_line("Background Music: "@, m@ as nat);
                lemma_numbered_line("Background Music: "@, m@ as nat);
                assert(mp + cl + seq!['\n'] =~= ml + seq!['\n'] + (cl + seq!['\n']));
                lemma_lines_from_append(ml, cl + seq!['\n'], seq![]);
                assert(e + ml =~= ml);
            },
            None => {
                assert(mp + cl + seq!['\n'] =~= cl + seq!['\n']);
                assert(ml_lines + seq![cl] =~= seq![cl]);
            },
        }
    }
    let tl_lines = match thumbnail {
        Some(t) => if t < count {
            seq![numbered_line("Thumbnail Level: "@, t as nat)]
        } else {
            Seq::<Seq<char>>::empty()
        },
        None => Seq::<Seq<char>>::empty(),
    };
    assert(lines(tp + mp + cl + seq!['\n']) == tl_lines + ml_lines + seq![cl]) by {
        if tp.len() > 0 {
            let t = thumbnail->0;
            let tl = numbered_line("Thumbnail Level: "@, t as nat);
            lemma_numbered_line("Thumbnail Level: "@, t as nat);
            assert(tp + mp + cl + seq!['\n'] =~= tl + seq!['\n'] + (mp + cl + seq!['\n']));
            lemma_lines_from_append(tl, mp + cl + seq!['\n'], seq![]);
            assert(e + tl =~= tl);
            assert(seq![tl] + (ml_lines + seq![cl]) =~= tl_lines + ml_lines + seq![cl]);
        } else {
            assert(tp + mp + cl + seq!['\n'] =~= mp + cl + seq!['\n']);
            assert(tl_lines + ml_lines + seq![cl] =~= ml_lines + seq![cl]);
        }
    }
    assert(pack_header_lines(name, thumbnail, music, count) =~= seq![nl] + (tl_lines + ml_lines + seq![cl]));
}

/// Writing a pack in the text form of a level pack file and reading it back gives the pack
/// back: its name, its levels, its music and its thumbnail level (dropped where there is no
/// such level). The name must be trimmed, not empty, without line breaks and of at most 25
/// bytes; the music a known track; the levels at most 190, each a well-formed level, and
/// for a pack that is not edited at least one, each with exactly one player.
pub proof fn lemma_pack_text_roundtrip(
    id: Seq<char>,
    path: Seq<char>,
    editor: bool,
    name: Seq<char>,
    thumbnail: Option<usize>,
    music: Option<BackgroundMusicId>,
    levels: Seq<LevelWithStatsView>,
    ids: Seq<BackgroundMusicId>,
)
    requires
        name.len() > 0,
        trim(name) == name,
        forall|i: int| 0 <= i < name.len() ==> name[i] != '\n',
        utf8_len_seq(name) <= 25,
        levels.len() <= 190,
        forall|k: int| 0 <= k < levels.len() ==> (#[trigger] levels[k]).level.wf(),
        music matches Some(m) ==> has_track(ids, m@ as nat),
        !editor ==> levels.len() > 0,
        !editor ==> forall|k: int| 0 <= k < levels.len() ==> crate::game::level::player_count(
            (#[trigger] levels[k]).level.tiles,
        ) == 1,
    ensures
        spec_parse_level_pack(id, path, pack_text(name, thumbnail, music, levels), editor, ids)
            == Ok::<ParsedLevelPack, LevelPackErrorView>(ParsedLevelPack {
                name,
                thumbnail: match thumbnail {
                    Some(t) => if t < levels.len() { Some(t as nat) } else { None },
                    None => None,
                },
                music: opt_id(music),
                levels: levels.map_values(|l: LevelWithStatsView| l.level),
            }),
{
    lemma_prefixes();
    let n = levels.len();
    let lv = levels.map_values(|l: LevelWithStatsView| l.level);
    assert forall|k: int| 0 <= k < lv.len() implies (#[trigger] lv[k]).wf() by {
        assert(lv[k] == levels[k].level);
    }
    lemma_pack_header_lines(name, thumbnail, music, n);
    lemma_levels_text_lines(levels);
    let ht = pack_header_text(name, thumbnail, music, n);
    lemma_lines_from_concat(ht, levels_text(levels), seq![]);
    let block = level_block(lv);
    let hl = pack_header_lines(name, thumbnail, music, n);
    let ls = lines(pack_text(name, thumbnail, music, levels));
    assert(ls == hl + block);
    let nl = "Name: "@ + name;
    assert(ls[0] == nl);
    assert(nl[0] == 'N');
    assert(nl.last() == name.last());
    assert(trim(nl) == nl) by {
        crate::text::lemma_trimmed_ends(name);
        lemma_trim_identity(nl);
    }
    assert(starts_with(nl, "Name: "@)) by {
        assert(nl.take(6) =~= "Name: "@);
    }
    assert(nl.skip(6) =~= name);
    let tl = match thumbnail {
        Some(t) => if t < n {
            seq![numbered_line("Thumbnail Level: "@, t as nat)]
        } else {
            Seq::<Seq<char>>::empty()
        },
        None => Seq::<Seq<char>>::empty(),
    };
    let ml = match music {
        Some(m) => seq![numbered_line("Background Music: "@, m@ as nat)],
        None => Seq::<Seq<char>>::empty(),
    };
    assert(ls.drop_first() =~= tl + ml + seq![numbered_line("Levels: "@, n)] + block);
    lemma_thumbnail_stage(path, Some(name), thumbnail, music, n, block, ids);
    lemma_level_block_nonblank(lv);
    if !editor {
        assert forall|k: int| 0 <= k < lv.len() implies crate::game::level::player_count((#[trigger] lv[k]).tiles) == 1 by {
            assert(lv[k] == levels[k].level);
        }
    }
    lemma_pack_levels(path, id, editor, lv, 0);
    assert(lv.len() == n);
}

} // verus!
