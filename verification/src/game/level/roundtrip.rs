use vstd::prelude::*;
use crate::game::level::{
    LevelView, Tile, level_text, rows_text, row_chars, tile_char, tile_from_char, utf8_len,
    utf8_len_seq, parse_rows, header_dims, spec_parse_level, spec_tile_to_ascii,
    lemma_tile_ascii_roundtrip, lemma_tile_ascii_not_whitespace,
};
use crate::text::{
    decimal, is_whitespace, trim, strip_cr, lines, lines_from, starts_with, contains,
    is_first_occurrence, occurs_at, is_digit, lemma_decimal_digits, lemma_parse_decimal,
    lemma_trim_identity, lemma_lines_from_append,
};

verus! {

/// The character of a tile is ASCII, no white space, no line break, and reads back as the
/// tile.
pub proof fn lemma_tile_char(t: Tile)
    ensures
        (tile_char(t) as u32) < 128,
        !is_whitespace(tile_char(t)),
        tile_char(t) != '\n',
        tile_char(t) != '\r',
        tile_from_char(tile_char(t)) == Some(t),
        utf8_len(tile_char(t)) == 1,
{
    lemma_tile_ascii_not_whitespace(t);
    lemma_tile_ascii_roundtrip(t);
    let a = spec_tile_to_ascii(t);
    assert((a as char) as u32 == a as u32);
    assert(((a as char) as u32) as u8 == a);
    assert((a as u32) as char == a as char);
}

proof fn lemma_utf8_len_ascii(s: Seq<char>)
    requires
        forall|i: int| 0 <= i < s.len() ==> (s[i] as u32) < 128,
    ensures
        utf8_len_seq(s) == s.len(),
    decreases s.len(),
{
    if s.len() > 0 {
        lemma_utf8_len_ascii(s.drop_last());
    }
}

/// The characters of a row of tiles form a line that reads back as the row.
pub proof fn lemma_row_line(row: Seq<Tile>)
    requires
        row.len() > 0,
    ensures
        forall|i: int| 0 <= i < row_chars(row).len() ==> row_chars(row)[i] != '\n',
        strip_cr(row_chars(row)) == row_chars(row),
        trim(row_chars(row)) == row_chars(row),
        utf8_len_seq(row_chars(row)) == row.len(),
        forall|i: int| 0 <= i < row_chars(row).len() ==> (#[trigger] tile_from_char(row_chars(row)[i])) is Some,
        row_chars(row).map_values(|c: char| tile_from_char(c)->0) == row,
{
    let r = row_chars(row);
    assert forall|i: int| 0 <= i < r.len() implies r[i] == tile_char(row[i]) && r[i] != '\n' && (r[i] as u32) < 128
        && (#[trigger] tile_from_char(r[i])) == Some(row[i]) by {
        lemma_tile_char(row[i]);
    }
    lemma_tile_char(row[0]);
    lemma_tile_char(row.last());
    assert(r.last() == tile_char(row.last()));
    lemma_trim_identity(r);
    lemma_utf8_len_ascii(r);
    assert(r.map_values(|c: char| tile_from_char(c)->0) =~= row);
}

/// The rows of a level of width `w` read back as its tiles.
proof fn lemma_parse_rows_text(tiles: Seq<Tile>, w: nat, k: nat)
    requires
        w > 0,
        tiles.len() == w * k,
    ensures
        parse_rows(lines(rows_text(tiles, w)), w) == Ok::<Seq<Tile>, Seq<char>>(tiles),
    decreases k,
{
    if k == 0 {
        assert(tiles.len() == 0) by (nonlinear_arith)
            requires
                tiles.len() == w * k,
                k == 0,
        ;
        assert(tiles =~= Seq::<Tile>::empty());
        assert(rows_text(tiles, w) == Seq::<char>::empty());
        assert(lines(Seq::<char>::empty()) == Seq::<Seq<char>>::empty());
    } else {
        assert(tiles.len() >= w) by (nonlinear_arith)
            requires
                tiles.len() == w * k,
                k >= 1,
        ;
        let first = tiles.take(w as int);
        let rest = tiles.skip(w as int);
        lemma_row_line(first);
        assert(rest.len() == w * ((k - 1) as nat)) by (nonlinear_arith)
            requires
                rest.len() == tiles.len() - w,
                tiles.len() == w * k,
                k >= 1,
        ;
        lemma_parse_rows_text(rest, w, (k - 1) as nat);
        let rc = row_chars(first);
        let text = rows_text(tiles, w);
        if tiles.len() <= w {
            assert(first =~= tiles);
            assert(rest.len() == 0);
            assert(text == rc.push('\n'));
            assert(rc.push('\n') =~= rc + seq!['\n'] + Seq::<char>::empty());
            assert(rows_text(rest, w) == Seq::<char>::empty());
        } else {
            assert(text == rc.push('\n') + rows_text(rest, w));
            assert(rc.push('\n') + rows_text(rest, w) =~= rc + seq!['\n'] + rows_text(rest, w));
        }
        lemma_lines_from_append(rc, rows_text(rest, w), seq![]);
        assert(seq![] + rc =~= rc);
        let ls = lines(text);
        assert(ls == seq![rc] + lines(rows_text(rest, w)));
        assert(ls[0] == rc);
        assert(ls.drop_first() =~= lines(rows_text(rest, w)));
        assert(first + rest =~= tiles);
        assert(first.len() == w);
        assert(trim(ls[0]) == rc);
        assert(utf8_len_seq(rc) == w);
        assert(parse_rows(ls.drop_first(), w) == Ok::<Seq<Tile>, Seq<char>>(rest));
        assert(parse_rows(ls, w) == Ok::<Seq<Tile>, Seq<char>>(rc.map_values(|c: char| tile_from_char(c)->0) + rest));
    }
}

/// The header line of a level text.
pub open spec fn header_text(w: nat, h: nat) -> Seq<char> {
    "w: "@ + decimal(w) + ", h: "@ + decimal(h)
}

/// Where the parts of a header line stand.
pub proof fn lemma_header_shape(w: nat, h: nat)
    ensures
        header_text(w, h).len() == 3 + decimal(w).len() + 5 + decimal(h).len(),
        header_text(w, h).take(3) == "w: "@,
        header_text(w, h).subrange(3 + decimal(w).len() as int, 3 + decimal(w).len() as int + 5) == ", h: "@,
        header_text(w, h).subrange(3, 3 + decimal(w).len() as int) == decimal(w),
        header_text(w, h).skip(3 + decimal(w).len() as int + 5) == decimal(h),
        header_text(w, h)[0] == 'w',
        header_text(w, h)[1] == ':',
        header_text(w, h)[2] == ' ',
        forall|i: int| 0 <= i < decimal(w).len() ==> header_text(w, h)[3 + i] == #[trigger] decimal(w)[i],
        forall|i: int| 0 <= i < decimal(h).len() ==> header_text(w, h)[3 + decimal(w).len() + 5 + i] == #[trigger] decimal(h)[i],
        forall|i: int| 0 <= i < 5 ==> header_text(w, h)[3 + decimal(w).len() + i] == #[trigger] ", h: "@[i],
{
    reveal_strlit("w: ");
    reveal_strlit(", h: ");
    let dw = decimal(w);
    let dh = decimal(h);
    let s = header_text(w, h);
    let p1 = "w: "@;
    let p2 = ", h: "@;
    assert(s =~= p1 + dw + p2 + dh);
    assert(s.take(3) =~= p1);
    assert(s.subrange(3 + dw.len() as int, 3 + dw.len() as int + 5) =~= p2);
    assert(s.subrange(3, 3 + dw.len() as int) =~= dw);
    assert(s.skip(3 + dw.len() as int + 5) =~= dh);
}

/// The separator of a header line stands after the width, and nowhere before.
pub proof fn lemma_header_separator(w: nat, h: nat)
    ensures
        starts_with(header_text(w, h), "w: "@),
        is_first_occurrence(header_text(w, h), ", h: "@, 3 + decimal(w).len() as int),
{
    lemma_header_shape(w, h);
    lemma_decimal_digits(w);
    let dw = decimal(w);
    let s = header_text(w, h);
    let idx: int = 3 + dw.len() as int;
    reveal_strlit(", h: ");
    assert forall|j: int| 0 <= j < idx implies !occurs_at(s, ", h: "@, j) by {
        if occurs_at(s, ", h: "@, j) {
            assert(s.subrange(j, j + 5)[0] == s[j]);
            if j >= 3 {
                assert(s[3 + (j - 3)] == dw[j - 3]);
                assert(is_digit(dw[j - 3]));
            }
        }
    }
}

/// A header line has no line break, and starts and ends with characters that are no white
/// space.
pub proof fn lemma_header_line(w: nat, h: nat)
    ensures
        forall|i: int| 0 <= i < header_text(w, h).len() ==> header_text(w, h)[i] != '\n',
        strip_cr(header_text(w, h)) == header_text(w, h),
        trim(header_text(w, h)) == header_text(w, h),
{
    lemma_header_shape(w, h);
    lemma_decimal_digits(w);
    lemma_decimal_digits(h);
    let dw = decimal(w);
    let dh = decimal(h);
    let s = header_text(w, h);
    let idx: int = 3 + dw.len() as int;
    reveal_strlit(", h: ");
    assert(s.last() == s[idx + 5 + (dh.len() - 1)]);
    assert(is_digit(dh[dh.len() - 1]));
    lemma_trim_identity(s);
    assert forall|i: int| 0 <= i < s.len() implies s[i] != '\n' by {
        if 3 <= i < idx {
            assert(s[3 + (i - 3)] == dw[i - 3]);
            assert(is_digit(dw[i - 3]));
        } else if idx <= i < idx + 5 {
            assert(s[idx + (i - idx)] == ", h: "@[i - idx]);
        } else if idx + 5 <= i {
            assert(s[idx + 5 + (i - idx - 5)] == dh[i - idx - 5]);
            assert(is_digit(dh[i - idx - 5]));
        }
    }
}

/// The header line of a level reads back as its size.
pub proof fn lemma_header_dims(w: nat, h: nat)
    requires
        w <= usize::MAX,
        h <= usize::MAX,
    ensures
        header_dims(header_text(w, h)) == Some((w, h)),
{
    lemma_header_shape(w, h);
    lemma_header_separator(w, h);
    let s = header_text(w, h);
    let idx: int = 3 + decimal(w).len() as int;
    reveal_strlit(", h: ");
    assert(occurs_at(s, ", h: "@, idx));
    assert(contains(s, ", h: "@));
    let c = choose|i: int| is_first_occurrence(s, ", h: "@, i);
    assert(c == idx) by {
        if c < idx {
            assert(!occurs_at(s, ", h: "@, c));
        } else if c > idx {
            assert(!occurs_at(s, ", h: "@, idx));
        }
    }
    assert(s.skip(idx + 5) == s.subrange(idx + 5, s.len() as int));
    lemma_parse_decimal(w, usize::MAX as nat);
    lemma_parse_decimal(h, usize::MAX as nat);
}

/// Reading the text of a level gives back the level: a level survives being saved and
/// loaded.
pub proof fn lemma_level_text_roundtrip(l: LevelView)
    requires
        l.wf(),
    ensures
        spec_parse_level(level_text(l)) == Ok::<LevelView, Seq<char>>(l),
{
    crate::game::level::lemma_dims_bounded(l);
    lemma_header_dims(l.width, l.height);
    lemma_header_line(l.width, l.height);
    let header = header_text(l.width, l.height);
    let body = rows_text(l.tiles, l.width);
    assert(level_text(l) =~= header + seq!['\n'] + body);
    lemma_lines_from_append(header, body, seq![]);
    assert(seq![] + header =~= header);
    let ls = lines(level_text(l));
    assert(ls == seq![header] + lines(body));
    assert(ls[0] == header);
    assert(ls.drop_first() =~= lines(body));
    assert(l.tiles.len() == l.width * l.height);
    lemma_parse_rows_text(l.tiles, l.width, l.height);
}

/// The rows of a level as lines, as [`rows_text`] writes them.
pub open spec fn rows_of(tiles: Seq<Tile>, w: nat) -> Seq<Seq<char>>
    decreases tiles.len(),
{
    if w == 0 || tiles.len() == 0 {
        seq![]
    } else if tiles.len() <= w {
        seq![row_chars(tiles)]
    } else {
        seq![row_chars(tiles.take(w as int))] + rows_of(tiles.skip(w as int), w)
    }
}

/// The lines of the text of a level: its header, then its rows.
pub open spec fn level_lines(l: LevelView) -> Seq<Seq<char>> {
    seq![header_text(l.width, l.height)] + rows_of(l.tiles, l.width)
}

/// The rows of a level are its lines after the header: one per row, none with a line break
/// or white space at either end, and they read back as the tiles.
pub proof fn lemma_rows_of(tiles: Seq<Tile>, w: nat, k: nat)
    requires
        w > 0,
        tiles.len() == w * k,
    ensures
        lines(rows_text(tiles, w)) == rows_of(tiles, w),
        rows_of(tiles, w).len() == k,
        parse_rows(rows_of(tiles, w), w) == Ok::<Seq<Tile>, Seq<char>>(tiles),
        forall|r: int| 0 <= r < k ==> ({
            let row = #[trigger] rows_of(tiles, w)[r];
            &&& row.len() == w
            &&& (forall|i: int| 0 <= i < row.len() ==> row[i] != '\n')
            &&& strip_cr(row) == row
            &&& trim(row) == row
            &&& !is_whitespace(row[0])
        }),
    decreases k,
{
    lemma_parse_rows_text(tiles, w, k);
    if k == 0 {
        assert(tiles.len() == 0) by (nonlinear_arith)
            requires
                tiles.len() == w * k,
                k == 0,
        ;
        assert(tiles =~= Seq::<Tile>::empty());
        assert(lines(Seq::<char>::empty()) == Seq::<Seq<char>>::empty());
    } else {
        assert(tiles.len() >= w) by (nonlinear_arith)
            requires
                tiles.len() == w * k,
                k >= 1,
        ;
        let first = tiles.take(w as int);
        let rest = tiles.skip(w as int);
        assert(rest.len() == w * ((k - 1) as nat)) by (nonlinear_arith)
            requires
                rest.len() == tiles.len() - w,
                tiles.len() == w * k,
                k >= 1,
        ;
        lemma_rows_of(rest, w, (k - 1) as nat);
        lemma_row_line(first);
        lemma_tile_char(first[0]);
        let rc = row_chars(first);
        assert(rc[0] == tile_char(first[0]));
        if tiles.len() <= w {
            assert(first =~= tiles);
            assert(rows_text(tiles, w) == rc.push('\n'));
            assert(rc.push('\n') =~= rc + seq!['\n'] + Seq::<char>::empty());
            lemma_lines_from_append(rc, Seq::<char>::empty(), seq![]);
            assert(Seq::<char>::empty() + rc =~= rc);
            assert(lines_from(Seq::<char>::empty(), seq![]) == Seq::<Seq<char>>::empty());
            assert(rest.len() == 0);
            assert(k == 1) by (nonlinear_arith)
                requires
                    tiles.len() == w * k,
                    tiles.len() <= w,
                    w > 0,
                    k >= 1,
            ;
        } else {
            assert(rows_text(tiles, w) == rc.push('\n') + rows_text(rest, w));
            assert(rc.push('\n') + rows_text(rest, w) =~= rc + seq!['\n'] + rows_text(rest, w));
            lemma_lines_from_append(rc, rows_text(rest, w), seq![]);
            assert(Seq::<char>::empty() + rc =~= rc);
        }
        assert forall|r: int| 0 <= r < k implies ({
            let row = #[trigger] rows_of(tiles, w)[r];
            &&& row.len() == w
            &&& (forall|i: int| 0 <= i < row.len() ==> row[i] != '\n')
            &&& strip_cr(row) == row
            &&& trim(row) == row
            &&& !is_whitespace(row[0])
        }) by {
            if r > 0 {
                assert(rows_of(tiles, w)[r] == rows_of(rest, w)[r - 1]);
            }
        }
    }
}

/// The lines of the text of a level: a header and one line per row, none empty, with a line
/// break, or with white space at either end.
pub proof fn lemma_level_lines(l: LevelView)
    requires
        l.wf(),
    ensures
        lines(level_text(l)) == level_lines(l),
        level_lines(l).len() == 1 + l.height,
        forall|k: int| 0 <= k < level_lines(l).len() ==> ({
            let line = #[trigger] level_lines(l)[k];
            &&& line.len() > 0
            &&& (forall|i: int| 0 <= i < line.len() ==> line[i] != '\n')
            &&& strip_cr(line) == line
            &&& trim(line) == line
            &&& !is_whitespace(line[0])
        }),
{
    crate::game::level::lemma_dims_bounded(l);
    lemma_header_line(l.width, l.height);
    lemma_header_shape(l.width, l.height);
    lemma_rows_of(l.tiles, l.width, l.height);
    let header = header_text(l.width, l.height);
    let body = rows_text(l.tiles, l.width);
    assert(level_text(l) =~= header + seq!['\n'] + body);
    lemma_lines_from_append(header, body, seq![]);
    assert(seq![] + header =~= header);
    assert forall|k: int| 0 <= k < level_lines(l).len() implies ({
        let line = #[trigger] level_lines(l)[k];
        &&& line.len() > 0
        &&& (forall|i: int| 0 <= i < line.len() ==> line[i] != '\n')
        &&& strip_cr(line) == line
        &&& trim(line) == line
        &&& !is_whitespace(line[0])
    }) by {
        if k == 0 {
            assert(level_lines(l)[0] == header);
            assert(header[0] == 'w');
        } else {
            assert(level_lines(l)[k] == rows_of(l.tiles, l.width)[k - 1]);
        }
    }
}

} // verus!
