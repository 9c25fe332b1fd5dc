use vstd::prelude::*;
use crate::io::console::{Color, Key};
use crate::text::{
    is_whitespace, trim, trim_start, split, str_chars, trim_chars, chars_to_string, split_chars, sub_chars,
    char_is_whitespace, lemma_trim_start_skip, lemma_trim_start_suffix, lemma_trim_idempotent,
};

verus! {

/// The kind of a dialog.
#[derive(Debug, Clone, Copy, PartialEq, Eq, Structural, Hash)]
pub enum DialogType {
    Information,
    Error,
}

impl DialogType {
    /// The color of the message: black for information, light red for an error.
    pub fn text_color(self) -> (res: Color)
        ensures
            res == (match self {
                DialogType::Information => Color::Black,
                DialogType::Error => Color::LightRed,
            }),
    {
        match self {
            DialogType::Information => Color::Black,
            DialogType::Error => Color::LightRed,
        }
    }
}

/// What the player chose in a dialog.
#[derive(Debug, Clone, Copy, PartialEq, Eq, Structural, Hash)]
pub enum DialogSelection {
    No,
    Yes,
    Okay,
    Cancel,
}

/// The model of a dialog option.
pub struct DialogOptionView {
    pub text: Seq<char>,
    pub action: DialogSelection,
    pub keys: Seq<Key>,
}

/// A button of a dialog: its text, what it stands for and the keys that choose it.
#[derive(Debug, Clone)]
pub struct DialogOption {
    text: &'static str,
    action: DialogSelection,
    keys: Vec<Key>,
}

impl View for DialogOption {
    type V = DialogOptionView;

    closed spec fn view(&self) -> DialogOptionView {
        DialogOptionView { text: self.text@, action: self.action, keys: self.keys@ }
    }
}

impl DialogOption {
    pub fn new(text: &'static str, action: DialogSelection, keys: Vec<Key>) -> (res: Self)
        ensures
            res@ == (DialogOptionView { text: text@, action, keys: keys@ }),
    {
        DialogOption { text, action, keys }
    }

    /// `[O]k`, chosen by O, enter, space or escape.
    pub fn ok() -> (res: Self)
        ensures
            res@.text == "[O]k"@,
            res@.action == DialogSelection::Okay,
            res@.keys == seq![
                Key::from_code_spec(Key::O),
                Key::from_code_spec(Key::ENTER),
                Key::from_code_spec(Key::SPACE),
                Key::from_code_spec(Key::ESC),
            ],
    {
        let keys = vec![
            Key::from_code(Key::O),
            Key::from_code(Key::ENTER),
            Key::from_code(Key::SPACE),
            Key::from_code(Key::ESC),
        ];
        Self::new("[O]k", DialogSelection::Okay, keys)
    }

    /// `[Y]es`, chosen by Y.
    pub fn yes() -> (res: Self)
        ensures
            res@.text == "[Y]es"@,
            res@.action == DialogSelection::Yes,
            res@.keys == seq![Key::from_code_spec(Key::Y)],
    {
        let keys = vec![Key::from_code(Key::Y)];
        Self::new("[Y]es", DialogSelection::Yes, keys)
    }

    /// `[N]o`, chosen by N.
    pub fn no() -> (res: Self)
        ensures
            res@.text == "[N]o"@,
            res@.action == DialogSelection::No,
            res@.keys == seq![Key::from_code_spec(Key::N)],
    {
        let keys = vec![Key::from_code(Key::N)];
        Self::new("[N]o", DialogSelection::No, keys)
    }

    /// `[C]ancel`, chosen by C or escape.
    pub fn cancel() -> (res: Self)
        ensures
            res@.text == "[C]ancel"@,
            res@.action == DialogSelection::Cancel,
            res@.keys == seq![Key::from_code_spec(Key::C), Key::from_code_spec(Key::ESC)],
    {
        let keys = vec![Key::from_code(Key::C), Key::from_code(Key::ESC)];
        Self::new("[C]ancel", DialogSelection::Cancel, keys)
    }

    pub fn text(&self) -> (res: &'static str)
        ensures
            res@ == self@.text,
    {
        self.text
    }

    pub fn action(&self) -> (res: DialogSelection)
        ensures
            res == self@.action,
    {
        self.action
    }

    pub fn keys(&self) -> (res: &[Key])
        ensures
            res@ == self@.keys,
    {
        self.keys.as_slice()
    }
}

/// Characters a line of a dialog is best broken after (class 1), then these of class 2,
/// then those of class 3.
pub open spec fn is_break_char(c: char, class: int) -> bool {
    if class == 1 {
        c == ' ' || c == ',' || c == ';' || c == '.' || c == '!' || c == '?'
    } else if class == 2 {
        c == '-' || c == '='
    } else {
        c == '\\' || c == '/' || c == ':'
    }
}

/// The last position before `n` of a break character of a class.
pub open spec fn last_break(t: Seq<char>, n: int, class: int) -> Option<int>
    decreases n,
{
    if n <= 0 {
        None
    } else if is_break_char(t[n - 1], class) {
        Some(n - 1)
    } else {
        last_break(t, n - 1, class)
    }
}

/// Where a line of more than `width` characters is broken: after the last break character
/// of class 1 among its first `width` characters, else of class 2, else of class 3.
pub open spec fn break_pos(t: Seq<char>, width: int) -> Option<int> {
    match last_break(t, width, 1) {
        Some(i) => Some(i),
        None => match last_break(t, width, 2) {
            Some(i) => Some(i),
            None => last_break(t, width, 3),
        },
    }
}

/// Wrapping the rest of a line from position `start` into rows of at most `width`
/// characters, each trimmed: a row longer than `width` loses its leading white space, is
/// broken (see [`break_pos`]) or else cut after `width` characters. `None` where what is left
/// after the leading white space is shorter than `width`.
pub open spec fn wrap_line(line: Seq<char>, start: int, width: int) -> Option<Seq<Seq<char>>>
    decreases line.len() - start,
{
    if !(0 <= start <= line.len() && width > 0) {
        None
    } else {
        let rest = line.skip(start);
        if rest.len() <= width {
            Some(seq![trim(rest)])
        } else {
            let t = trim_start(rest);
            proof {
                lemma_trim_start_suffix(rest);
            }
            let s2 = start + (rest.len() - t.len());
            if t.len() < width {
                None
            } else {
                let (piece, next) = match break_pos(t, width) {
                    Some(i) => (t.take(i + 1), s2 + i + 1),
                    None => (t.take(width), s2 + width),
                };
                proof {
                    lemma_break_pos_bounds(t, width);
                }
                match wrap_line(line, next, width) {
                    Some(r) => Some(seq![trim(piece)] + r),
                    None => None,
                }
            }
        }
    }
}

/// A break position lies before `n`, at a break character.
pub proof fn lemma_last_break_bounds(t: Seq<char>, n: int, class: int)
    ensures
        last_break(t, n, class) matches Some(i) ==> 0 <= i < n && is_break_char(t[i], class),
    decreases n,
{
    if n > 0 && !is_break_char(t[n - 1], class) {
        lemma_last_break_bounds(t, n - 1, class);
    }
}

/// A line is broken inside its first `width` characters.
pub proof fn lemma_break_pos_bounds(t: Seq<char>, width: int)
    ensures
        break_pos(t, width) matches Some(i) ==> 0 <= i < width,
{
    lemma_last_break_bounds(t, width, 1);
    lemma_last_break_bounds(t, width, 2);
    lemma_last_break_bounds(t, width, 3);
}

/// Wrapping each line of `segs` in turn.
pub open spec fn wrap_lines(segs: Seq<Seq<char>>, width: int) -> Option<Seq<Seq<char>>>
    decreases segs.len(),
{
    if segs.len() == 0 {
        Some(seq![])
    } else {
        match (wrap_lines(segs.drop_last(), width), wrap_line(segs.last(), 0, width)) {
            (Some(a), Some(b)) => Some(a + b),
            _ => None,
        }
    }
}

/// The rows of a dialog message at most `width` characters wide: a message that fits in
/// one row and has no line break is its own row; otherwise each of its lines is wrapped
/// (see [`wrap_line`]).
pub open spec fn split_message(message: Seq<char>, width: int) -> Option<Seq<Seq<char>>> {
    if message.len() <= width && !message.contains('\n') {
        Some(seq![message])
    } else {
        wrap_lines(split(message, '\n'), width)
    }
}

/// Every row is at most `width` characters long and has no leading or trailing white space.
pub open spec fn trimmed_rows_within(rows: Seq<Seq<char>>, width: int) -> bool {
    forall|k: int| 0 <= k < rows.len() ==> #[trigger] rows[k].len() <= width && trim(rows[k]) == rows[k]
}

/// Each row of a wrapped line is at most `width` characters long and has no leading or
/// trailing white space.
proof fn lemma_wrap_line_rows(line: Seq<char>, start: int, width: int)
    ensures
        wrap_line(line, start, width) is Some ==> trimmed_rows_within(wrap_line(line, start, width)->0, width),
    decreases line.len() - start,
{
    if 0 <= start <= line.len() && width > 0 {
        let rest = line.skip(start);
        if rest.len() <= width {
            lemma_trim_idempotent(rest);
        } else {
            let t = trim_start(rest);
            lemma_trim_start_suffix(rest);
            lemma_break_pos_bounds(t, width);
            let s2 = start + (rest.len() - t.len());
            if t.len() >= width {
                let (piece, next) = match break_pos(t, width) {
                    Some(i) => (t.take(i + 1), s2 + i + 1),
                    None => (t.take(width), s2 + width),
                };
                lemma_trim_idempotent(piece);
                lemma_wrap_line_rows(line, next, width);
                if let Some(r) = wrap_line(line, next, width) {
                    let rows = seq![trim(piece)] + r;
                    assert forall|k: int| 0 <= k < rows.len() implies #[trigger] rows[k].len() <= width
                        && trim(rows[k]) == rows[k] by {
                        if k > 0 {
                            assert(rows[k] == r[k - 1]);
                        }
                    }
                }
            }
        }
    }
}

/// Each row of the wrapped lines is at most `width` characters long and has no leading or
/// trailing white space.
proof fn lemma_wrap_lines_rows(segs: Seq<Seq<char>>, width: int)
    ensures
        wrap_lines(segs, width) is Some ==> trimmed_rows_within(wrap_lines(segs, width)->0, width),
    decreases segs.len(),
{
    if segs.len() > 0 {
        lemma_wrap_lines_rows(segs.drop_last(), width);
        lemma_wrap_line_rows(segs.last(), 0, width);
        if let (Some(a), Some(b)) = (wrap_lines(segs.drop_last(), width), wrap_line(segs.last(), 0, width)) {
            let rows = a + b;
            assert forall|k: int| 0 <= k < rows.len() implies #[trigger] rows[k].len() <= width && trim(rows[k])
                == rows[k] by {
                if k >= a.len() {
                    assert(rows[k] == b[k - a.len()]);
                } else {
                    assert(rows[k] == a[k]);
                }
            }
        }
    }
}

/// Every row of a laid-out message fits in the width; a message that has to be wrapped
/// (it is too long or has a line break) is cut into rows without leading or trailing
/// white space.
pub proof fn lemma_split_message_rows(message: Seq<char>, width: int)
    ensures
        split_message(message, width) is Some ==> forall|k: int|
            0 <= k < split_message(message, width)->0.len() ==> #[trigger] split_message(message, width)->0[k].len()
                <= width,
        split_message(message, width) is Some && (message.len() > width || message.contains('\n'))
            ==> trimmed_rows_within(split_message(message, width)->0, width),
{
    if message.len() <= width && !message.contains('\n') {
        assert(seq![message][0] == message);
    } else {
        lemma_wrap_lines_rows(split(message, '\n'), width);
    }
}

/// Every character is an ASCII character.
pub open spec fn is_ascii(s: Seq<char>) -> bool {
    forall|i: int| 0 <= i < s.len() ==> (s[i] as u32) < 128
}

/// The last position before `n` of a break character of a class (see [`last_break`]).
fn find_last_break(line: &[char], from: usize, n: usize, class: u8) -> (res: Option<usize>)
    requires
        from + n <= line@.len(),
        1 <= class <= 3,
    ensures
        res == (match last_break(line@.skip(from as int), n as int, class as int) {
            Some(i) => Some(i as usize),
            None => None::<usize>,
        }),
{
    let ghost t = line@.skip(from as int);
    let len = line.len();
    let mut k = n;
    while k > 0
        invariant
            k <= n,
            from + n <= line@.len(),
            len == line@.len(),
            t == line@.skip(from as int),
            1 <= class <= 3,
            last_break(t, n as int, class as int) == last_break(t, k as int, class as int),
        decreases k,
    {
        let c = line[from + k - 1];
        assert(t[k - 1] == c);
        let hit = if class == 1 {
            c == ' ' || c == ',' || c == ';' || c == '.' || c == '!' || c == '?'
        } else if class == 2 {
            c == '-' || c == '='
        } else {
            c == '\\' || c == '/' || c == ':'
        };
        if hit {
            return Some(k - 1);
        }
        k -= 1;
    }
    None
}

/// Wraps the line `line` into rows of at most `width` characters and appends them to `out`
/// (see [`wrap_line`]).
fn push_wrapped_line(line: &[char], width: usize, out: &mut Vec<Vec<char>>) -> (ok: bool)
    ensures
        ok == wrap_line(line@, 0, width as int) is Some,
        ok ==> final(out)@.len() == old(out)@.len() + wrap_line(line@, 0, width as int)->0.len(),
        ok ==> forall|k: int| 0 <= k < old(out)@.len() ==> #[trigger] final(out)@[k] == old(out)@[k],
        ok ==> forall|k: int| 0 <= k < wrap_line(line@, 0, width as int)->0.len()
            ==> #[trigger] final(out)@[old(out)@.len() + k]@ == wrap_line(line@, 0, width as int)->0[k],
{
    if width == 0 {
        return false;
    }
    let ghost all = wrap_line(line@, 0, width as int)->0;
    let ghost orig = out@;
    let ghost base = orig.len();
    let ghost mut done: Seq<Seq<char>> = seq![];
    let mut start: usize = 0;
    loop
        invariant
            start <= line@.len(),
            width > 0,
            out@.len() == base + done.len(),
            orig == old(out)@,
            base == orig.len(),
            all == wrap_line(line@, 0, width as int)->0,
            forall|k: int| 0 <= k < base ==> #[trigger] out@[k] == orig[k],
            forall|k: int| 0 <= k < done.len() ==> #[trigger] out@[base + k]@ == done[k],
            (wrap_line(line@, 0, width as int) is Some) == (wrap_line(line@, start as int, width as int) is Some),
            wrap_line(line@, start as int, width as int) is Some ==> all == done + wrap_line(
                line@,
                start as int,
                width as int,
            )->0,
        decreases line@.len() - start,
    {
        let ghost rest = line@.skip(start as int);
        if line.len() - start <= width {
            let piece = sub_chars(line, start, line.len());
            assert(piece@ =~= rest);
            let row = trim_chars(piece.as_slice());
            proof {
                done = done.push(row@);
            }
            out.push(row);
            assert(all =~= done);
            return true;
        }
        let mut k = start;
        while k < line.len() && char_is_whitespace(line[k])
            invariant
                start <= k <= line@.len(),
                rest == line@.skip(start as int),
                trim_start(rest) == trim_start(line@.skip(k as int)),
            decreases line@.len() - k,
        {
            proof {
                lemma_trim_start_skip(line@, k as int);
            }
            k += 1;
        }
        proof {
            lemma_trim_start_skip(line@, k as int);
            lemma_trim_start_suffix(rest);
        }
        let ghost t = trim_start(rest);
        assert(t == line@.skip(k as int));
        if line.len() - k < width {
            return false;
        }
        let brk = match find_last_break(line, k, width, 1) {
            Some(i) => Some(i),
            None => match find_last_break(line, k, width, 2) {
                Some(i) => Some(i),
                None => find_last_break(line, k, width, 3),
            },
        };
        proof {
            lemma_break_pos_bounds(t, width as int);
        }
        let (piece_len, next) = match brk {
            Some(i) => (i + 1, k + i + 1),
            None => (width, k + width),
        };
        let piece = sub_chars(line, k, k + piece_len);
        assert(piece@ =~= t.take(piece_len as int));
        let row = trim_chars(piece.as_slice());
        proof {
            done = done.push(row@);
        }
        out.push(row);
        assert(wrap_line(line@, next as int, width as int) is Some ==> all =~= done + wrap_line(
            line@,
            next as int,
            width as int,
        )->0);
        start = next;
    }
}

/// Whether every character is an ASCII character.
fn chars_ascii(s: &[char]) -> (res: bool)
    ensures
        res == is_ascii(s@),
{
    let mut i: usize = 0;
    while i < s.len()
        invariant
            i <= s@.len(),
            forall|j: int| 0 <= j < i ==> (s@[j] as u32) < 128,
        decreases s@.len() - i,
    {
        if (s[i] as u32) >= 128 {
            return false;
        }
        i += 1;
    }
    true
}

/// The rows of a message (see [`split_message`]).
fn split_message_rows(message: &[char], width: usize) -> (res: Option<Vec<Vec<char>>>)
    ensures
        res is Some == split_message(message@, width as int) is Some,
        res matches Some(rows) ==> rows@.len() == split_message(message@, width as int)->0.len(),
        res matches Some(rows) ==> forall|k: int| 0 <= k < rows@.len() ==> #[trigger] rows@[k]@ == split_message(
            message@,
            width as int,
        )->0[k],
{
    let mut has_newline = false;
    let mut i: usize = 0;
    while i < message.len()
        invariant
            i <= message@.len(),
            has_newline == (exists|j: int| 0 <= j < i && message@[j] == '\n'),
        decreases message@.len() - i,
    {
        if message[i] == '\n' {
            has_newline = true;
        }
        i += 1;
    }
    assert(has_newline == message@.contains('\n'));
    if message.len() <= width && !has_newline {
        let row = sub_chars(message, 0, message.len());
        assert(row@ =~= message@);
        return Some(vec![row]);
    }
    let segs = split_chars(message, '\n');
    let ghost segv = split(message@, '\n');
    let mut out: Vec<Vec<char>> = Vec::new();
    let mut j: usize = 0;
    assert(segv.take(0) =~= Seq::<Seq<char>>::empty());
    while j < segs.len()
        invariant
            j <= segs@.len() == segv.len(),
            segv == split(message@, '\n'),
            forall|k: int| 0 <= k < segs@.len() ==> #[trigger] segs@[k]@ == segv[k],
            wrap_lines(segv.take(j as int), width as int) is Some,
            !(message@.len() <= width && !message@.contains('\n')),
            out@.len() == wrap_lines(segv.take(j as int), width as int)->0.len(),
            forall|k: int| 0 <= k < out@.len() ==> #[trigger] out@[k]@ == wrap_lines(segv.take(j as int), width as int)->0[k],
        decreases segs@.len() - j,
    {
        let ghost before = out@;
        assert(segv.take(j + 1).drop_last() =~= segv.take(j as int));
        assert(segv.take(j + 1).last() == segv[j as int]);
        if !push_wrapped_line(segs[j].as_slice(), width, &mut out) {
            proof {
                assert(segs@[j as int]@ == segv[j as int]);
                assert(wrap_line(segv[j as int], 0, width as int) is None);
                if wrap_lines(segv, width as int) is Some {
                    lemma_wrap_lines_prefix(segv, width as int, segv.len() as int);
                    assert(wrap_lines(segv.take(j + 1), width as int) is Some);
                }
                assert(split_message(message@, width as int) == wrap_lines(segv, width as int));
            }
            return None;
        }
        j += 1;
        proof {
            let a = wrap_lines(segv.take(j - 1), width as int)->0;
            let b = wrap_line(segv[j - 1], 0, width as int)->0;
            assert(wrap_lines(segv.take(j as int), width as int)->0 == a + b);
            assert forall|k: int| 0 <= k < out@.len() implies #[trigger] out@[k]@ == wrap_lines(segv.take(j as int), width as int)->0[k] by {
                if k < before.len() {
                    assert(out@[k] == before[k]);
                } else {
                    assert(out@[before.len() + (k - before.len())]@ == b[k - before.len()]);
                }
            }
        }
    }
    assert(segv.take(segv.len() as int) =~= segv);
    Some(out)
}

/// The lines before any failing line wrap too.
proof fn lemma_wrap_lines_prefix(segs: Seq<Seq<char>>, width: int, m: int)
    requires
        wrap_lines(segs, width) is Some,
        0 <= m <= segs.len(),
    ensures
        forall|k: int| 0 <= k <= m ==> #[trigger] wrap_lines(segs.take(k), width) is Some,
    decreases segs.len(),
{
    assert(segs.take(segs.len() as int) =~= segs);
    if segs.len() > 0 {
        lemma_wrap_lines_prefix(segs.drop_last(), width, segs.len() - 1);
        assert forall|k: int| 0 <= k <= m implies #[trigger] wrap_lines(segs.take(k), width) is Some by {
            if k < segs.len() {
                assert(segs.drop_last().take(k) =~= segs.take(k));
            }
        }
    } else {
        assert forall|k: int| 0 <= k <= m implies #[trigger] wrap_lines(segs.take(k), width) is Some by {
            assert(segs.take(k) =~= segs);
        }
    }
}

/// The model of a dialog.
pub struct DialogView {
    pub dialog_type: DialogType,
    pub message: Seq<char>,
    pub options: Seq<DialogOptionView>,
}

/// The `[O]k` button.
pub open spec fn ok_option() -> DialogOptionView {
    DialogOptionView {
        text: "[O]k"@,
        action: DialogSelection::Okay,
        keys: seq![
            Key::from_code_spec(Key::O),
            Key::from_code_spec(Key::ENTER),
            Key::from_code_spec(Key::SPACE),
            Key::from_code_spec(Key::ESC),
        ],
    }
}

/// The `[Y]es` button.
pub open spec fn yes_option() -> DialogOptionView {
    DialogOptionView { text: "[Y]es"@, action: DialogSelection::Yes, keys: seq![Key::from_code_spec(Key::Y)] }
}

/// The `[N]o` button.
pub open spec fn no_option() -> DialogOptionView {
    DialogOptionView { text: "[N]o"@, action: DialogSelection::No, keys: seq![Key::from_code_spec(Key::N)] }
}

/// The `[C]ancel` button.
pub open spec fn cancel_option() -> DialogOptionView {
    DialogOptionView {
        text: "[C]ancel"@,
        action: DialogSelection::Cancel,
        keys: seq![Key::from_code_spec(Key::C), Key::from_code_spec(Key::ESC)],
    }
}

/// A question with the buttons `[Y]es` and `[N]o`.
pub open spec fn yes_no_dialog(message: Seq<char>) -> DialogView {
    DialogView { dialog_type: DialogType::Information, message, options: seq![yes_option(), no_option()] }
}

/// An error with an `[O]k` button.
pub open spec fn error_dialog(message: Seq<char>) -> DialogView {
    DialogView { dialog_type: DialogType::Error, message, options: seq![ok_option()] }
}

/// A message with buttons to choose from.
#[derive(Debug, Clone)]
pub struct Dialog {
    dialog_type: DialogType,
    message: String,
    options: Vec<DialogOption>,
}

impl View for Dialog {
    type V = DialogView;

    closed spec fn view(&self) -> DialogView {
        DialogView {
            dialog_type: self.dialog_type,
            message: self.message@,
            options: self.options@.map_values(|o: DialogOption| o@),
        }
    }
}

impl Dialog {
    pub fn new(dialog_type: DialogType, message: String, options: Vec<DialogOption>) -> (res: Self)
        ensures
            res@ == (DialogView {
                dialog_type,
                message: message@,
                options: options@.map_values(|o: DialogOption| o@),
            }),
    {
        Dialog { dialog_type, message, options }
    }

    /// An information with an `[O]k` button.
    pub fn new_ok(message: String) -> (res: Self)
        ensures
            res@.dialog_type == DialogType::Information,
            res@.message == message@,
            res@.options.len() == 1,
            res@.options[0].text == "[O]k"@,
            res@.options[0].action == DialogSelection::Okay,
            res@.options == seq![ok_option()],
    {
        let options = vec![DialogOption::ok()];
        let d = Self::new(DialogType::Information, message, options);
        assert(d@.options[0] == options@[0]@);
        assert(d@.options =~= seq![ok_option()]);
        d
    }

    /// An error with an `[O]k` button.
    pub fn new_ok_error(message: String) -> (res: Self)
        ensures
            res@.dialog_type == DialogType::Error,
            res@.message == message@,
            res@.options.len() == 1,
            res@.options[0].text == "[O]k"@,
            res@.options[0].action == DialogSelection::Okay,
            res@ == error_dialog(message@),
    {
        let options = vec![DialogOption::ok()];
        let d = Self::new(DialogType::Error, message, options);
        assert(d@.options[0] == options@[0]@);
        assert(d@.options =~= seq![ok_option()]);
        d
    }

    /// A question with the buttons `[Y]es` and `[N]o`.
    pub fn new_yes_no(message: String) -> (res: Self)
        ensures
            res@.dialog_type == DialogType::Information,
            res@.message == message@,
            res@.options.len() == 2,
            res@.options[0].action == DialogSelection::Yes,
            res@.options[1].action == DialogSelection::No,
            res@.options[0].text == "[Y]es"@,
            res@.options[1].text == "[N]o"@,
            res@ == yes_no_dialog(message@),
    {
        let options = vec![DialogOption::yes(), DialogOption::no()];
        let d = Self::new(DialogType::Information, message, options);
        assert(d@.options[0] == options@[0]@);
        assert(d@.options[1] == options@[1]@);
        assert(d@.options =~= seq![yes_option(), no_option()]);
        d
    }

    /// A question with the buttons `[Y]es`, `[C]ancel` and `[N]o`.
    pub fn new_yes_cancel_no(message: String) -> (res: Self)
        ensures
            res@.dialog_type == DialogType::Information,
            res@.message == message@,
            res@.options.len() == 3,
            res@.options[0].action == DialogSelection::Yes,
            res@.options[1].action == DialogSelection::Cancel,
            res@.options[2].action == DialogSelection::No,
            res@.options[0].text == "[Y]es"@,
            res@.options[1].text == "[C]ancel"@,
            res@.options[2].text == "[N]o"@,
            res@.options == seq![yes_option(), cancel_option(), no_option()],
    {
        let options = vec![DialogOption::yes(), DialogOption::cancel(), DialogOption::no()];
        let d = Self::new(DialogType::Information, message, options);
        assert(d@.options[0] == options@[0]@);
        assert(d@.options[1] == options@[1]@);
        assert(d@.options[2] == options@[2]@);
        assert(d@.options =~= seq![yes_option(), cancel_option(), no_option()]);
        d
    }

    pub fn dialog_type(&self) -> (res: DialogType)
        ensures
            res == self@.dialog_type,
    {
        self.dialog_type
    }

    pub fn message(&self) -> (res: &str)
        ensures
            res@ == self@.message,
    {
        self.message.as_str()
    }

    pub fn options(&self) -> (res: &[DialogOption])
        ensures
            res@.map_values(|o: DialogOption| o@) == self@.options,
    {
        self.options.as_slice()
    }

    /// Whether the dialog can be laid out on a console `width` characters wide (see
    /// [`renderable`]).
    pub fn renders_on(&self, width: usize) -> (res: bool)
        ensures
            res == renderable(self@.message, width),
    {
        if width < 2 {
            return false;
        }
        let chars = str_chars(self.message.as_str());
        if !chars_ascii(chars.as_slice()) {
            return false;
        }
        split_message_rows(chars.as_slice(), width - 2).is_some()
    }

    /// The dialog laid out on a console of `width` by `height` characters.
    pub fn render(self, width: usize, height: usize) -> (res: RenderedDialog)
        requires
            renderable(self@.message, width),
        ensures
            res@ == (RenderedDialogView {
                dialog: self@,
                lines: split_message(self@.message, width - 2)->0,
                width,
                height,
            }),
    {
        RenderedDialog::new(self, width, height)
    }
}

/// A message can be laid out on a console `width` characters wide: it is ASCII and each of
/// its rows can be wrapped into `width - 2` characters.
pub open spec fn renderable(message: Seq<char>, width: usize) -> bool {
    &&& width >= 2
    &&& is_ascii(message)
    &&& split_message(message, width - 2) is Some
}

/// The model of a dialog laid out on a console.
pub struct RenderedDialogView {
    pub dialog: DialogView,
    pub lines: Seq<Seq<char>>,
    pub width: usize,
    pub height: usize,
}

/// The space the buttons take: each button text and three spaces after it.
pub open spec fn options_len(options: Seq<DialogOptionView>) -> nat
    decreases options.len(),
{
    if options.len() == 0 {
        0
    } else {
        options_len(options.drop_last()) + options.last().text.len() + 3
    }
}

/// The length of the longest row, `0` without rows.
pub open spec fn max_line_len(lines: Seq<Seq<char>>) -> nat
    decreases lines.len(),
{
    if lines.len() == 0 {
        0
    } else {
        let m = max_line_len(lines.drop_last());
        if lines.last().len() > m {
            lines.last().len()
        } else {
            m
        }
    }
}

/// Where a dialog is drawn: the space of the buttons, the longest row, the inner width, and
/// the top left corner (halves are rounded down).
pub struct DialogLayout {
    pub option_len: usize,
    pub max_char_count: usize,
    pub width: usize,
    pub x_start: usize,
    pub y_start: usize,
}

pub open spec fn spec_layout(d: RenderedDialogView) -> DialogLayout {
    let option_len = options_len(d.dialog.options);
    let max_char_count = max_line_len(d.lines);
    let width: int = if max_char_count > option_len + 2 {
        max_char_count as int
    } else {
        (option_len + 2) as int
    };
    DialogLayout {
        option_len: option_len as usize,
        max_char_count: max_char_count as usize,
        width: width as usize,
        x_start: ((d.width - width - 2) / 2) as usize,
        y_start: ((d.height - d.lines.len() - 5) / 2) as usize,
    }
}

/// The dialog fits into its console: its buttons have ASCII texts, and the box with its
/// border fits in both directions.
pub open spec fn layout_fits(d: RenderedDialogView) -> bool {
    let option_len = options_len(d.dialog.options);
    let max_char_count = max_line_len(d.lines);
    &&& forall|k: int| 0 <= k < d.dialog.options.len() ==> is_ascii(#[trigger] d.dialog.options[k].text)
    &&& option_len + 2 + 2 <= d.width
    &&& max_char_count + 2 <= d.width
    &&& d.lines.len() + 5 <= d.height
}

/// The first button that a key chooses.
pub open spec fn key_selection(options: Seq<DialogOptionView>, key: Key) -> Option<DialogSelection>
    decreases options.len(),
{
    if options.len() == 0 {
        None
    } else if options[0].keys.contains(key) {
        Some(options[0].action)
    } else {
        key_selection(options.drop_first(), key)
    }
}

/// The button at column `rel` of the row of buttons: each button text is followed by three
/// columns that belong to no button.
pub open spec fn option_at(options: Seq<DialogOptionView>, rel: int) -> Option<DialogSelection>
    decreases options.len(),
{
    if options.len() == 0 {
        None
    } else if rel < options[0].text.len() {
        Some(options[0].action)
    } else if rel - options[0].text.len() < 3 {
        None
    } else {
        option_at(options.drop_first(), rel - options[0].text.len() - 3)
    }
}

/// The button clicked at `(column, row)`: the row of buttons is the third row after the
/// message, and it starts after half of the space the buttons leave free.
pub open spec fn mouse_selection(d: RenderedDialogView, column: usize, row: usize) -> Option<DialogSelection> {
    let l = spec_layout(d);
    if row != l.y_start + d.lines.len() + 3 {
        None
    } else {
        let x0 = l.x_start + (l.width - l.option_len + 3) / 2 + 1;
        if column < x0 {
            None
        } else {
            option_at(d.dialog.options, column - x0)
        }
    }
}

/// A dialog laid out on a console: its message broken into rows.
#[derive(Debug, Clone)]
pub struct RenderedDialog {
    dialog: Dialog,
    lines: Vec<String>,
    width: usize,
    height: usize,
}

impl View for RenderedDialog {
    type V = RenderedDialogView;

    closed spec fn view(&self) -> RenderedDialogView {
        RenderedDialogView {
            dialog: self.dialog@,
            lines: self.lines@.map_values(|l: String| l@),
            width: self.width,
            height: self.height,
        }
    }
}

proof fn lemma_options_len_prefix(options: Seq<DialogOptionView>, i: int)
    requires
        0 <= i <= options.len(),
    ensures
        options_len(options.take(i)) <= options_len(options),
    decreases options.len(),
{
    if i < options.len() {
        lemma_options_len_prefix(options.drop_last(), i);
        assert(options.drop_last().take(i) =~= options.take(i));
    } else {
        assert(options.take(i) =~= options);
    }
}

impl RenderedDialog {
    /// Lays out `dialog` on a console of `width` by `height` characters (see
    /// [`split_message`]).
    pub fn new(dialog: Dialog, width: usize, height: usize) -> (res: Self)
        requires
            renderable(dialog@.message, width),
        ensures
            res@ == (RenderedDialogView {
                dialog: dialog@,
                lines: split_message(dialog@.message, width - 2)->0,
                width,
                height,
            }),
            forall|k: int| 0 <= k < res@.lines.len() ==> #[trigger] res@.lines[k].len() <= width - 2,
    {
        proof {
            lemma_split_message_rows(dialog@.message, width - 2);
        }
        let chars = str_chars(dialog.message.as_str());
        let rows = match split_message_rows(chars.as_slice(), width - 2) {
            Some(rows) => rows,
            None => {
                proof {
                    assert(false);
                }
                Vec::new()
            },
        };
        let ghost expected = split_message(dialog@.message, width - 2)->0;
        let mut lines: Vec<String> = Vec::new();
        let mut i: usize = 0;
        while i < rows.len()
            invariant
                i <= rows@.len() == expected.len(),
                forall|k: int| 0 <= k < rows@.len() ==> #[trigger] rows@[k]@ == expected[k],
                lines@.len() == i,
                forall|k: int| 0 <= k < i ==> #[trigger] lines@[k]@ == expected[k],
            decreases rows@.len() - i,
        {
            lines.push(chars_to_string(rows[i].as_slice()));
            i += 1;
        }
        let res = RenderedDialog { dialog, lines, width, height };
        assert(res@.lines =~= expected);
        res
    }

    pub fn dialog(&self) -> (res: &Dialog)
        ensures
            res@ == self@.dialog,
    {
        &self.dialog
    }

    /// The rows of the message.
    pub fn lines(&self) -> (res: &[String])
        ensures
            res@.map_values(|l: String| l@) == self@.lines,
    {
        self.lines.as_slice()
    }

    /// The button chosen by a key press, if any (see [`key_selection`]).
    pub fn on_key_pressed(&self, key: Key) -> (res: Option<DialogSelection>)
        ensures
            res == key_selection(self@.dialog.options, key),
    {
        let ghost opts = self@.dialog.options;
        let mut i: usize = 0;
        assert(opts.skip(0) =~= opts);
        while i < self.dialog.options.len()
            invariant
                i <= self.dialog.options@.len(),
                opts == self.dialog.options@.map_values(|o: DialogOption| o@),
                key_selection(opts, key) == key_selection(opts.skip(i as int), key),
            decreases self.dialog.options@.len() - i,
        {
            let option = &self.dialog.options[i];
            assert(opts.skip(i as int)[0] == option@);
            assert(opts.skip(i as int).drop_first() =~= opts.skip(i + 1));
            let mut j: usize = 0;
            let mut found = false;
            while j < option.keys.len()
                invariant
                    j <= option.keys@.len(),
                    found <==> (exists|m: int| 0 <= m < j && option.keys@[m] == key),
                decreases option.keys@.len() - j,
            {
                if option.keys[j] == key {
                    found = true;
                }
                j += 1;
            }
            assert(found == option@.keys.contains(key));
            if found {
                return Some(option.action);
            }
            i += 1;
        }
        None
    }

    /// Whether the dialog fits into its console (see [`layout_fits`]).
    pub fn fits(&self) -> (res: bool)
        ensures
            res == layout_fits(self@),
    {
        let ghost opts = self@.dialog.options;
        let ghost ls = self@.lines;
        proof {
            lemma_options_len_prefix(opts, opts.len() as int);
            lemma_max_line_len_prefix(ls, ls.len() as int);
        }
        if self.width < 4 {
            return false;
        }
        let mut option_len: usize = 0;
        let mut i: usize = 0;
        while i < self.dialog.options.len()
            invariant
                i <= self.dialog.options@.len(),
                opts == self.dialog.options@.map_values(|o: DialogOption| o@),
                self@.dialog.options == opts,
                option_len == options_len(opts.take(i as int)),
                option_len + 4 <= self.width,
                forall|m: int| 0 <= m < i ==> is_ascii(#[trigger] opts[m].text),
            decreases self.dialog.options@.len() - i,
        {
            assert(opts.take(i + 1).drop_last() =~= opts.take(i as int));
            proof {
                lemma_options_len_prefix(opts, i + 1);
            }
            let text = str_chars(self.dialog.options[i].text);
            assert(text@ == opts[i as int].text);
            if !chars_ascii(text.as_slice()) {
                return false;
            }
            let room = self.width - 4 - option_len;
            if text.len() > room || room - text.len() < 3 {
                return false;
            }
            option_len = option_len + text.len() + 3;
            i += 1;
        }
        assert(opts.take(opts.len() as int) =~= opts);
        let mut k: usize = 0;
        while k < self.lines.len()
            invariant
                k <= self.lines@.len(),
                ls == self.lines@.map_values(|l: String| l@),
                self@.lines == ls,
                self.width >= 4,
                forall|m: int| 0 <= m < k ==> (#[trigger] ls[m]).len() + 2 <= self.width,
            decreases self.lines@.len() - k,
        {
            let row = str_chars(self.lines[k].as_str());
            assert(row@ == ls[k as int]);
            if row.len() > self.width - 2 {
                proof {
                    lemma_max_line_len_prefix(ls, ls.len() as int);
                }
                return false;
            }
            k += 1;
        }
        proof {
            lemma_max_line_len_bound(ls, self.width - 2);
        }
        if self.lines.len() > self.height || self.height - self.lines.len() < 5 {
            return false;
        }
        true
    }

    /// Where the dialog is drawn (see [`spec_layout`]).
    pub fn layout(&self) -> (res: DialogLayout)
        requires
            layout_fits(self@),
        ensures
            res == spec_layout(self@),
    {
        let ghost opts = self@.dialog.options;
        let mut option_len: usize = 0;
        let mut i: usize = 0;
        proof {
            lemma_options_len_prefix(opts, opts.len() as int);
        }
        while i < self.dialog.options.len()
            invariant
                i <= self.dialog.options@.len(),
                opts == self.dialog.options@.map_values(|o: DialogOption| o@),
                layout_fits(self@),
                self@.dialog.options == opts,
                option_len == options_len(opts.take(i as int)),
                options_len(opts) + 4 <= self@.width,
            decreases self.dialog.options@.len() - i,
        {
            assert(opts.take(i + 1).drop_last() =~= opts.take(i as int));
            proof {
                lemma_options_len_prefix(opts, i + 1);
            }
            let text = str_chars(self.dialog.options[i].text);
            assert(text@ == opts[i as int].text);
            option_len = option_len + text.len() + 3;
            i += 1;
        }
        assert(opts.take(opts.len() as int) =~= opts);
        let ghost ls = self@.lines;
        let mut max_char_count: usize = 0;
        let mut k: usize = 0;
        while k < self.lines.len()
            invariant
                k <= self.lines@.len(),
                ls == self.lines@.map_values(|l: String| l@),
                max_char_count == max_line_len(ls.take(k as int)),
                max_line_len(ls) + 2 <= self@.width,
                layout_fits(self@),
                self@.lines == ls,
            decreases self.lines@.len() - k,
        {
            assert(ls.take(k + 1).drop_last() =~= ls.take(k as int));
            let row = str_chars(self.lines[k].as_str());
            assert(row@ == ls[k as int]);
            proof {
                lemma_max_line_len_prefix(ls, k + 1);
            }
            if row.len() > max_char_count {
                max_char_count = row.len();
            }
            k += 1;
        }
        assert(ls.take(ls.len() as int) =~= ls);
        let width = if max_char_count > option_len + 2 {
            max_char_count
        } else {
            option_len + 2
        };
        DialogLayout {
            option_len,
            max_char_count,
            width,
            x_start: (self.width - width - 2) / 2,
            y_start: (self.height - self.lines.len() - 5) / 2,
        }
    }

    /// The button clicked at `(column, row)`, if any (see [`mouse_selection`]).
    pub fn on_mouse_pressed(&self, column: usize, row: usize) -> (res: Option<DialogSelection>)
        requires
            layout_fits(self@),
        ensures
            res == mouse_selection(self@, column, row),
    {
        let l = self.layout();
        let line_count = self.lines.len();
        assert(l.y_start + line_count + 3 <= self.height);
        if row != l.y_start + line_count + 3 {
            return None;
        }
        assert(l.width >= l.option_len + 2);
        assert(l.width + 2 <= self.width);
        let ghost big_w = self.width as int;
        let ghost w = l.width as int;
        let ghost ol = l.option_len as int;
        assert(l.x_start == (big_w - w - 2) / 2);
        assert((big_w - w - 2) / 2 + (w - ol + 3) / 2 + 1 <= big_w) by (nonlinear_arith)
            requires
                w >= ol + 2,
                ol >= 0,
                w + 2 <= big_w,
        ;
        let x_start_options = l.x_start + (l.width - l.option_len + 1) / 2 + 2;
        assert(x_start_options == l.x_start + (l.width - l.option_len + 3) / 2 + 1);
        if column < x_start_options {
            return None;
        }
        let ghost opts = self@.dialog.options;
        let mut rel = column - x_start_options;
        let mut i: usize = 0;
        assert(opts.skip(0) =~= opts);
        assert(mouse_selection(self@, column, row) == option_at(opts, column - x_start_options));
        while i < self.dialog.options.len()
            invariant
                i <= self.dialog.options@.len(),
                opts == self.dialog.options@.map_values(|o: DialogOption| o@),
                mouse_selection(self@, column, row) == option_at(opts.skip(i as int), rel as int),
            decreases self.dialog.options@.len() - i,
        {
            let option = &self.dialog.options[i];
            let text = str_chars(option.text);
            assert(opts.skip(i as int)[0] == option@);
            assert(opts.skip(i as int).drop_first() =~= opts.skip(i + 1));
            if rel < text.len() {
                return Some(option.action);
            }
            rel -= text.len();
            if rel < 3 {
                return None;
            }
            rel -= 3;
            i += 1;
        }
        None
    }
}

/// Rows that are each at most `b` long have a longest row at most `b` long.
proof fn lemma_max_line_len_bound(lines: Seq<Seq<char>>, b: int)
    requires
        b >= 0,
        forall|k: int| 0 <= k < lines.len() ==> (#[trigger] lines[k]).len() <= b,
    ensures
        max_line_len(lines) <= b,
    decreases lines.len(),
{
    if lines.len() > 0 {
        assert forall|k: int| 0 <= k < lines.drop_last().len() implies (#[trigger] lines.drop_last()[k]).len() <= b by {
            assert(lines.drop_last()[k] == lines[k]);
        }
        lemma_max_line_len_bound(lines.drop_last(), b);
        assert(lines.last() == lines[lines.len() - 1]);
    }
}

proof fn lemma_max_line_len_prefix(lines: Seq<Seq<char>>, i: int)
    requires
        0 <= i <= lines.len(),
    ensures
        max_line_len(lines.take(i)) <= max_line_len(lines),
        forall|k: int| 0 <= k < i ==> lines[k].len() <= max_line_len(lines),
    decreases lines.len(),
{
    if lines.len() > 0 {
        lemma_max_line_len_prefix(lines.drop_last(), if i < lines.len() { i } else { i - 1 });
        assert(forall|k: int| 0 <= k < lines.len() - 1 ==> lines.drop_last()[k] == lines[k]);
    }
    if i < lines.len() {
        assert(lines.drop_last().take(i) =~= lines.take(i));
    } else {
        assert(lines.take(i) =~= lines);
    }
}

} // verus!
