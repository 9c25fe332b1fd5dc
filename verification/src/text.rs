use vstd::prelude::*;

verus! {

/// Characters with the Unicode `White_Space` property.
pub open spec fn is_whitespace(c: char) -> bool {
    let v = c as u32;
    ||| 0x9 <= v <= 0xd
    ||| v == 0x20
    ||| v == 0x85
    ||| v == 0xa0
    ||| v == 0x1680
    ||| 0x2000 <= v <= 0x200a
    ||| v == 0x2028
    ||| v == 0x2029
    ||| v == 0x202f
    ||| v == 0x205f
    ||| v == 0x3000
}

pub fn char_is_whitespace(c: char) -> (res: bool)
    ensures
        res == is_whitespace(c),
{
    let v = c as u32;
    (0x9 <= v && v <= 0xd) || v == 0x20 || v == 0x85 || v == 0xa0 || v == 0x1680 || (0x2000 <= v
        && v <= 0x200a) || v == 0x2028 || v == 0x2029 || v == 0x202f || v == 0x205f || v == 0x3000
}

pub open spec fn trim_start(s: Seq<char>) -> Seq<char>
    decreases s.len(),
{
    if s.len() > 0 && is_whitespace(s[0]) {
        trim_start(s.drop_first())
    } else {
        s
    }
}

pub open spec fn trim_end(s: Seq<char>) -> Seq<char>
    decreases s.len(),
{
    if s.len() > 0 && is_whitespace(s.last()) {
        trim_end(s.drop_last())
    } else {
        s
    }
}

/// Removes leading and trailing white space.
pub open spec fn trim(s: Seq<char>) -> Seq<char> {
    trim_end(trim_start(s))
}

/// Removes a `'\r'` at the end, if there is one.
pub open spec fn strip_cr(s: Seq<char>) -> Seq<char> {
    if s.len() > 0 && s.last() == '\r' {
        s.drop_last()
    } else {
        s
    }
}

/// Splitting `s` into lines: `cur` is the part of the current line read so far.
pub open spec fn lines_from(s: Seq<char>, cur: Seq<char>) -> Seq<Seq<char>>
    decreases s.len(),
{
    if s.len() == 0 {
        if cur.len() == 0 {
            seq![]
        } else {
            seq![cur]
        }
    } else if s[0] == '\n' {
        seq![strip_cr(cur)] + lines_from(s.drop_first(), seq![])
    } else {
        lines_from(s.drop_first(), cur.push(s[0]))
    }
}

/// The lines of a text: separated by `"\n"` or `"\r\n"`; a final line ending is optional.
pub open spec fn lines(s: Seq<char>) -> Seq<Seq<char>> {
    lines_from(s, seq![])
}

pub open spec fn starts_with(s: Seq<char>, prefix: Seq<char>) -> bool {
    prefix.len() <= s.len() && s.take(prefix.len() as int) == prefix
}

pub open spec fn occurs_at(s: Seq<char>, pat: Seq<char>, i: int) -> bool {
    0 <= i && i + pat.len() <= s.len() && s.subrange(i, i + pat.len()) == pat
}

pub open spec fn contains(s: Seq<char>, pat: Seq<char>) -> bool {
    exists|i: int| occurs_at(s, pat, i)
}

/// The first position at which `pat` occurs in `s`.
pub open spec fn is_first_occurrence(s: Seq<char>, pat: Seq<char>, i: int) -> bool {
    occurs_at(s, pat, i) && forall|j: int| 0 <= j < i ==> !occurs_at(s, pat, j)
}

pub open spec fn is_digit(c: char) -> bool {
    48 <= c as u32 <= 57
}

pub open spec fn digit_value(c: char) -> nat {
    (c as u32 - 48) as nat
}

pub open spec fn digits_value(d: Seq<char>) -> nat
    decreases d.len(),
{
    if d.len() == 0 {
        0
    } else {
        digits_value(d.drop_last()) * 10 + digit_value(d.last())
    }
}

/// The digits of an unsigned number: an optional leading `'+'` is not part of them.
pub open spec fn unsigned_digits(s: Seq<char>) -> Seq<char> {
    if s.len() > 0 && s[0] == '+' {
        s.drop_first()
    } else {
        s
    }
}

/// An unsigned integer as the standard library reads it from text: an optional `'+'`,
/// then at least one ASCII digit, and a value of at most `max`.
pub open spec fn parse_unsigned(s: Seq<char>, max: nat) -> Option<nat> {
    let d = unsigned_digits(s);
    if d.len() > 0 && (forall|i: int| 0 <= i < d.len() ==> is_digit(#[trigger] d[i]))
        && digits_value(d) <= max {
        Some(digits_value(d))
    } else {
        None
    }
}

pub open spec fn digit_char(d: nat) -> char {
    ((d % 10) + 48) as char
}

/// The decimal digits of `n`, without leading zeros.
pub open spec fn decimal(n: nat) -> Seq<char>
    decreases n,
{
    if n < 10 {
        seq![digit_char(n)]
    } else {
        decimal(n / 10).push(digit_char(n % 10))
    }
}

/// The decimal representation of a signed number.
pub open spec fn signed_decimal(n: int) -> Seq<char> {
    if n < 0 {
        seq!['-'] + decimal((-n) as nat)
    } else {
        decimal(n as nat)
    }
}

/// Copies the characters of `s`.
pub fn str_chars(s: &str) -> (res: Vec<char>)
    ensures
        res@ == s@,
{
    let mut res: Vec<char> = Vec::new();
    for c in it: s.chars()
        invariant
            res@ == it.seq().take(it.index() as int),
    {
        res.push(c);
    }
    res
}

/// Appends a character to a `String` by std's `String::push`. Trusted, not proved: the
/// text afterwards is the text before with `c` at its end, as the documentation of
/// `String::push` states.
#[verifier::external_body]
pub(crate) fn string_push(s: &mut String, c: char)
    ensures
        final(s)@ == old(s)@.push(c),
{
    s.push(c);
}

/// Builds a `String` from characters.
pub fn chars_to_string(v: &[char]) -> (res: String)
    ensures
        res@ == v@,
{
    let mut res = String::new();
    let mut i: usize = 0;
    while i < v.len()
        invariant
            i <= v@.len(),
            res@ == v@.take(i as int),
        decreases v@.len() - i,
    {
        string_push(&mut res, v[i]);
        i += 1;
        assert(res@ =~= v@.take(i as int));
    }
    assert(v@.take(v@.len() as int) =~= v@);
    res
}

/// Appends the characters of `s` to `out`.
pub fn push_str(out: &mut Vec<char>, s: &str)
    ensures
        final(out)@ == old(out)@ + s@,
{
    let chars = str_chars(s);
    push_chars(out, &chars);
}

/// Appends characters to `out`.
pub fn push_chars(out: &mut Vec<char>, s: &[char])
    ensures
        final(out)@ == old(out)@ + s@,
{
    let mut i: usize = 0;
    while i < s.len()
        invariant
            i <= s@.len(),
            out@ == old(out)@ + s@.take(i as int),
        decreases s@.len() - i,
    {
        out.push(s[i]);
        i += 1;
        assert(out@ =~= old(out)@ + s@.take(i as int));
    }
    assert(s@.take(s@.len() as int) =~= s@);
}

/// Appends the decimal digits of `n` to `out`.
pub fn push_decimal(out: &mut Vec<char>, n: u64)
    ensures
        final(out)@ == old(out)@ + decimal(n as nat),
    decreases n,
{
    if n >= 10 {
        push_decimal(out, n / 10);
    }
    let d = (n % 10) as u8;
    let c = (48u8 + d) as char;
    out.push(c);
    assert(c == digit_char(n as nat)) by {
        assert((n as nat) % 10 == ((n as nat) % 10) % 10);
    }
    if n >= 10 {
        assert(digit_char(n as nat) == digit_char((n % 10) as nat));
    }
    assert(final(out)@ =~= old(out)@ + decimal(n as nat));
}

/// Appends the decimal representation of a signed number to `out`.
pub fn push_signed_decimal(out: &mut Vec<char>, n: i64)
    ensures
        final(out)@ == old(out)@ + signed_decimal(n as int),
{
    if n < 0 {
        out.push('-');
        let abs: u64 = if n == i64::MIN {
            9223372036854775808u64
        } else {
            (-n) as u64
        };
        push_decimal(out, abs);
        assert(final(out)@ =~= old(out)@ + signed_decimal(n as int));
    } else {
        push_decimal(out, n as u64);
    }
}

/// Removes leading and trailing white space.
pub fn trim_chars(s: &[char]) -> (res: Vec<char>)
    ensures
        res@ == trim(s@),
{
    let n = s.len();
    let mut start: usize = 0;
    assert(s@.subrange(0, n as int) =~= s@);
    while start < n && char_is_whitespace(s[start])
        invariant
            start <= n == s@.len(),
            trim_start(s@) == trim_start(s@.subrange(start as int, n as int)),
        decreases n - start,
    {
        assert(s@.subrange(start as int, n as int).drop_first() =~= s@.subrange(
            start + 1,
            n as int,
        ));
        start += 1;
    }
    let ghost t = s@.subrange(start as int, n as int);
    assert(trim_start(s@) == t);
    let mut end: usize = n;
    while end > start && char_is_whitespace(s[end - 1])
        invariant
            start <= end <= n == s@.len(),
            trim_end(t) == trim_end(s@.subrange(start as int, end as int)),
        decreases end - start,
    {
        assert(s@.subrange(start as int, end as int).drop_last() =~= s@.subrange(
            start as int,
            end - 1,
        ));
        end -= 1;
    }
    let mut res: Vec<char> = Vec::new();
    let mut i = start;
    while i < end
        invariant
            start <= i <= end <= n == s@.len(),
            res@ == s@.subrange(start as int, i as int),
        decreases end - i,
    {
        res.push(s[i]);
        i += 1;
        assert(res@ =~= s@.subrange(start as int, i as int));
    }
    res
}

/// Splits a text into its lines (see [`lines`]).
pub fn split_lines(s: &[char]) -> (res: Vec<Vec<char>>)
    ensures
        res@.len() == lines(s@).len(),
        forall|i: int| 0 <= i < res@.len() ==> #[trigger] res@[i]@ == lines(s@)[i],
{
    let mut res: Vec<Vec<char>> = Vec::new();
    let mut cur: Vec<char> = Vec::new();
    let mut i: usize = 0;
    let ghost done: Seq<Seq<char>> = seq![];
    assert(s@.skip(0) =~= s@);
    assert(cur@ =~= Seq::<char>::empty());
    while i < s.len()
        invariant
            i <= s@.len(),
            res@.len() == done.len(),
            forall|k: int| 0 <= k < res@.len() ==> #[trigger] res@[k]@ == done[k],
            done + lines_from(s@.skip(i as int), cur@) == lines(s@),
        decreases s@.len() - i,
    {
        let ghost rest = s@.skip(i as int);
        assert(rest.drop_first() =~= s@.skip(i + 1));
        if s[i] == '\n' {
            let mut line = cur;
            let len = line.len();
            if len > 0 && line[len - 1] == '\r' {
                line.pop();
            }
            assert(line@ =~= strip_cr(cur@));
            proof {
                done = done.push(line@);
            }
            res.push(line);
            cur = Vec::new();
            assert(done + lines_from(s@.skip(i + 1), cur@) =~= lines(s@));
        } else {
            cur.push(s[i]);
        }
        i += 1;
    }
    if cur.len() > 0 {
        proof {
            done = done.push(cur@);
        }
        res.push(cur);
    }
    assert(done =~= lines(s@));
    res
}

/// Whether `pat` occurs at position `i` of `s`.
pub fn chars_occur_at(s: &[char], pat: &[char], i: usize) -> (res: bool)
    ensures
        res == occurs_at(s@, pat@, i as int),
{
    if i > s.len() || pat.len() > s.len() - i {
        return false;
    }
    let mut k: usize = 0;
    while k < pat.len()
        invariant
            s@.len() == s.len(),
            pat@.len() == pat.len(),
            i <= s@.len(),
            i + pat@.len() <= s@.len(),
            k <= pat@.len(),
            forall|j: int| 0 <= j < k ==> s@[i + j] == pat@[j],
        decreases pat@.len() - k,
    {
        if s[i + k] != pat[k] {
            assert(s@.subrange(i as int, i + pat@.len())[k as int] != pat@[k as int]);
            return false;
        }
        k += 1;
    }
    assert(s@.subrange(i as int, i + pat@.len()) =~= pat@);
    true
}

/// Whether `s` starts with `prefix`.
pub fn chars_start_with(s: &[char], prefix: &[char]) -> (res: bool)
    ensures
        res == starts_with(s@, prefix@),
{
    let r = chars_occur_at(s, prefix, 0);
    assert(s@.subrange(0, prefix@.len() as int) =~= s@.take(prefix@.len() as int));
    r
}

/// The first position at which `pat` occurs in `s`, if it occurs.
pub fn chars_find(s: &[char], pat: &[char]) -> (res: Option<usize>)
    ensures
        match res {
            Some(i) => is_first_occurrence(s@, pat@, i as int),
            None => !contains(s@, pat@),
        },
{
    let mut i: usize = 0;
    loop
        invariant
            i <= s@.len(),
            forall|j: int| 0 <= j < i ==> !occurs_at(s@, pat@, j),
        ensures
            forall|j: int| 0 <= j <= s@.len() ==> !occurs_at(s@, pat@, j),
        decreases s@.len() - i,
    {
        if chars_occur_at(s, pat, i) {
            return Some(i);
        }
        if i == s.len() {
            break;
        }
        i += 1;
    }
    assert forall|j: int| !occurs_at(s@, pat@, j) by {
        if 0 <= j && j + pat@.len() <= s@.len() {
            assert(j <= s@.len());
        }
    }
    None
}

proof fn lemma_digits_value_prefix(d: Seq<char>, i: int)
    requires
        0 <= i <= d.len(),
    ensures
        digits_value(d.take(i)) <= digits_value(d),
    decreases d.len(),
{
    if i < d.len() {
        lemma_digits_value_prefix(d.drop_last(), i);
        assert(d.drop_last().take(i) =~= d.take(i));
    } else {
        assert(d.take(i) =~= d);
    }
}

/// Reads an unsigned number of at most `max` (see [`parse_unsigned`]).
pub fn parse_unsigned_chars(s: &[char], max: u64) -> (res: Option<u64>)
    ensures
        res == (match parse_unsigned(s@, max as nat) {
            Some(v) => Some(v as u64),
            None => None,
        }),
{
    let ghost d = unsigned_digits(s@);
    let start: usize = if s.len() > 0 && s[0] == '+' {
        1
    } else {
        0
    };
    assert(d =~= s@.skip(start as int));
    if start >= s.len() {
        return None;
    }
    let mut v: u64 = 0;
    let mut i = start;
    while i < s.len()
        invariant
            start <= i <= s@.len(),
            start < s@.len(),
            d == unsigned_digits(s@),
            d == s@.skip(start as int),
            forall|k: int| 0 <= k < i - start ==> is_digit(#[trigger] d[k]),
            v as nat == digits_value(d.take(i - start)),
            v <= max,
        decreases s@.len() - i,
    {
        let c = s[i];
        let ghost k = i - start;
        assert(d[k] == c);
        if !((c as u32) >= 48 && (c as u32) <= 57) {
            assert(!is_digit(d[k]));
            assert(!(forall|j: int| 0 <= j < d.len() ==> is_digit(#[trigger] d[j])));
            assert(parse_unsigned(s@, max as nat) is None);
            return None;
        }
        let dv = (c as u32 - 48) as u64;
        assert(d.take(k + 1).drop_last() =~= d.take(k));
        assert(digits_value(d.take(k + 1)) == digits_value(d.take(k)) * 10 + dv);
        if dv > max || v > (max - dv) / 10 {
            proof {
                assert(v * 10 + dv > max) by (nonlinear_arith)
                    requires
                        dv > max || v > (max - dv) / 10,
                        dv <= 9,
                ;
                lemma_digits_value_prefix(d, k + 1);
                assert(digits_value(d) > max);
                assert(parse_unsigned(s@, max as nat) is None);
            }
            return None;
        }
        assert(v * 10 + dv <= max) by (nonlinear_arith)
            requires
                v <= (max - dv) / 10,
                dv <= max,
        ;
        v = v * 10 + dv;
        i += 1;
    }
    assert(d.take(d.len() as int) =~= d);
    Some(v)
}

/// Reads a boolean the way the standard library does: exactly `"true"` or `"false"`.
pub fn parse_bool_chars(s: &[char]) -> (res: Option<bool>)
    ensures
        res == (if s@ == "true"@ {
            Some(true)
        } else if s@ == "false"@ {
            Some(false)
        } else {
            None
        }),
{
    proof {
        reveal_strlit("true");
        reveal_strlit("false");
    }
    if s.len() == 4 && s[0] == 't' && s[1] == 'r' && s[2] == 'u' && s[3] == 'e' {
        assert(s@ =~= "true"@);
        Some(true)
    } else if s.len() == 5 && s[0] == 'f' && s[1] == 'a' && s[2] == 'l' && s[3] == 's' && s[4]
        == 'e' {
        assert(s@ =~= "false"@);
        Some(false)
    } else {
        assert(s@ != "true"@ && s@ != "false"@) by {
            if s@ == "true"@ {
                assert(s@.len() == 4 && s@[0] == 't' && s@[1] == 'r' && s@[2] == 'u' && s@[3] == 'e');
            }
            if s@ == "false"@ {
                assert(s@.len() == 5 && s@[0] == 'f');
            }
        }
        None
    }
}

/// Whether two character sequences are equal.
pub fn chars_eq(a: &[char], b: &[char]) -> (res: bool)
    ensures
        res == (a@ == b@),
{
    if a.len() != b.len() {
        return false;
    }
    let mut i: usize = 0;
    while i < a.len()
        invariant
            a@.len() == b@.len(),
            i <= a@.len(),
            forall|k: int| 0 <= k < i ==> a@[k] == b@[k],
        decreases a@.len() - i,
    {
        if a[i] != b[i] {
            return false;
        }
        i += 1;
    }
    assert(a@ =~= b@);
    true
}

/// The characters of `s` from position `from` up to, not including, `to`.
pub fn sub_chars(s: &[char], from: usize, to: usize) -> (res: Vec<char>)
    requires
        from <= to <= s@.len(),
    ensures
        res@ == s@.subrange(from as int, to as int),
{
    let mut res: Vec<char> = Vec::new();
    let mut k = from;
    while k < to
        invariant
            from <= k <= to <= s@.len(),
            res@ == s@.subrange(from as int, k as int),
        decreases to - k,
    {
        res.push(s[k]);
        k += 1;
        assert(res@ =~= s@.subrange(from as int, k as int));
    }
    res
}

/// Splitting `s` at every `sep`: `cur` is the part of the current piece read so far.
pub open spec fn split_from(s: Seq<char>, sep: char, cur: Seq<char>) -> Seq<Seq<char>>
    decreases s.len(),
{
    if s.len() == 0 {
        seq![cur]
    } else if s[0] == sep {
        seq![cur] + split_from(s.drop_first(), sep, seq![])
    } else {
        split_from(s.drop_first(), sep, cur.push(s[0]))
    }
}

/// The pieces of `s` between the occurrences of `sep`; there is always at least one.
pub open spec fn split(s: Seq<char>, sep: char) -> Seq<Seq<char>> {
    split_from(s, sep, seq![])
}

/// Splits `s` at every `sep` (see [`split`]).
pub fn split_chars(s: &[char], sep: char) -> (res: Vec<Vec<char>>)
    ensures
        res@.len() == split(s@, sep).len(),
        forall|i: int| 0 <= i < res@.len() ==> #[trigger] res@[i]@ == split(s@, sep)[i],
{
    let mut res: Vec<Vec<char>> = Vec::new();
    let mut cur: Vec<char> = Vec::new();
    let mut i: usize = 0;
    let ghost done: Seq<Seq<char>> = seq![];
    assert(s@.skip(0) =~= s@);
    assert(cur@ =~= Seq::<char>::empty());
    while i < s.len()
        invariant
            i <= s@.len(),
            res@.len() == done.len(),
            forall|k: int| 0 <= k < res@.len() ==> #[trigger] res@[k]@ == done[k],
            done + split_from(s@.skip(i as int), sep, cur@) == split(s@, sep),
        decreases s@.len() - i,
    {
        assert(s@.skip(i as int).drop_first() =~= s@.skip(i + 1));
        if s[i] == sep {
            proof {
                done = done.push(cur@);
            }
            res.push(cur);
            cur = Vec::new();
            assert(done + split_from(s@.skip(i + 1), sep, cur@) =~= split(s@, sep));
        } else {
            cur.push(s[i]);
        }
        i += 1;
    }
    proof {
        done = done.push(cur@);
    }
    res.push(cur);
    assert(done =~= split(s@, sep));
    res
}

/// Skipping a white space character at position `i` does not change what is left after
/// removing leading white space; a text starting with another character has none to remove.
pub proof fn lemma_trim_start_skip(s: Seq<char>, i: int)
    requires
        0 <= i <= s.len(),
    ensures
        i < s.len() && is_whitespace(s[i]) ==> trim_start(s.skip(i)) == trim_start(s.skip(i + 1)),
        !(i < s.len() && is_whitespace(s[i])) ==> trim_start(s.skip(i)) == s.skip(i),
{
    if i < s.len() {
        assert(s.skip(i).drop_first() =~= s.skip(i + 1));
        assert(s.skip(i)[0] == s[i]);
    }
}

/// Removing leading white space leaves a suffix.
pub proof fn lemma_trim_start_suffix(s: Seq<char>)
    ensures
        trim_start(s).len() <= s.len(),
        trim_start(s) == s.skip(s.len() - trim_start(s).len()),
    decreases s.len(),
{
    if s.len() > 0 && is_whitespace(s[0]) {
        lemma_trim_start_suffix(s.drop_first());
        assert(s.drop_first().skip(s.drop_first().len() - trim_start(s.drop_first()).len()) =~= s.skip(
            s.len() - trim_start(s).len(),
        ));
    } else {
        assert(s.skip(0) =~= s);
    }
}

/// The decimal digits of a number are ASCII digits, at least one, with the number's value.
pub proof fn lemma_decimal_digits(n: nat)
    ensures
        decimal(n).len() >= 1,
        forall|i: int| 0 <= i < decimal(n).len() ==> is_digit(#[trigger] decimal(n)[i]),
        digits_value(decimal(n)) == n,
    decreases n,
{
    lemma_digit_char_value(n % 10);
    if n >= 10 {
        lemma_decimal_digits(n / 10);
        let d = decimal(n / 10).push(digit_char(n % 10));
        assert(d.drop_last() =~= decimal(n / 10));
        assert(d.last() == digit_char(n % 10));
        assert(digits_value(d) == digits_value(decimal(n / 10)) * 10 + digit_value(digit_char(n % 10)));
        assert(n / 10 * 10 + n % 10 == n);
    } else {
        let d = decimal(n);
        assert(d == seq![digit_char(n)]);
        assert(d.drop_last() =~= Seq::<char>::empty());
        assert(n % 10 == n);
        assert(digits_value(d) == digits_value(d.drop_last()) * 10 + digit_value(d.last()));
        assert forall|i: int| 0 <= i < d.len() implies is_digit(#[trigger] d[i]) by {
            if i < d.len() - 1 {
                assert(d[i] == decimal(n / 10)[i]);
            }
        }
    }
}

/// The digit character of a digit has the digit's value.
pub proof fn lemma_digit_char_value(d: nat)
    requires
        d < 10,
    ensures
        digit_value(digit_char(d)) == d,
        is_digit(digit_char(d)),
        digit_char(d) != '+',
        digit_char(d) != ',',
{
    assert(d % 10 == d);
    let v: int = d as int + 48;
    assert(48 <= v <= 57);
    assert((v as char) as u32 == v);
}

/// Reading the decimal digits of a number gives the number back.
pub proof fn lemma_parse_decimal(n: nat, max: nat)
    requires
        n <= max,
    ensures
        parse_unsigned(decimal(n), max) == Some(n),
{
    lemma_decimal_digits(n);
    assert(decimal(n)[0] != '+');
    assert(unsigned_digits(decimal(n)) == decimal(n));
}

/// A text that neither starts nor ends with white space is its own trimmed text.
pub proof fn lemma_trim_identity(s: Seq<char>)
    requires
        s.len() > 0 ==> !is_whitespace(s[0]) && !is_whitespace(s.last()),
    ensures
        trim(s) == s,
{
    assert(trim_start(s) == s);
}

/// What is left after removing leading white space does not start with white space.
pub proof fn lemma_trim_start_first(s: Seq<char>)
    ensures
        trim_start(s).len() > 0 ==> !is_whitespace(trim_start(s)[0]),
    decreases s.len(),
{
    if s.len() > 0 && is_whitespace(s[0]) {
        lemma_trim_start_first(s.drop_first());
    }
}

/// Removing trailing white space leaves a prefix that does not end with white space.
pub proof fn lemma_trim_end_prefix(s: Seq<char>)
    ensures
        trim_end(s).len() <= s.len(),
        trim_end(s) == s.take(trim_end(s).len() as int),
        trim_end(s).len() > 0 ==> !is_whitespace(trim_end(s).last()),
    decreases s.len(),
{
    if s.len() > 0 && is_whitespace(s.last()) {
        lemma_trim_end_prefix(s.drop_last());
        assert(s.drop_last().take(trim_end(s).len() as int) =~= s.take(trim_end(s).len() as int));
    } else {
        assert(s.take(s.len() as int) =~= s);
    }
}

/// Trimming never makes a text longer, and a trimmed text is its own trimmed text.
pub proof fn lemma_trim_idempotent(s: Seq<char>)
    ensures
        trim(s).len() <= s.len(),
        trim(trim(s)) == trim(s),
{
    let u = trim_start(s);
    let t = trim(s);
    lemma_trim_start_suffix(s);
    lemma_trim_start_first(s);
    lemma_trim_end_prefix(u);
    if t.len() > 0 {
        assert(t[0] == u[0]);
    }
    lemma_trim_identity(t);
}

/// Removing trailing white space never makes a text longer.
pub proof fn lemma_trim_end_len(s: Seq<char>)
    ensures
        trim_end(s).len() <= s.len(),
    decreases s.len(),
{
    if s.len() > 0 && is_whitespace(s.last()) {
        lemma_trim_end_len(s.drop_last());
    }
}

/// A text that trimming leaves unchanged neither starts nor ends with white space.
pub proof fn lemma_trimmed_ends(s: Seq<char>)
    requires
        trim(s) == s,
        s.len() > 0,
    ensures
        !is_whitespace(s[0]),
        !is_whitespace(s.last()),
{
    lemma_trim_start_suffix(s);
    lemma_trim_end_len(trim_start(s));
    if is_whitespace(s[0]) {
        lemma_trim_start_suffix(s.drop_first());
        assert(trim_start(s).len() < s.len());
    } else {
        assert(trim_start(s) == s);
        if is_whitespace(s.last()) {
            lemma_trim_end_len(s.drop_last());
            assert(trim_end(s).len() < s.len());
        }
    }
}

/// Splitting at a line break that follows `a` (which has none) gives the line so far with
/// `a` as a line of its own.
pub proof fn lemma_lines_from_append(a: Seq<char>, b: Seq<char>, cur: Seq<char>)
    requires
        forall|i: int| 0 <= i < a.len() ==> a[i] != '\n',
    ensures
        lines_from(a + seq!['\n'] + b, cur) == seq![strip_cr(cur + a)] + lines_from(b, seq![]),
    decreases a.len(),
{
    let s = a + seq!['\n'] + b;
    if a.len() == 0 {
        assert(s[0] == '\n');
        assert(s.drop_first() =~= b);
        assert(cur + a =~= cur);
    } else {
        assert(s[0] == a[0]);
        assert(s.drop_first() =~= a.drop_first() + seq!['\n'] + b);
        lemma_lines_from_append(a.drop_first(), b, cur.push(a[0]));
        assert(cur.push(a[0]) + a.drop_first() =~= cur + a);
    }
}

/// Splitting at a separator that follows `a` (which has none) gives the piece so far with
/// `a` as a piece of its own.
pub proof fn lemma_split_from_append(a: Seq<char>, b: Seq<char>, sep: char, cur: Seq<char>)
    requires
        forall|i: int| 0 <= i < a.len() ==> a[i] != sep,
    ensures
        split_from(a + seq![sep] + b, sep, cur) == seq![cur + a] + split_from(b, sep, seq![]),
    decreases a.len(),
{
    let s = a + seq![sep] + b;
    if a.len() == 0 {
        assert(s[0] == sep);
        assert(s.drop_first() =~= b);
        assert(cur + a =~= cur);
    } else {
        assert(s[0] == a[0]);
        assert(s.drop_first() =~= a.drop_first() + seq![sep] + b);
        lemma_split_from_append(a.drop_first(), b, sep, cur.push(a[0]));
        assert(cur.push(a[0]) + a.drop_first() =~= cur + a);
    }
}

/// A text with a character that is no white space keeps it when trailing white space is
/// removed.
pub proof fn lemma_trim_end_keeps(s: Seq<char>, i: int)
    requires
        0 <= i < s.len(),
        !is_whitespace(s[i]),
    ensures
        trim_end(s).len() > i,
    decreases s.len(),
{
    if is_whitespace(s.last()) {
        assert(s.drop_last()[i] == s[i]);
        lemma_trim_end_keeps(s.drop_last(), i);
    }
}

/// Splitting a text into lines where its first part ends with a line break: the lines of
/// the first part, then those of the rest.
pub proof fn lemma_lines_from_concat(x: Seq<char>, y: Seq<char>, cur: Seq<char>)
    requires
        x.len() > 0,
        x.last() == '\n',
    ensures
        lines_from(x + y, cur) == lines_from(x, cur) + lines_from(y, seq![]),
    decreases x.len(),
{
    let s = x + y;
    assert(s[0] == x[0]);
    assert(s.drop_first() =~= x.drop_first() + y);
    if x[0] == '\n' {
        if x.len() == 1 {
            assert(x.drop_first() =~= Seq::<char>::empty());
            assert(lines_from(x.drop_first(), seq![]) == Seq::<Seq<char>>::empty());
            assert(x.drop_first() + y =~= y);
        } else {
            lemma_lines_from_concat(x.drop_first(), y, seq![]);
        }
    } else {
        lemma_lines_from_concat(x.drop_first(), y, cur.push(x[0]));
    }
}

} // verus!
