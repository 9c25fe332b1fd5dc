use vstd::prelude::*;
use crate::text::{decimal, digit_char, push_decimal, chars_to_string};
use vstd::arithmetic::div_mod::{lemma_div_denominator, lemma_fundamental_div_mod_converse, lemma_mod_breakdown};

verus! {

pub open spec fn pow10(n: nat) -> nat
    decreases n,
{
    if n == 0 {
        1
    } else {
        10 * pow10((n - 1) as nat)
    }
}

/// `s` right-aligned in `n` columns, filled with `fill` on the left.
pub open spec fn pad_left(s: Seq<char>, n: nat, fill: char) -> Seq<char> {
    if s.len() < n {
        Seq::new((n - s.len()) as nat, |i: int| fill) + s
    } else {
        s
    }
}

/// A number in `digits` columns: right-aligned, filled with zeros or spaces, where it fits;
/// a larger number shows its leading part above 9 as a letter (`A` for 10, up to `Z` for
/// 35) followed by its other digits, zero-filled.
pub open spec fn spec_number_to_string_leading_ascii(digits: nat, num: nat, leading_zeros: bool) -> Seq<char> {
    if num < pow10(digits) {
        pad_left(decimal(num), digits, if leading_zeros { '0' } else { ' ' })
    } else {
        seq![(65 + (num / pow10((digits - 1) as nat) - 10)) as char] + if digits > 1 {
            pad_left(decimal(num % pow10((digits - 1) as nat)), (digits - 1) as nat, '0')
        } else {
            seq![]
        }
    }
}

proof fn lemma_pow10_bounds(n: nat)
    requires
        n <= 9,
    ensures
        1 <= pow10(n) <= 1_000_000_000,
        n <= 8 ==> pow10(n) <= 100_000_000,
        n >= 1 ==> pow10(n) == 10 * pow10((n - 1) as nat),
{
    reveal_with_fuel(pow10, 10);
}

/// Appends `s` right-aligned in `n` columns (see [`pad_left`]).
fn push_padded(out: &mut Vec<char>, s: &Vec<char>, n: usize, fill: char)
    ensures
        final(out)@ == old(out)@ + pad_left(s@, n as nat, fill),
{
    let ghost start = out@;
    if s.len() < n {
        let pad = n - s.len();
        let mut i: usize = 0;
        while i < pad
            invariant
                i <= pad,
                out@ == start + Seq::new(i as nat, |j: int| fill),
            decreases pad - i,
        {
            out.push(fill);
            i += 1;
            assert(out@ =~= start + Seq::new(i as nat, |j: int| fill));
        }
    }
    let mut k: usize = 0;
    let ghost mid = out@;
    while k < s.len()
        invariant
            k <= s@.len(),
            out@ == mid + s@.take(k as int),
        decreases s@.len() - k,
    {
        out.push(s[k]);
        k += 1;
        assert(out@ =~= mid + s@.take(k as int));
    }
    assert(s@.take(s@.len() as int) =~= s@);
    assert(out@ =~= start + pad_left(s@, n as nat, fill));
}

/// A number in `digits` columns (see [`spec_number_to_string_leading_ascii`]); there must be
/// 1 to 9 columns, and a number too large for them has a leading part of at most 35.
pub fn number_to_string_leading_ascii(digits: u32, num: u32, leading_zeros: bool) -> (res: String)
    requires
        1 <= digits <= 9,
        num < pow10(digits as nat) || (num as nat) / pow10((digits - 1) as nat) - 10 <= 25,
    ensures
        res@ == spec_number_to_string_leading_ascii(digits as nat, num as nat, leading_zeros),
{
    proof {
        lemma_pow10_bounds(digits as nat);
        lemma_pow10_bounds((digits - 1) as nat);
    }
    let mut p: u64 = 1;
    let mut i: u32 = 0;
    while i < digits - 1
        invariant
            i <= digits - 1,
            digits <= 9,
            p == pow10(i as nat),
            p <= 100_000_000,
        decreases digits - 1 - i,
    {
        proof {
            lemma_pow10_bounds((i + 1) as nat);
            lemma_pow10_bounds(i as nat);
        }
        p = p * 10;
        i += 1;
    }
    let digits_10s = p * 10;
    let mut out: Vec<char> = Vec::new();
    if (num as u64) < digits_10s {
        let mut d: Vec<char> = Vec::new();
        push_decimal(&mut d, num as u64);
        assert(d@ =~= decimal(num as nat));
        push_padded(&mut out, &d, digits as usize, if leading_zeros { '0' } else { ' ' });
        assert(out@ =~= spec_number_to_string_leading_ascii(digits as nat, num as nat, leading_zeros));
        return chars_to_string(out.as_slice());
    }
    assert((num as u64) / p >= 10) by (nonlinear_arith)
        requires
            (num as u64) >= p * 10,
            p > 0,
    ;
    let leading_digit = (num as u64) / p - 10;
    let c = (65u8 + leading_digit as u8) as char;
    out.push(c);
    if digits > 1 {
        let mut d: Vec<char> = Vec::new();
        push_decimal(&mut d, (num as u64) % p);
        assert(d@ =~= decimal((num as nat) % pow10((digits - 1) as nat)));
        push_padded(&mut out, &d, (digits - 1) as usize, '0');
    }
    assert(out@ =~= spec_number_to_string_leading_ascii(digits as nat, num as nat, leading_zeros));
    chars_to_string(out.as_slice())
}

/// `x` comes strictly before `y` in character order: at the first position where they
/// differ, `x` has the smaller character.
pub open spec fn text_less(x: Seq<char>, y: Seq<char>) -> bool {
    exists|i: int|
        0 <= i < x.len() && i < y.len() && #[trigger] x.take(i) == y.take(i) && (x[i] as int) < (y[i] as int)
}

/// The last `k` decimal digits of `n`, zero-filled.
spec fn fixed_digits(n: nat, k: nat) -> Seq<char>
    decreases k,
{
    if k == 0 {
        seq![]
    } else {
        fixed_digits(n / 10, (k - 1) as nat).push(digit_char(n % 10))
    }
}

/// The character shown for a leading part: a digit up to 9, then `A` for 10 up to `Z` for 35.
spec fn leading_char(v: nat) -> char {
    if v < 10 {
        digit_char(v)
    } else {
        (65 + (v - 10)) as char
    }
}

proof fn lemma_fixed_digits_len(n: nat, k: nat)
    ensures
        fixed_digits(n, k).len() == k,
    decreases k,
{
    if k > 0 {
        lemma_fixed_digits_len(n / 10, (k - 1) as nat);
    }
}

/// A number below `10^k` has at most `k` decimal digits.
proof fn lemma_decimal_len(n: nat, k: nat)
    requires
        1 <= k,
        n < pow10(k),
    ensures
        decimal(n).len() <= k,
    decreases k,
{
    if n >= 10 {
        assert(k >= 2) by {
            if k == 1 {
                assert(pow10(1) == 10 * pow10(0));
            }
        }
        assert(pow10(k) == 10 * pow10((k - 1) as nat));
        assert(n / 10 < pow10((k - 1) as nat));
        lemma_decimal_len(n / 10, (k - 1) as nat);
    }
}

/// Zero-filling the decimal digits of a number below `10^k` to `k` columns gives its last
/// `k` digits.
proof fn lemma_zero_padded(n: nat, k: nat)
    requires
        1 <= k,
        n < pow10(k),
    ensures
        pad_left(decimal(n), k, '0') == fixed_digits(n, k),
    decreases k,
{
    assert(digit_char(0) == '0');
    if k == 1 {
        assert(pow10(1) == 10 * pow10(0));
        assert(n % 10 == n);
        assert(fixed_digits(n / 10, 0) =~= Seq::<char>::empty());
        assert(digit_char(n % 10) == digit_char(n));
        assert(fixed_digits(n, 1) =~= seq![digit_char(n)]);
    } else {
        assert(pow10(k) == 10 * pow10((k - 1) as nat));
        assert(n / 10 < pow10((k - 1) as nat));
        lemma_zero_padded(n / 10, (k - 1) as nat);
        lemma_decimal_len(n, k);
        let prev = pad_left(decimal(n / 10), (k - 1) as nat, '0');
        if n >= 10 {
            let d = decimal(n / 10);
            assert(decimal(n) == d.push(digit_char(n % 10)));
            assert(pad_left(decimal(n), k, '0') =~= prev.push(digit_char(n % 10)));
        } else {
            assert(n / 10 == 0 && n % 10 == n);
            assert(decimal(n) == seq![digit_char(n)]);
            assert(decimal(0) == seq![digit_char(0)]);
            assert(pad_left(decimal(n), k, '0') =~= prev.push(digit_char(n % 10)));
        }
    }
}

/// The last `k` digits are the digit in column `k` followed by the last `k - 1` digits.
proof fn lemma_fixed_digits_top(n: nat, k: nat)
    requires
        1 <= k,
    ensures
        pow10((k - 1) as nat) > 0,
        fixed_digits(n, k) == seq![digit_char(n / pow10((k - 1) as nat))] + fixed_digits(
            n % pow10((k - 1) as nat),
            (k - 1) as nat,
        ),
    decreases k,
{
    lemma_pow10_positive((k - 1) as nat);
    if k == 1 {
        assert(pow10(0) == 1);
        assert(n / 1 == n && n % 1 == 0);
        assert((n % 10) % 10 == n % 10);
        assert(fixed_digits(n / 10, 0) =~= Seq::<char>::empty());
        assert(digit_char(n % 10) == digit_char(n));
        assert(fixed_digits(n, 1) =~= seq![digit_char(n)]);
        assert(fixed_digits(n % 1, 0) =~= seq![]);
        assert(seq![digit_char(n)] + seq![] =~= seq![digit_char(n)]);
    } else {
        let q = pow10((k - 2) as nat);
        lemma_pow10_positive((k - 2) as nat);
        assert(pow10((k - 1) as nat) == 10 * q);
        lemma_fixed_digits_top(n / 10, (k - 1) as nat);
        lemma_div_denominator(n as int, 10, q as int);
        lemma_mod_breakdown(n as int, 10, q as int);
        let m = n % (10 * q);
        assert(0 <= (n / 10) % q < q);
        lemma_fundamental_div_mod_converse(m as int, 10, ((n / 10) % q) as int, (n % 10) as int);
        assert(m / 10 == (n / 10) % q);
        assert(m % 10 == n % 10);
        assert(fixed_digits(m, (k - 1) as nat) == fixed_digits((n / 10) % q, (k - 2) as nat).push(
            digit_char(n % 10),
        ));
        assert(fixed_digits(n, k) =~= seq![digit_char(n / (10 * q))] + fixed_digits(m, (k - 1) as nat));
    }
}

proof fn lemma_pow10_positive(n: nat)
    ensures
        pow10(n) > 0,
    decreases n,
{
    if n > 0 {
        lemma_pow10_positive((n - 1) as nat);
    }
}

/// With leading zeros, a number is shown as its leading part followed by its other digits.
proof fn lemma_zero_filled_shape(digits: nat, num: nat)
    requires
        1 <= digits,
        num < 36 * pow10((digits - 1) as nat),
    ensures
        pow10((digits - 1) as nat) > 0,
        spec_number_to_string_leading_ascii(digits, num, true) == seq![
            leading_char(num / pow10((digits - 1) as nat)),
        ] + fixed_digits(num % pow10((digits - 1) as nat), (digits - 1) as nat),
{
    let p = pow10((digits - 1) as nat);
    lemma_pow10_positive((digits - 1) as nat);
    assert(pow10(digits) == 10 * p);
    if num < pow10(digits) {
        lemma_zero_padded(num, digits);
        lemma_fixed_digits_top(num, digits);
        assert(num / p < 10) by (nonlinear_arith)
            requires
                num < 10 * p,
                p > 0,
        ;
    } else {
        assert(num / p >= 10) by (nonlinear_arith)
            requires
                num >= 10 * p,
                p > 0,
        ;
        if digits > 1 {
            assert(num % p < p);
            lemma_zero_padded(num % p, (digits - 1) as nat);
        } else {
            assert(fixed_digits(num % p, 0) =~= seq![]);
            assert(seq![leading_char(num / p)] + seq![] =~= seq![leading_char(num / p)]);
        }
    }
}

/// Among numbers below `10^k`, the smaller one has the last `k` digits that come first.
proof fn lemma_fixed_digits_order(a: nat, b: nat, k: nat)
    requires
        a < b < pow10(k),
    ensures
        text_less(fixed_digits(a, k), fixed_digits(b, k)),
    decreases k,
{
    if k == 0 {
        assert(pow10(0) == 1);
    } else {
        assert(pow10(k) == 10 * pow10((k - 1) as nat));
        let x = fixed_digits(a / 10, (k - 1) as nat);
        let y = fixed_digits(b / 10, (k - 1) as nat);
        lemma_fixed_digits_len(a / 10, (k - 1) as nat);
        lemma_fixed_digits_len(b / 10, (k - 1) as nat);
        let xa = x.push(digit_char(a % 10));
        let yb = y.push(digit_char(b % 10));
        assert(a / 10 <= b / 10) by (nonlinear_arith)
            requires
                a < b,
        ;
        if a / 10 < b / 10 {
            assert(b / 10 < pow10((k - 1) as nat));
            lemma_fixed_digits_order(a / 10, b / 10, (k - 1) as nat);
            let i = choose|i: int|
                0 <= i < x.len() && i < y.len() && #[trigger] x.take(i) == y.take(i) && (x[i] as int) < (
                y[i] as int);
            assert(xa.take(i) =~= x.take(i));
            assert(yb.take(i) =~= y.take(i));
            assert(xa[i] == x[i] && yb[i] == y[i]);
            assert(xa.take(i) == yb.take(i));
        } else {
            assert(a % 10 < b % 10);
            let i = (k - 1) as int;
            assert(xa.take(i) =~= x);
            assert(yb.take(i) =~= y);
            let va: int = (a % 10) as int + 48;
            let vb: int = (b % 10) as int + 48;
            assert((a % 10) % 10 == a % 10 && (b % 10) % 10 == b % 10);
            assert((va as char) as int == va);
            assert((vb as char) as int == vb);
            assert(xa.take(i) == yb.take(i));
        }
    }
}

/// Shown in `digits` columns, every number that fits takes exactly `digits` characters,
/// with or without leading zeros.
pub proof fn lemma_number_text_width(digits: nat, num: nat, leading_zeros: bool)
    requires
        1 <= digits,
        num < 36 * pow10((digits - 1) as nat),
    ensures
        spec_number_to_string_leading_ascii(digits, num, leading_zeros).len() == digits,
{
    let p = pow10((digits - 1) as nat);
    lemma_zero_filled_shape(digits, num);
    lemma_fixed_digits_len(num % p, (digits - 1) as nat);
    assert(pow10(digits) == 10 * p);
    if num < pow10(digits) {
        lemma_decimal_len(num, digits);
    }
}

/// Shown with leading zeros in the same number of columns, a smaller number gives a text
/// that comes first in character order: the texts sort as the numbers do.
pub proof fn lemma_number_text_order(digits: nat, a: nat, b: nat)
    requires
        1 <= digits,
        a < b,
        b < 36 * pow10((digits - 1) as nat),
    ensures
        text_less(
            spec_number_to_string_leading_ascii(digits, a, true),
            spec_number_to_string_leading_ascii(digits, b, true),
        ),
{
    let p = pow10((digits - 1) as nat);
    lemma_zero_filled_shape(digits, a);
    lemma_zero_filled_shape(digits, b);
    let qa = a / p;
    let qb = b / p;
    let ra = fixed_digits(a % p, (digits - 1) as nat);
    let rb = fixed_digits(b % p, (digits - 1) as nat);
    let x = seq![leading_char(qa)] + ra;
    let y = seq![leading_char(qb)] + rb;
    lemma_fixed_digits_len(a % p, (digits - 1) as nat);
    lemma_fixed_digits_len(b % p, (digits - 1) as nat);
    assert(qa <= qb < 36) by (nonlinear_arith)
        requires
            a < b,
            b < 36 * p,
            p > 0,
            qa == a / p,
            qb == b / p,
    ;
    if qa < qb {
        assert(x.take(0) =~= y.take(0));
        let ca: int = if qa < 10 { qa as int + 48 } else { qa as int + 55 };
        let cb: int = if qb < 10 { qb as int + 48 } else { qb as int + 55 };
        assert(qa % 10 == qa || qa >= 10);
        assert(qb % 10 == qb || qb >= 10);
        assert((ca as char) as int == ca);
        assert((cb as char) as int == cb);
        assert(leading_char(qa) as int == ca);
        assert(leading_char(qb) as int == cb);
        assert(x[0] == leading_char(qa) && y[0] == leading_char(qb));
    } else {
        assert(a % p < b % p) by (nonlinear_arith)
            requires
                a < b,
                p > 0,
                a / p == b / p,
        ;
        assert(b % p < p);
        if digits == 1 {
            assert(p == 1);
            assert(false);
        }
        lemma_fixed_digits_order(a % p, b % p, (digits - 1) as nat);
        let i = choose|i: int|
            0 <= i < ra.len() && i < rb.len() && #[trigger] ra.take(i) == rb.take(i) && (ra[i] as int) < (
            rb[i] as int);
        assert(x.take(i + 1) =~= seq![leading_char(qa)] + ra.take(i));
        assert(y.take(i + 1) =~= seq![leading_char(qb)] + rb.take(i));
        assert(x[i + 1] == ra[i] && y[i + 1] == rb[i]);
        assert(x.take(i + 1) == y.take(i + 1));
    }
}

} // verus!
