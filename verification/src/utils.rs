use vstd::prelude::*;
use crate::text::{chars_to_string, decimal, push_decimal, push_str};

verus! {

/// `a / d` rounded to the nearest whole number, a tie to the even one.
pub open spec fn round_half_even_div(a: nat, d: nat) -> nat {
    let q = a / d;
    let r = a % d;
    if 2 * r > d || (2 * r == d && q % 2 == 1) {
        q + 1
    } else {
        q
    }
}

/// The power of two by which `n` is divided to keep 53 significant bits.
pub open spec fn f64_scale(n: nat) -> nat
    decreases n,
{
    if n < 0x20_0000_0000_0000 {
        1
    } else {
        2 * f64_scale(n / 2)
    }
}

/// `n` as a double-precision number: rounded to 53 significant bits, a tie to the even one.
pub open spec fn f64_value(n: nat) -> nat {
    round_half_even_div(n, f64_scale(n)) * f64_scale(n)
}

/// The binary prefix a count of at least 1024 bytes is shown with: 1 (kibi) below 1024
/// kibibytes, 2 (mebi) below 1024 mebibytes, 3 (gibi) above.
pub open spec fn prefix_level(n: nat) -> nat {
    if n < 0x10_0000 {
        1
    } else if n < 0x4000_0000 {
        2
    } else {
        3
    }
}

pub open spec fn prefix_divisor(k: nat) -> nat {
    if k == 1 {
        0x400
    } else if k == 2 {
        0x10_0000
    } else {
        0x4000_0000
    }
}

pub open spec fn prefix_name(k: nat) -> Seq<char> {
    if k == 1 {
        "Ki"@
    } else if k == 2 {
        "Mi"@
    } else {
        "Gi"@
    }
}

/// A count of bytes as text: below 1024 the count and `B`; otherwise the count (as a
/// double-precision number) in kibi-, mebi- or gibibytes with two decimals, rounded to the
/// nearest hundredth (a tie to the even one), and the unit.
pub open spec fn spec_byte_count_string(n: nat) -> Seq<char> {
    if n < 1024 {
        decimal(n) + " B"@
    } else {
        let k = prefix_level(n);
        let h = round_half_even_div(f64_value(n) * 100, prefix_divisor(k));
        decimal(h / 100) + "."@ + decimal(h % 100 / 10) + decimal(h % 10) + " "@ + prefix_name(k) + "B"@
    }
}

proof fn lemma_scale_step(n: nat, p: nat, t: nat)
    requires
        p > 0,
        t == n / p,
        f64_scale(n) == p * f64_scale(t),
        t >= 0x20_0000_0000_0000,
    ensures
        t / 2 == n / (p * 2),
        f64_scale(n) == (p * 2) * f64_scale(t / 2),
{
    vstd::arithmetic::div_mod::lemma_div_denominator(n as int, p as int, 2);
    assert(f64_scale(t) == 2 * f64_scale(t / 2));
    assert(p * (2 * f64_scale(t / 2)) == (p * 2) * f64_scale(t / 2)) by (nonlinear_arith);
}

/// `round_half_even_div` computed on 128-bit numbers.
fn round_half_even_div_u128(a: u128, d: u128) -> (res: u128)
    requires
        d > 0,
        a / d < u128::MAX,
    ensures
        res == round_half_even_div(a as nat, d as nat),
{
    let q = a / d;
    let r = a % d;
    assert(r < d);
    if r > d - r || (r == d - r && q % 2 == 1) {
        q + 1
    } else {
        q
    }
}

/// A count of bytes as text (see [`spec_byte_count_string`]), such as `1.50 KiB`.
pub fn byte_count_to_string_with_binary_prefix(byte_count: u64) -> (res: String)
    ensures
        res@ == spec_byte_count_string(byte_count as nat),
{
    let mut out: Vec<char> = Vec::new();
    if byte_count < 1024 {
        push_decimal(&mut out, byte_count);
        push_str(&mut out, " B");
        proof {
            reveal_strlit(" B");
        }
        return chars_to_string(out.as_slice());
    }
    let n = byte_count as u128;
    let mut p: u128 = 1;
    let mut t: u128 = n;
    while t >= 0x20_0000_0000_0000
        invariant
            p > 0,
            p <= n,
            t == n / p,
            n == byte_count,
            f64_scale(n as nat) == p * f64_scale(t as nat),
        decreases t,
    {
        proof {
            lemma_scale_step(n as nat, p as nat, t as nat);
            assert(p * 2 <= n) by (nonlinear_arith)
                requires
                    t == n / p,
                    t >= 2,
                    p > 0,
            {
                assert(n >= p * t) by (nonlinear_arith)
                    requires
                        t == n / p,
                        p > 0,
                ;
                assert(p * t >= p * 2) by (nonlinear_arith)
                    requires
                        t >= 2,
                        p > 0,
                ;
            }
        }
        t = t / 2;
        p = p * 2;
    }
    assert(f64_scale(t as nat) == 1);
    assert(f64_scale(n as nat) == p * f64_scale(t as nat));
    assert(p * f64_scale(t as nat) == p) by (nonlinear_arith)
        requires
            f64_scale(t as nat) == 1,
    ;
    assert(f64_scale(n as nat) == p);
    assert(n / p < u128::MAX) by {
        assert(n / p <= n) by (nonlinear_arith)
            requires
                p > 0,
                n >= 0,
        ;
    }
    let rounded = round_half_even_div_u128(n, p);
    assert(rounded * p <= 2 * n) by (nonlinear_arith)
        requires
            rounded <= n / p + 1,
            p > 0,
            p <= n,
    {
        assert((n / p) * p <= n) by (nonlinear_arith)
            requires
                p > 0,
                n >= 0,
        ;
    }
    let m = rounded * p;
    assert(m == f64_value(n as nat));
    let (level, divisor): (u64, u128) = if byte_count < 0x10_0000 {
        (1, 0x400)
    } else if byte_count < 0x4000_0000 {
        (2, 0x10_0000)
    } else {
        (3, 0x4000_0000)
    };
    let scaled = m * 100;
    let h = round_half_even_div_u128(scaled, divisor);
    assert(h < 0x1_0000_0000_0000_0000) by (nonlinear_arith)
        requires
            h <= scaled / divisor + 1,
            divisor >= 0x400,
            scaled == m * 100,
            m <= 2 * n,
            n < 0x1_0000_0000_0000_0000,
    {
        assert(scaled / divisor <= scaled / 0x400) by (nonlinear_arith)
            requires
                divisor >= 0x400,
                scaled >= 0,
        ;
    }
    let h64 = h as u64;
    push_decimal(&mut out, h64 / 100);
    push_str(&mut out, ".");
    push_decimal(&mut out, h64 % 100 / 10);
    push_decimal(&mut out, h64 % 10);
    push_str(&mut out, " ");
    if level == 1 {
        push_str(&mut out, "Ki");
    } else if level == 2 {
        push_str(&mut out, "Mi");
    } else {
        push_str(&mut out, "Gi");
    }
    push_str(&mut out, "B");
    proof {
        reveal_strlit(".");
        reveal_strlit(" ");
        reveal_strlit("Ki");
        reveal_strlit("Mi");
        reveal_strlit("Gi");
        reveal_strlit("B");
        assert(level as nat == prefix_level(byte_count as nat));
        assert(divisor as nat == prefix_divisor(level as nat));
    }
    chars_to_string(out.as_slice())
}

} // verus!
