//! Decimal and hexadecimal renderings of unsigned integers, as `{}` and
//! `{:x}` write them.
use vstd::prelude::*;

verus! {

/// The digit character for `d` (`0`-`9`, then `a`-`f`).
pub open spec fn digit_char(d: nat) -> char {
    if d < 10 {
        (48 + d) as char
    } else {
        (87 + d) as char
    }
}

/// The digits of `n` in base `b`, most significant first, without leading
/// zeros (`0` for zero).
pub open spec fn digits(n: nat, b: nat) -> Seq<char>
    recommends
        2 <= b <= 16,
    decreases n,
{
    if b < 2 || n < b {
        seq![digit_char(n)]
    } else {
        proof {
            assert(n / b < n) by (nonlinear_arith)
                requires
                    b >= 2,
                    n >= b,
            ;
        }
        digits(n / b, b).push(digit_char(n % b))
    }
}

/// The decimal rendering of `n`.
pub open spec fn decimal(n: nat) -> Seq<char> {
    digits(n, 10)
}

/// The lower-case hexadecimal rendering of `n`.
pub open spec fn hex_lower(n: nat) -> Seq<char> {
    digits(n, 16)
}

fn digit(d: u64) -> (r: char)
    requires
        d < 16,
    ensures
        r == digit_char(d as nat),
{
    if d < 10 {
        let b: u8 = 48u8 + (d as u8);
        b as char
    } else {
        let b: u8 = 87u8 + (d as u8);
        b as char
    }
}

/// The digits of `n` in base `b` (2 to 16), as characters.
pub fn digits_of(n: u64, b: u64) -> (r: Vec<char>)
    requires
        2 <= b <= 16,
    ensures
        r@ == digits(n as nat, b as nat),
{
    let mut out: Vec<char> = Vec::new();
    let mut m = n;
    while m >= b
        invariant
            2 <= b <= 16,
            digits(n as nat, b as nat) == digits(m as nat, b as nat) + out@,
        decreases m,
    {
        let c = digit(m % b);
        let ghost old_out = out@;
        out.insert(0, c);
        assert(digits(m as nat, b as nat) == digits((m / b) as nat, b as nat).push(c));
        assert(digits((m / b) as nat, b as nat).push(c) + old_out =~= digits((m / b) as nat, b as nat)
            + out@);
        m = m / b;
    }
    let c = digit(m);
    let ghost old_out = out@;
    out.insert(0, c);
    assert(out@ =~= digits(m as nat, b as nat) + old_out);
    out
}

/// The decimal rendering of `n`, as `format!("{}", n)` writes it.
pub fn decimal_chars(n: u64) -> (r: Vec<char>)
    ensures
        r@ == decimal(n as nat),
{
    digits_of(n, 10)
}

/// The lower-case hexadecimal rendering of `n`, as `format!("{:x}", n)` writes it.
pub fn hex_chars(n: u64) -> (r: Vec<char>)
    ensures
        r@ == hex_lower(n as nat),
{
    digits_of(n, 16)
}

/// `2^e`.
pub open spec fn two_pow(e: nat) -> nat
    decreases e,
{
    if e == 0 {
        1
    } else {
        2 * two_pow((e - 1) as nat)
    }
}

/// `2^53`: integers below it are exact in a 64-bit float.
pub open spec fn exact_float_limit() -> nat {
    0x20_0000_0000_0000
}

/// How many low bits of `n` a 64-bit float (53-bit significand) cannot hold.
pub open spec fn excess_bits(n: nat) -> nat
    decreases n,
{
    if n < exact_float_limit() {
        0
    } else {
        1 + excess_bits(n / 2)
    }
}

/// `num / den` rounded to the nearest integer, ties to the even one.
pub open spec fn div_round_half_even(num: nat, den: nat) -> nat
    recommends
        den > 0,
{
    let q = num / den;
    let r = num % den;
    if 2 * r > den || (2 * r == den && q % 2 == 1) {
        q + 1
    } else {
        q
    }
}

/// The value of `n as f64`: `n` rounded to the nearest integer that a 53-bit
/// significand holds, ties to even.
pub open spec fn float_value(n: nat) -> nat {
    let p = two_pow(excess_bits(n));
    div_round_half_even(n, p) * p
}

/// `1024^i`.
pub open spec fn kib_pow(i: nat) -> nat
    decreases i,
{
    if i == 0 {
        1
    } else {
        1024 * kib_pow((i - 1) as nat)
    }
}

/// The unit that `m` bytes are shown in: the largest of B, KB, MB, GB, TB
/// (0 to 4) that `m` reaches.
pub open spec fn unit_index(m: nat) -> nat {
    if m >= kib_pow(4) {
        4
    } else if m >= kib_pow(3) {
        3
    } else if m >= kib_pow(2) {
        2
    } else if m >= kib_pow(1) {
        1
    } else {
        0
    }
}

/// The name of unit `i`.
pub open spec fn unit_name(i: nat) -> Seq<char> {
    if i == 0 {
        "B"@
    } else if i == 1 {
        "KB"@
    } else if i == 2 {
        "MB"@
    } else if i == 3 {
        "GB"@
    } else {
        "TB"@
    }
}

/// A count of hundredths written with two decimals.
pub open spec fn two_decimals(hundredths: nat) -> Seq<char> {
    decimal(hundredths / 100) + seq!['.', digit_char((hundredths % 100) / 10), digit_char(
        hundredths % 10,
    )]
}

/// A byte count as people read it: below 1 KB the exact count and `B`;
/// otherwise the count (as a 64-bit float holds it) divided by the largest
/// unit it reaches, up to TB, with two decimals rounded half to even, then
/// the unit.
pub open spec fn human_bytes_text(n: nat) -> Seq<char> {
    let m = float_value(n);
    let i = unit_index(m);
    if i == 0 {
        decimal(n) + " B"@
    } else {
        two_decimals(div_round_half_even(m * 100, kib_pow(i))) + seq![' '] + unit_name(i)
    }
}

/// `num / den` rounded half to even, on machine integers.
fn div_half_even(num: u128, den: u128) -> (r: u128)
    requires
        den > 0,
        num < 0x8000_0000_0000_0000_0000_0000_0000_0000u128,
        den < 0x8000_0000_0000_0000_0000_0000_0000_0000u128,
    ensures
        r as nat == div_round_half_even(num as nat, den as nat),
        r as nat <= num as nat / den as nat + 1,
{
    let q = num / den;
    let rem = num % den;
    if 2 * rem > den || (2 * rem == den && q % 2 == 1) {
        q + 1
    } else {
        q
    }
}

/// The value of `n as f64`, as an integer.
fn float_value_of(n: u64) -> (r: u128)
    ensures
        r as nat == float_value(n as nat),
        r <= 0x2_0000_0000_0000_0000,
{
    let mut k: u64 = n;
    let mut p: u128 = 1;
    let ghost mut e: nat = 0;
    while k >= 0x20_0000_0000_0000
        invariant
            p as nat == two_pow(e),
            k as nat == n as nat / two_pow(e),
            excess_bits(n as nat) == e + excess_bits(k as nat),
            e == 0 || two_pow(e) <= n as nat,
            two_pow(e) >= 1,
        decreases k,
    {
        proof {
            vstd::arithmetic::div_mod::lemma_div_denominator(n as int, two_pow(e) as int, 2);
            assert(two_pow(e + 1) == 2 * two_pow(e));
            assert(two_pow(e) * 2 <= n as nat) by (nonlinear_arith)
                requires
                    k as nat == n as nat / two_pow(e),
                    k >= 2,
                    two_pow(e) >= 1,
            {
                vstd::arithmetic::div_mod::lemma_fundamental_div_mod(n as int, two_pow(e) as int);
            }
        }
        k = k / 2;
        p = p * 2;
        proof {
            e = e + 1;
        }
    }
    assert(p <= 0x1_0000_0000_0000_0000u128);
    let q = div_half_even(n as u128, p);
    proof {
        assert(q as nat * p as nat <= n as nat + p as nat) by (nonlinear_arith)
            requires
                q as nat <= n as nat / p as nat + 1,
                p >= 1,
        {
            vstd::arithmetic::div_mod::lemma_fundamental_div_mod(n as int, p as int);
            vstd::arithmetic::mul::lemma_mul_inequality(q as int, (n as nat / p as nat + 1) as int, p as int);
        }
    }
    q * p
}

/// A byte count as people read it (`1023 B`, `1.50 KB`, `20.00 MB`, ...).
pub fn human_bytes(n: u64) -> (r: String)
    ensures
        r@ == human_bytes_text(n as nat),
{
    let m = float_value_of(n);
    let (i, den): (u64, u128) = if m >= 1024 * 1024 * 1024 * 1024 {
        (4, 1024 * 1024 * 1024 * 1024)
    } else if m >= 1024 * 1024 * 1024 {
        (3, 1024 * 1024 * 1024)
    } else if m >= 1024 * 1024 {
        (2, 1024 * 1024)
    } else if m >= 1024 {
        (1, 1024)
    } else {
        (0, 1)
    };
    proof {
        reveal_with_fuel(kib_pow, 5);
        assert(kib_pow(1) == 1024);
        assert(kib_pow(2) == 1024 * 1024);
        assert(kib_pow(3) == 1024 * 1024 * 1024);
        assert(kib_pow(4) == 1024 * 1024 * 1024 * 1024);
        assert(i as nat == unit_index(m as nat));
        assert(den as nat == kib_pow(i as nat));
    }
    let mut out: Vec<char>;
    if i == 0 {
        out = decimal_chars(n);
        out.push(' ');
        out.push('B');
        proof {
            reveal_strlit(" B");
            assert(out@ =~= decimal(n as nat) + " B"@);
        }
    } else {
        let h = div_half_even(m * 100, den);
        proof {
            assert((m * 100) as nat / den as nat <= (m * 100) as nat / 1024) by (nonlinear_arith)
                requires
                    den >= 1024,
            {
                vstd::arithmetic::div_mod::lemma_div_is_ordered_by_denominator(
                    (m * 100) as int,
                    1024,
                    den as int,
                );
            }
        }
        let whole = decimal_chars((h / 100) as u64);
        out = whole;
        out.push('.');
        out.push(digit(((h % 100) / 10) as u64));
        out.push(digit((h % 10) as u64));
        out.push(' ');
        let ghost before = out@;
        if i == 1 {
            out.push('K');
        } else if i == 2 {
            out.push('M');
        } else if i == 3 {
            out.push('G');
        } else {
            out.push('T');
        }
        out.push('B');
        proof {
            reveal_strlit("KB");
            reveal_strlit("MB");
            reveal_strlit("GB");
            reveal_strlit("TB");
            assert((h % 100) / 10 < 10);
            assert(out@ =~= two_decimals(h as nat) + seq![' '] + unit_name(i as nat));
        }
    }
    crate::text::string_from_chars(out.as_slice())
}

} // verus!
