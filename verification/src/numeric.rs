//! Decimal text for integers, and the gigabyte figures of the report.
use vstd::prelude::*;
use crate::text::{push_char, chars_of};
use vstd::arithmetic::div_mod::{
    lemma_div_denominator, lemma_fundamental_div_mod, lemma_div_is_ordered,
    lemma_fundamental_div_mod_converse,
};
use vstd::arithmetic::mul::lemma_mul_inequality;

verus! {

/// The character of a decimal digit.
pub open spec fn digit_char(d: nat) -> char {
    ((d + '0' as nat) as u32) as char
}

/// Whether `c` is one of the ASCII digits `0` to `9`.
pub open spec fn is_digit(c: char) -> bool {
    '0' <= c && c <= '9'
}

/// The decimal digits of a natural number, most significant first, without
/// leading zeros (zero itself is written `0`).
pub open spec fn nat_digits(n: nat) -> Seq<char>
    decreases n,
{
    if n < 10 {
        seq![digit_char(n)]
    } else {
        nat_digits(n / 10).push(digit_char(n % 10))
    }
}

/// The decimal text of an integer: a leading `-` for negative numbers, then
/// its digits.
pub open spec fn decimal(n: int) -> Seq<char> {
    if n < 0 {
        seq!['-'].add(nat_digits((-n) as nat))
    } else {
        nat_digits(n as nat)
    }
}

/// The number that a string of digits spells in base ten.
pub open spec fn digits_value(s: Seq<char>) -> nat
    decreases s.len(),
{
    if s.len() == 0 {
        0
    } else {
        digits_value(s.drop_last()) * 10 + ((s.last() as nat) - ('0' as nat)) as nat
    }
}

/// Whether every character of `s` is a decimal digit.
pub open spec fn all_digits(s: Seq<char>) -> bool {
    forall|i: int| 0 <= i < s.len() ==> is_digit(#[trigger] s[i])
}

/// What reading `s` as a decimal `i32` gives: an optional sign (`+` or `-`)
/// followed by at least one digit, and nothing else, whose value fits in an
/// `i32`; `None` for every other text.
pub open spec fn parsed_i32(s: Seq<char>) -> Option<i32> {
    let negative = s.len() > 0 && s[0] == '-';
    let body = if s.len() > 0 && (s[0] == '-' || s[0] == '+') {
        s.skip(1)
    } else {
        s
    };
    if body.len() == 0 || !all_digits(body) {
        None
    } else {
        let v: int = if negative {
            -(digits_value(body) as int)
        } else {
            digits_value(body) as int
        };
        if i32::MIN <= v && v <= i32::MAX {
            Some(v as i32)
        } else {
            None
        }
    }
}

/// Appends the decimal digits of `n` to `out`.
fn push_digits(n: u64, out: &mut String)
    ensures
        final(out)@ == old(out)@ + nat_digits(n as nat),
    decreases n,
{
    if n >= 10 {
        push_digits(n / 10, out);
    }
    let d: u64 = n % 10;
    assert(d < 10);
    let c: char = if d == 0 { '0' } else if d == 1 { '1' } else if d == 2 { '2' } else if d == 3 {
        '3'
    } else if d == 4 { '4' } else if d == 5 { '5' } else if d == 6 { '6' } else if d == 7 {
        '7'
    } else if d == 8 { '8' } else { '9' };
    assert(c == digit_char(d as nat));
    push_char(out, c);
}

/// The decimal text of an `i32`, as `to_string` writes it.
pub fn i32_to_decimal(n: i32) -> (s: String)
    ensures
        s@ == decimal(n as int),
{
    let mut s = String::new();
    if n < 0 {
        push_char(&mut s, '-');
        let m: i64 = -(n as i64);
        push_digits(m as u64, &mut s);
    } else {
        push_digits(n as u64, &mut s);
    }
    s
}


/// The value of a string of digits is at least that of each of its prefixes.
proof fn lemma_digits_value_prefix(s: Seq<char>, k: int)
    requires
        all_digits(s),
        0 <= k <= s.len(),
    ensures
        digits_value(s) >= digits_value(s.take(k)),
    decreases s.len(),
{
    if k < s.len() {
        let t = s.drop_last();
        assert(all_digits(t)) by {
            assert forall|i: int| 0 <= i < t.len() implies is_digit(#[trigger] t[i]) by {
                assert(t[i] == s[i]);
            }
        }
        lemma_digits_value_prefix(t, k);
        assert(t.take(k) == s.take(k));
    } else {
        assert(s.take(k) == s);
    }
}

/// Reads a decimal `i32` as `str::parse::<i32>` does: an optional `+` or
/// `-`, then one or more digits, with no other characters and no overflow.
pub fn parse_i32(s: &str) -> (r: Option<i32>)
    ensures
        r == parsed_i32(s@),
{
    let cs = chars_of(s);
    let n: usize = cs.len();
    let mut start: usize = 0;
    let mut negative = false;
    if n > 0 && (cs[0] == '-' || cs[0] == '+') {
        negative = cs[0] == '-';
        start = 1;
    }
    let ghost body = if s@.len() > 0 && (s@[0] == '-' || s@[0] == '+') {
        s@.skip(1)
    } else {
        s@
    };
    assert(body == cs@.skip(start as int));
    if start == n {
        return None;
    }
    let mut acc: i64 = 0;
    let mut i: usize = start;
    while i < n
        invariant
            cs@ == s@,
            n == cs.len(),
            start <= i <= n,
            body == cs@.skip(start as int),
            body == (if s@.len() > 0 && (s@[0] == '-' || s@[0] == '+') {
                s@.skip(1)
            } else {
                s@
            }),
            negative == (s@.len() > 0 && s@[0] == '-'),
            0 <= acc <= 2147483648,
            acc == digits_value(body.take(i - start)),
            all_digits(body.take(i - start)),
        decreases n - i,
    {
        let c = cs[i];
        assert(body[i - start] == c);
        if !('0' <= c && c <= '9') {
            assert(!is_digit(body[i - start]));
            assert(!all_digits(body));
            assert(parsed_i32(s@) is None);
            return None;
        }
        let d: i64 = (c as u32 - '0' as u32) as i64;
        let ghost pre = body.take(i - start);
        let ghost next = body.take(i - start + 1);
        assert(next.drop_last() == pre);
        assert(next.last() == c);
        assert(all_digits(next)) by {
            assert forall|k: int| 0 <= k < next.len() implies is_digit(#[trigger] next[k]) by {
                if k < pre.len() {
                    assert(next[k] == pre[k]);
                }
            }
        }
        acc = acc * 10 + d;
        i = i + 1;
        if acc > 2147483648 {
            proof {
                if all_digits(body) {
                    lemma_digits_value_prefix(body, i - start);
                }
            }
            return None;
        }
    }
    assert(body.take(n - start) == body);
    if negative {
        Some((-acc) as i32)
    } else if acc <= 2147483647 {
        Some(acc as i32)
    } else {
        assert(all_digits(body));
        assert(digits_value(body) == acc);
        assert(!(s@.len() > 0 && s@[0] == '-'));
        assert(parsed_i32(s@) is None);
        None
    }
}

/// Reading the decimal text of a natural number gives the number back.
proof fn lemma_nat_digits_value(n: nat)
    ensures
        all_digits(nat_digits(n)),
        digits_value(nat_digits(n)) == n,
        nat_digits(n).len() > 0,
        nat_digits(n)[0] != '-' && nat_digits(n)[0] != '+',
    decreases n,
{
    if n >= 10 {
        lemma_nat_digits_value(n / 10);
        let d = nat_digits(n);
        let p = nat_digits(n / 10);
        assert(d.drop_last() == p);
        assert forall|i: int| 0 <= i < d.len() implies is_digit(#[trigger] d[i]) by {
            if i < p.len() {
                assert(d[i] == p[i]);
            }
        }
        assert(d[0] == p[0]);
        assert(d.last() == digit_char(n % 10));
        assert((digit_char(n % 10) as nat) == n % 10 + ('0' as nat));
        assert(digits_value(d) == digits_value(p) * 10 + n % 10);
        assert((n / 10) * 10 + n % 10 == n);
        assert(digits_value(d) == n);
    } else {
        let d = nat_digits(n);
        assert(d.drop_last() == Seq::<char>::empty());
        assert((digit_char(n) as nat) == n + ('0' as nat));
        assert(digits_value(d.drop_last()) == 0);
        assert(d.last() == digit_char(n));
        assert(digits_value(d) == n);
    }
}

/// Reading back the decimal text of any `i32` gives the same number.
pub proof fn law_decimal_round_trip(n: i32)
    ensures
        parsed_i32(decimal(n as int)) == Some(n),
{
    if n < 0 {
        let m: nat = (-(n as int)) as nat;
        lemma_nat_digits_value(m);
        let s = decimal(n as int);
        assert(s.skip(1) == nat_digits(m));
    } else {
        lemma_nat_digits_value(n as nat);
    }
}


/// The number of bits in the significand of an `f64`, as a power: `2^53`.
pub open spec fn significand_limit() -> nat {
    0x20_0000_0000_0000
}

/// The distance between neighbouring `f64` values around `x`: one below
/// `2^53`, and doubling with each binade above it.
pub open spec fn float_unit(x: nat) -> nat
    decreases x,
{
    if x < significand_limit() {
        1
    } else {
        2 * float_unit(x / 2)
    }
}

/// The value of the `f64` nearest to `x` (ties go to an even significand),
/// which is what converting an unsigned integer `x` with `as f64` gives.
pub open spec fn nearest_f64(x: nat) -> nat {
    let u: nat = float_unit(x);
    let q: nat = x / u;
    let r: nat = x % u;
    if 2 * r < u {
        q * u
    } else if 2 * r > u {
        (q + 1) * u
    } else if q % 2 == 0 {
        q * u
    } else {
        (q + 1) * u
    }
}

/// `(x as f64 / divisor as f64) as i32` for a power of two `divisor`: the
/// division of a float by a power of two is exact, and the conversion to
/// `i32` truncates and saturates.
pub open spec fn float_quotient_i32(x: nat, divisor: nat) -> i32 {
    let g: nat = nearest_f64(x) / divisor;
    if g > i32::MAX {
        i32::MAX
    } else {
        g as i32
    }
}

/// `2^30`, the bytes in a gigabyte.
pub open spec fn bytes_per_gigabyte() -> nat {
    0x4000_0000
}

/// `2^20`, the kilobytes in a gigabyte.
pub open spec fn kilobytes_per_gigabyte() -> nat {
    0x10_0000
}

proof fn lemma_float_unit_bounds(x: nat)
    ensures
        float_unit(x) >= 1,
        x / float_unit(x) < significand_limit(),
        x >= significand_limit() ==> x / float_unit(x) >= significand_limit() / 2,
        x < significand_limit() ==> float_unit(x) == 1,
    decreases x,
{
    if x >= significand_limit() {
        lemma_float_unit_bounds(x / 2);
        lemma_div_denominator(x as int, 2, float_unit(x / 2) as int);
        assert(x / float_unit(x) == (x / 2) / float_unit(x / 2));
    }
}

/// The value of `x as f64`, as an integer.
fn nearest_f64_value(x: u64) -> (r: u128)
    ensures
        r == nearest_f64(x as nat),
        x < significand_limit() ==> r == x,
        x >= significand_limit() ==> r >= significand_limit() / 2,
{
    let mut u: u64 = 1;
    let mut y: u64 = x;
    proof {
        lemma_float_unit_bounds(x as nat);
    }
    while y >= 0x20_0000_0000_0000
        invariant
            u >= 1,
            y as nat == (x as nat) / (u as nat),
            float_unit(x as nat) == (u as nat) * float_unit(y as nat),
            u <= 0x1000,
        decreases y,
    {
        proof {
            lemma_fundamental_div_mod(x as int, u as int);
            assert((u as int) * (y as int) <= x as int);
            assert((u as int) * 0x20_0000_0000_0000 <= (u as int) * (y as int)) by (nonlinear_arith)
                requires
                    y >= 0x20_0000_0000_0000,
                    u >= 1,
            ;
            assert(u < 0x800);
            lemma_div_denominator(x as int, u as int, 2);
            let f: nat = float_unit((y / 2) as nat);
            assert(float_unit(y as nat) == 2 * f);
            assert((u as nat) * (2 * f) == ((u * 2) as nat) * f) by (nonlinear_arith);
        }
        y = y / 2;
        u = u * 2;
    }
    proof {
        lemma_float_unit_bounds(y as nat);
        assert(float_unit(y as nat) == 1);
        assert((u as nat) * 1 == u as nat);
        assert(float_unit(x as nat) == u);
    }
    let q: u128 = y as u128;
    let r: u64 = x % u;
    let uu: u128 = u as u128;
    assert((q + 1) * uu <= 0x20_0000_0000_0000 * 0x1000) by (nonlinear_arith)
        requires
            q < 0x20_0000_0000_0000,
            uu <= 0x1000,
    ;
    assert(q * uu <= (q + 1) * uu) by (nonlinear_arith)
        requires
            uu >= 1,
    ;
    let down: u128 = q * uu;
    let up: u128 = (q + 1) * uu;
    let result: u128 = if 2 * r < u {
        down
    } else if 2 * r > u {
        up
    } else if q % 2 == 0 {
        down
    } else {
        up
    };
    proof {
        if x < 0x20_0000_0000_0000 {
            assert(u == 1);
            assert(q * uu == q) by (nonlinear_arith)
                requires
                    uu == 1,
            ;
            assert(r == 0);
        }
        if x >= 0x20_0000_0000_0000 {
            assert(q >= 0x10_0000_0000_0000);
            assert(q * uu >= q) by (nonlinear_arith)
                requires
                    uu >= 1,
            ;
        }
    }
    result
}

/// Converts a byte count to whole gigabytes the way
/// `(byte as f64 / 1024.0f64.powi(3)) as i32` does.
pub fn byte_to_g(byte: u64) -> (g: i32)
    ensures
        g == float_quotient_i32(byte as nat, bytes_per_gigabyte()),
        byte < significand_limit() ==> g == (byte as nat) / bytes_per_gigabyte(),
{
    let v: u128 = nearest_f64_value(byte);
    let q: u128 = v / 0x4000_0000;
    if q > 0x7fff_ffff {
        i32::MAX
    } else {
        q as i32
    }
}

/// Converts a kilobyte count to whole gigabytes the way
/// `(kb as f64 / 1048576.0) as i32` does.
pub fn kb_to_g(kb: u64) -> (g: i32)
    ensures
        g == float_quotient_i32(kb as nat, kilobytes_per_gigabyte()),
        g == if (kb as nat) / kilobytes_per_gigabyte() > i32::MAX {
            i32::MAX as int
        } else {
            ((kb as nat) / kilobytes_per_gigabyte()) as int
        },
{
    let v: u128 = nearest_f64_value(kb);
    let q: u128 = v / 0x10_0000;
    if q > 0x7fff_ffff {
        i32::MAX
    } else {
        q as i32
    }
}


/// The decimal text of a number is never empty.
pub proof fn lemma_decimal_nonempty(n: int)
    ensures
        decimal(n).len() > 0,
{
    if n < 0 {
        lemma_nat_digits_value((-n) as nat);
    } else {
        lemma_nat_digits_value(n as nat);
    }
}


/// Larger numbers have no finer float spacing, and a coarser spacing is at
/// least twice as coarse.
proof fn lemma_float_unit_monotone(x: nat, y: nat)
    requires
        x <= y,
    ensures
        float_unit(x) <= float_unit(y),
        float_unit(x) < float_unit(y) ==> 2 * float_unit(x) <= float_unit(y),
    decreases y,
{
    lemma_float_unit_bounds(x);
    lemma_float_unit_bounds(y);
    if y < significand_limit() {
    } else if x < significand_limit() {
        lemma_float_unit_bounds(y / 2);
    } else {
        lemma_float_unit_monotone(x / 2, y / 2);
    }
}

/// The nearest float lies between the multiples of the spacing around `x`,
/// and below `2^53` times the spacing.
proof fn lemma_nearest_bounds(x: nat)
    ensures
        (x / float_unit(x)) * float_unit(x) <= nearest_f64(x),
        nearest_f64(x) <= (x / float_unit(x) + 1) * float_unit(x),
        nearest_f64(x) <= significand_limit() * float_unit(x),
        x >= significand_limit() ==> (significand_limit() / 2) * float_unit(x) <= nearest_f64(x),
{
    let u: nat = float_unit(x);
    let q: nat = x / u;
    lemma_float_unit_bounds(x);
    assert(q * u <= (q + 1) * u) by (nonlinear_arith)
        requires
            u >= 1,
    ;
    lemma_mul_inequality((q + 1) as int, significand_limit() as int, u as int);
    if x >= significand_limit() {
        lemma_mul_inequality((significand_limit() / 2) as int, q as int, u as int);
    }
}

/// Converting to `f64` never decreases: `x <= y` gives
/// `x as f64 <= y as f64`.
pub proof fn law_nearest_f64_monotone(x: nat, y: nat)
    requires
        x <= y,
    ensures
        nearest_f64(x) <= nearest_f64(y),
{
    lemma_float_unit_monotone(x, y);
    lemma_nearest_bounds(x);
    lemma_nearest_bounds(y);
    lemma_float_unit_bounds(x);
    lemma_float_unit_bounds(y);
    let ux: nat = float_unit(x);
    let uy: nat = float_unit(y);
    if ux == uy {
        let u: nat = ux;
        let qx: nat = x / u;
        let qy: nat = y / u;
        lemma_div_is_ordered(x as int, y as int, u as int);
        if qx < qy {
            lemma_mul_inequality((qx + 1) as int, qy as int, u as int);
        } else {
            lemma_fundamental_div_mod(x as int, u as int);
            lemma_fundamental_div_mod(y as int, u as int);
            assert(x % u <= y % u);
        }
    } else {
        assert(y >= significand_limit());
        lemma_mul_inequality((2 * ux) as int, uy as int, (significand_limit() / 2) as int);
        assert(significand_limit() * ux == (significand_limit() / 2) * (2 * ux)) by (nonlinear_arith);
        assert((significand_limit() / 2) * uy == uy * (significand_limit() / 2)) by (nonlinear_arith);
        assert((significand_limit() / 2) * (2 * ux) == (2 * ux) * (significand_limit() / 2)) by (nonlinear_arith);
    }
}

/// More bytes (or kilobytes) never give fewer whole gigabytes.
pub proof fn law_gigabytes_monotone(x: nat, y: nat, divisor: nat)
    requires
        x <= y,
        divisor > 0,
    ensures
        float_quotient_i32(x, divisor) <= float_quotient_i32(y, divisor),
{
    law_nearest_f64_monotone(x, y);
    lemma_div_is_ordered(nearest_f64(x) as int, nearest_f64(y) as int, divisor as int);
}

/// Doubling a number doubles the float nearest to it.
proof fn lemma_nearest_double(y: nat)
    ensures
        nearest_f64(2 * y) == 2 * nearest_f64(y),
{
    lemma_float_unit_bounds(y);
    lemma_float_unit_bounds(2 * y);
    let u: nat = float_unit(y);
    let q: nat = y / u;
    let r: nat = y % u;
    lemma_fundamental_div_mod(y as int, u as int);
    if 2 * y < significand_limit() {
        assert(u == 1);
        assert(q * u == q) by (nonlinear_arith)
            requires
                u == 1,
        ;
        assert(q == y);
        assert(r == 0);
        assert(float_unit(2 * y) == 1);
        let q2: nat = (2 * y) / 1;
        assert(q2 == 2 * y);
        assert(q2 * 1 == q2);
    } else {
        assert((2 * y) / 2 == y);
        assert(float_unit(2 * y) == 2 * u);
        assert(2 * y == q * (2 * u) + 2 * r) by (nonlinear_arith)
            requires
                y == u * q + r,
        ;
        lemma_fundamental_div_mod_converse((2 * y) as int, (2 * u) as int, q as int, (2 * r) as int);
        assert(q * (2 * u) == 2 * (q * u)) by (nonlinear_arith);
        assert((q + 1) * (2 * u) == 2 * ((q + 1) * u)) by (nonlinear_arith);
    }
}

/// Counting in kilobytes or in bytes gives the same whole gigabytes:
/// `kb_to_g(kb) == byte_to_g(kb * 1024)` whenever `kb * 1024` fits.
pub proof fn law_kilobytes_are_1024_bytes(kb: nat)
    ensures
        float_quotient_i32(kb, kilobytes_per_gigabyte()) == float_quotient_i32(
            kb * 1024,
            bytes_per_gigabyte(),
        ),
{
    lemma_nearest_double(kb);
    lemma_nearest_double(2 * kb);
    lemma_nearest_double(4 * kb);
    lemma_nearest_double(8 * kb);
    lemma_nearest_double(16 * kb);
    lemma_nearest_double(32 * kb);
    lemma_nearest_double(64 * kb);
    lemma_nearest_double(128 * kb);
    lemma_nearest_double(256 * kb);
    lemma_nearest_double(512 * kb);
    let n: nat = nearest_f64(kb);
    assert(nearest_f64(kb * 1024) == 1024 * n);
    lemma_div_denominator((1024 * n) as int, 1024, 0x10_0000);
    assert((1024 * n) / 1024 == n);
}


/// `2^e`.
pub open spec fn power_of_two(e: nat) -> nat
    decreases e,
{
    if e == 0 {
        1
    } else {
        2 * power_of_two((e - 1) as nat)
    }
}

proof fn lemma_float_unit_power(x: nat)
    ensures
        exists|e: nat| float_unit(x) == #[trigger] power_of_two(e),
    decreases x,
{
    if x < significand_limit() {
        assert(float_unit(x) == power_of_two(0));
    } else {
        lemma_float_unit_power(x / 2);
        let e: nat = choose|e: nat| float_unit(x / 2) == #[trigger] power_of_two(e);
        assert(float_unit(x) == power_of_two(e + 1));
    }
}

/// Whether `k * u` is a float nearest to `x` on the grid of spacing `u`:
/// no farther than half a spacing, with an even `k` on a tie.
pub open spec fn rounds_to(x: nat, u: nat, k: nat) -> bool {
    let d: int = k * u - x;
    &&& 2 * d <= u
    &&& -2 * d <= u
    &&& (2 * d == u || -2 * d == u) ==> k % 2 == 0
}

/// What `x as f64` is: the spacing of the floats around `x` is a power of
/// two, one below `2^53`, and such that `x` has 53 significant bits on that
/// grid; the result is a multiple `k` of the spacing with `k <= 2^53`,
/// nearest to `x`, ties going to an even `k`. Below `2^53` the conversion is
/// exact.
pub proof fn law_nearest_f64_is_nearest(x: nat)
    ensures
        exists|e: nat| float_unit(x) == #[trigger] power_of_two(e),
        x < significand_limit() ==> float_unit(x) == 1 && nearest_f64(x) == x,
        x / float_unit(x) < significand_limit(),
        x >= significand_limit() ==> x / float_unit(x) >= significand_limit() / 2,
        exists|k: nat|
            k <= significand_limit() && nearest_f64(x) == k * float_unit(x) && #[trigger] rounds_to(
                x,
                float_unit(x),
                k,
            ),
{
    lemma_float_unit_power(x);
    lemma_float_unit_bounds(x);
    let u: nat = float_unit(x);
    let q: nat = x / u;
    let r: nat = x % u;
    lemma_fundamental_div_mod(x as int, u as int);
    assert(x == q * u + r) by (nonlinear_arith)
        requires
            x == u * q + r,
    ;
    assert((q + 1) * u == q * u + u) by (nonlinear_arith);
    if x < significand_limit() {
        assert(q * u == q) by (nonlinear_arith)
            requires
                u == 1,
        ;
    }
    if 2 * r < u {
        assert(rounds_to(x, u, q));
    } else if 2 * r > u {
        assert(rounds_to(x, u, q + 1));
    } else if q % 2 == 0 {
        assert(rounds_to(x, u, q));
    } else {
        assert(rounds_to(x, u, q + 1));
    }
}

/// Whole gigabytes from kilobytes are `kb / 2^20`, saturated at `i32::MAX`,
/// for every count; from bytes they are `bytes / 2^30` below `2^53`.
pub proof fn law_whole_gigabytes(x: nat)
    ensures
        float_quotient_i32(x, kilobytes_per_gigabyte()) == if x / kilobytes_per_gigabyte() > i32::MAX {
            i32::MAX as int
        } else {
            (x / kilobytes_per_gigabyte()) as int
        },
        x < significand_limit() ==> float_quotient_i32(x, bytes_per_gigabyte()) == x
            / bytes_per_gigabyte(),
{
    law_nearest_f64_is_nearest(x);
    lemma_nearest_bounds(x);
    if x >= significand_limit() {
        lemma_float_unit_bounds(x);
        assert((significand_limit() / 2) * float_unit(x) >= significand_limit() / 2) by (nonlinear_arith)
            requires
                float_unit(x) >= 1,
        ;
        lemma_div_is_ordered((significand_limit() / 2) as int, nearest_f64(x) as int, 0x10_0000);
        lemma_div_is_ordered(significand_limit() as int, x as int, 0x10_0000);
    }
}

/// The decimal text of a number is canonical: a `-` exactly for negative
/// numbers, then digits only, with no leading zero unless the number is 0.
pub proof fn law_decimal_shape(n: int)
    ensures
        decimal(n).len() > 0,
        (decimal(n)[0] == '-') == (n < 0),
        n < 0 ==> decimal(n).len() >= 2 && all_digits(decimal(n).skip(1)) && decimal(n)[1] != '0',
        n >= 0 ==> all_digits(decimal(n)),
        n > 0 ==> decimal(n)[0] != '0',
        n == 0 ==> decimal(n) == seq!['0'],
{
    if n < 0 {
        let m: nat = (-n) as nat;
        lemma_nat_digits_value(m);
        lemma_nat_digits_leading(m);
        assert(decimal(n).skip(1) == nat_digits(m));
        assert(decimal(n)[1] == nat_digits(m)[0]);
    } else {
        lemma_nat_digits_value(n as nat);
        lemma_nat_digits_leading(n as nat);
    }
}

proof fn lemma_nat_digits_leading(n: nat)
    ensures
        n > 0 ==> nat_digits(n)[0] != '0',
        n == 0 ==> nat_digits(n) == seq!['0'],
    decreases n,
{
    if n >= 10 {
        lemma_nat_digits_leading(n / 10);
        assert(nat_digits(n)[0] == nat_digits(n / 10)[0]);
    } else if n > 0 {
        assert((digit_char(n) as nat) == n + ('0' as nat));
    } else {
        assert(digit_char(0) == '0');
    }
}

/// What reading a decimal `i32` accepts: a non-empty text of digits after
/// an optional sign, nothing else; a text of digits reads as its value when
/// that fits, and a `-` before it negates it.
pub proof fn law_parse_shape(s: Seq<char>)
    ensures
        parsed_i32(s) is Some ==> s.len() > 0 && (is_digit(s[0]) || ((s[0] == '-' || s[0] == '+')
            && s.len() >= 2)) && all_digits(s.skip(1)),
        s.len() > 0 && all_digits(s) && digits_value(s) <= i32::MAX ==> parsed_i32(s) == Some(
            digits_value(s) as i32,
        ),
        s.len() > 0 && all_digits(s) && digits_value(s) <= 0x8000_0000 ==> parsed_i32(
            seq!['-'] + s,
        ) == Some((-(digits_value(s) as int)) as i32),
{
    if s.len() > 0 && all_digits(s) {
        assert(is_digit(s[0]));
        assert((seq!['-'] + s).skip(1) == s);
        assert((seq!['-'] + s)[0] == '-');
    }
    if parsed_i32(s) is Some && s.len() > 0 {
        let body = if s[0] == '-' || s[0] == '+' { s.skip(1) } else { s };
        assert forall|i: int| 0 <= i < s.skip(1).len() implies is_digit(#[trigger] s.skip(1)[i]) by {
            if s[0] == '-' || s[0] == '+' {
                assert(s.skip(1)[i] == body[i]);
            } else {
                assert(s.skip(1)[i] == body[i + 1]);
            }
        }
        if !(s[0] == '-' || s[0] == '+') {
            assert(is_digit(body[0]));
        }
    }
}

} // verus!
