//! The nearest-rank percentile index as IEEE 754 binary64 arithmetic computes it,
//! `ceil(fl(fl(q / 100) * fl(len)))`, done exactly with integers: every value is kept as
//! a multiple of `2^-59`, and each operation rounds to 53 significant bits, to nearest
//! with ties to even, as binary64 does (no value here is subnormal or overflows).
use vstd::prelude::*;

verus! {

/// `2^n`.
pub open spec fn pow2n(n: nat) -> nat
    decreases n,
{
    if n == 0 {
        1
    } else {
        2 * pow2n((n - 1) as nat)
    }
}

/// The number of binary digits of `m` (none for zero).
pub open spec fn bit_len(m: nat) -> nat
    decreases m,
{
    if m == 0 {
        0
    } else {
        1 + bit_len(m / 2)
    }
}

/// `m / d` rounded to the nearest integer, ties to the even one.
pub open spec fn round_half_even(m: nat, d: nat) -> nat {
    let q = m / d;
    let r = m % d;
    if 2 * r > d || (2 * r == d && q % 2 == 1) {
        q + 1
    } else {
        q
    }
}

/// `m` rounded to 53 significant bits, to nearest with ties to even: the binary64
/// rounding of `m * 2^s` for any scale `s`.
pub open spec fn round53(m: nat) -> nat {
    if bit_len(m) <= 53 {
        m
    } else {
        let d = pow2n((bit_len(m) - 53) as nat);
        round_half_even(m, d) * d
    }
}

/// The exponent that scales `q / 100` into `[2^52, 2^53)`: the least `e >= 52` with
/// `q * 2^e >= 100 * 2^52`, and 59 at most (reached for `q = 1`, and for `q = 0`).
pub open spec fn pct_exp(q: nat, e: nat) -> nat
    decreases 59 - e,
{
    if e >= 59 || q * pow2n(e) >= 100 * pow2n(52) {
        e
    } else {
        pct_exp(q, e + 1)
    }
}

/// The binary64 value of `q / 100` (division rounded to 53 significant bits), as a
/// multiple of `2^-59`.
pub open spec fn pct_fixed(q: nat) -> nat {
    let e = pct_exp(q, 52);
    round_half_even(q * pow2n(e), 100) * pow2n((59 - e) as nat)
}

/// The rank binary64 arithmetic gives the `p`-th percentile of `len` values:
/// `ceil(fl(fl(min(p, 100) / 100) * fl(len)))`, converted to `usize` with saturation.
pub open spec fn f64_rank(p: u64, len: nat) -> int {
    let q: nat = if p > 100 { 100 } else { p as nat };
    let m = round53(pct_fixed(q) * round53(len));
    let c = (m + pow2n(59) - 1) / pow2n(59) as int;
    if c > usize::MAX { usize::MAX as int } else { c }
}

proof fn lemma_pow2n_pos(n: nat)
    ensures
        pow2n(n) >= 1,
    decreases n,
{
    if n > 0 {
        lemma_pow2n_pos((n - 1) as nat);
    }
}

proof fn lemma_pow2n_mono(a: nat, b: nat)
    requires
        a <= b,
    ensures
        pow2n(a) <= pow2n(b),
    decreases b,
{
    lemma_pow2n_pos(b);
    if a < b {
        lemma_pow2n_mono(a, (b - 1) as nat);
    }
}

proof fn lemma_pow2n_add(a: nat, b: nat)
    ensures
        pow2n(a + b) == pow2n(a) * pow2n(b),
    decreases b,
{
    if b > 0 {
        let b1 = (b - 1) as nat;
        lemma_pow2n_add(a, b1);
        assert((a + b - 1) as nat == a + b1);
        assert(pow2n(a + b) == 2 * pow2n(a + b1));
        assert(pow2n(b) == 2 * pow2n(b1));
        let x = pow2n(a);
        let y = pow2n(b1);
        assert(2 * (x * y) == x * (2 * y)) by (nonlinear_arith);
        assert(pow2n(a + b) == 2 * (x * y));
        assert(pow2n(a) * pow2n(b) == x * (2 * y));
    } else {
        assert(a + b == a);
        assert(pow2n(b) == 1);
        assert(pow2n(a) * 1 == pow2n(a));
    }
}

proof fn lemma_pow2n_values()
    ensures
        pow2n(52) == 0x10_0000_0000_0000,
        pow2n(59) == 0x800_0000_0000_0000,
        pow2n(60) == 0x1000_0000_0000_0000,
        pow2n(64) == 0x1_0000_0000_0000_0000,
        pow2n(120) == 0x100_0000_0000_0000_0000_0000_0000_0000,
        pow2n(125) == 0x2000_0000_0000_0000_0000_0000_0000_0000,
        pow2n(126) == 0x4000_0000_0000_0000_0000_0000_0000_0000,
        pow2n(128) == 0x1_0000_0000_0000_0000_0000_0000_0000_0000,
{
    reveal_with_fuel(pow2n, 9);
    assert(pow2n(1) == 2 && pow2n(2) == 4 && pow2n(3) == 8 && pow2n(4) == 16 && pow2n(8) == 256);
    lemma_pow2n_add(8, 8);
    assert(pow2n(16) == 0x1_0000);
    lemma_pow2n_add(16, 16);
    assert(pow2n(32) == 0x1_0000_0000);
    lemma_pow2n_add(32, 32);
    assert(pow2n(64) == 0x1_0000_0000_0000_0000);
    lemma_pow2n_add(64, 64);
    lemma_pow2n_add(32, 16);
    assert(pow2n(48) == 0x1_0000_0000_0000);
    lemma_pow2n_add(48, 4);
    assert(pow2n(52) == 0x10_0000_0000_0000);
    lemma_pow2n_add(48, 8);
    assert(pow2n(56) == 0x100_0000_0000_0000);
    lemma_pow2n_add(56, 3);
    assert(pow2n(59) == 0x800_0000_0000_0000);
    lemma_pow2n_add(56, 4);
    lemma_pow2n_add(64, 56);
    assert(pow2n(120) == 0x100_0000_0000_0000_0000_0000_0000_0000);
    lemma_pow2n_add(120, 4);
    lemma_pow2n_add(124, 1);
    lemma_pow2n_add(124, 2);
}

/// A number below `2^k` has at most `k` digits; one at least `2^k` has more.
proof fn lemma_bit_len_bounds(x: nat, k: nat)
    ensures
        x < pow2n(k) ==> bit_len(x) <= k,
        x >= pow2n(k) ==> bit_len(x) >= k + 1,
    decreases k,
{
    if k == 0 {
        if x >= 1 {
            assert(bit_len(x) == 1 + bit_len(x / 2));
        }
    } else {
        lemma_bit_len_bounds(x / 2, (k - 1) as nat);
        if x > 0 {
            assert(bit_len(x) == 1 + bit_len(x / 2));
        }
    }
}

/// A positive number lies between `2^(bit_len - 1)` and `2^bit_len`.
proof fn lemma_bit_len_range(m: nat)
    requires
        m > 0,
    ensures
        bit_len(m) >= 1,
        pow2n((bit_len(m) - 1) as nat) <= m < pow2n(bit_len(m)),
{
    assert(bit_len(m) == 1 + bit_len(m / 2));
    lemma_bit_len_bounds(m, bit_len(m));
    lemma_bit_len_bounds(m, (bit_len(m) - 1) as nat);
}

/// What rounding to 53 bits keeps: a number of `b > 53` digits rounds to a multiple of
/// `2^(b-53)` between `2^(b-1)` and `2^b`, at most twice the number.
proof fn lemma_round53_range(m: nat)
    ensures
        round53(m) <= 2 * m,
        m > 0 ==> pow2n((bit_len(m) - 1) as nat) <= round53(m) <= pow2n(bit_len(m)),
        m == 0 ==> round53(m) == 0,
{
    if m > 0 {
        lemma_bit_len_range(m);
        let b = bit_len(m);
        if b > 53 {
            let t = (b - 53) as nat;
            let d = pow2n(t);
            lemma_pow2n_pos(t);
            lemma_pow2n_add(t, 52);
            lemma_pow2n_add(t, 53);
            assert(t + 52 == (b - 1) as nat);
            assert(t + 53 == b);
            assert(pow2n((b - 1) as nat) == pow2n(52) * d) by (nonlinear_arith)
                requires
                    pow2n((b - 1) as nat) == d * pow2n(52),
            ;
            assert(pow2n(b) == pow2n(53) * d) by (nonlinear_arith)
                requires
                    pow2n(b) == d * pow2n(53),
            ;
            let q = m / d;
            let r = m % d;
            assert(m == q * d + r && 0 <= r < d) by (nonlinear_arith)
                requires
                    d > 0,
                    q == m / d,
                    r == m % d,
            ;
            let lo = pow2n(52);
            let hi = pow2n(53);
            assert(lo * d <= m < hi * d);
            assert(lo <= q) by (nonlinear_arith)
                requires
                    lo * d <= q * d + r,
                    r < d,
                    d > 0,
            ;
            assert(q < hi) by (nonlinear_arith)
                requires
                    q * d + r < hi * d,
                    r >= 0,
                    d > 0,
            ;
            let rq = round_half_even(m, d);
            assert(lo <= rq <= hi);
            assert(lo * d <= rq * d <= hi * d) by (nonlinear_arith)
                requires
                    lo <= rq <= hi,
                    d > 0,
            ;
            assert(d <= m) by {
                lemma_pow2n_mono(t, (b - 1) as nat);
            }
            assert(rq * d <= q * d + d) by (nonlinear_arith)
                requires
                    rq <= q + 1,
                    d > 0,
            ;
        }
    }
}

/// Rounding `m / d` to nearest keeps order.
proof fn lemma_round_half_even_mono(x: nat, y: nat, d: nat)
    requires
        x <= y,
        d > 0,
    ensures
        round_half_even(x, d) <= round_half_even(y, d),
{
    let qx = x / d;
    let qy = y / d;
    vstd::arithmetic::div_mod::lemma_div_is_ordered(x as int, y as int, d as int);
    assert(x == qx * d + x % d && y == qy * d + y % d) by (nonlinear_arith)
        requires
            d > 0,
            qx == x / d,
            qy == y / d,
    ;
}

/// Rounding to 53 significant bits keeps order.
proof fn lemma_round53_mono(x: nat, y: nat)
    requires
        x <= y,
    ensures
        round53(x) <= round53(y),
{
    lemma_round53_range(x);
    lemma_round53_range(y);
    if x > 0 {
        lemma_bit_len_range(x);
        lemma_bit_len_range(y);
        let lx = bit_len(x);
        let ly = bit_len(y);
        if lx == ly {
            if lx > 53 {
                let d = pow2n((lx - 53) as nat);
                lemma_pow2n_pos((lx - 53) as nat);
                lemma_round_half_even_mono(x, y, d);
                let a = round_half_even(x, d);
                let b = round_half_even(y, d);
                assert(a * d <= b * d) by (nonlinear_arith)
                    requires
                        a <= b,
                ;
            }
        } else {
            // x has fewer digits: it rounds to at most 2^lx <= 2^(ly-1) <= round53(y)
            if lx > ly {
                lemma_pow2n_mono(ly, (lx - 1) as nat);
            }
            assert(lx < ly);
            lemma_pow2n_mono(lx, (ly - 1) as nat);
        }
    }
}

/// Whether `q * 2^e` reaches `100 * 2^52`.
pub open spec fn pct_reached(q: nat, e: nat) -> bool {
    q * pow2n(e) >= 100 * pow2n(52)
}

/// The exponent search stops at the first exponent from `s` that reaches `100 * 2^52`,
/// or at 59.
proof fn lemma_pct_exp(q: nat, s: nat)
    requires
        s <= 59,
    ensures
        s <= pct_exp(q, s) <= 59,
        pct_exp(q, s) < 59 ==> pct_reached(q, pct_exp(q, s)),
        forall|e: nat| s <= e < pct_exp(q, s) ==> !#[trigger] pct_reached(q, e),
    decreases 59 - s,
{
    if !(s >= 59 || pct_reached(q, s)) {
        lemma_pct_exp(q, s + 1);
    }
}

/// Facts on `pct_exp(q, 52)`: at most 59, reached unless 59, and not reached one below
/// (when above 52).
proof fn lemma_pct_exp_facts(q: nat)
    ensures
        52 <= pct_exp(q, 52) <= 59,
        pct_exp(q, 52) < 59 ==> pct_reached(q, pct_exp(q, 52)),
        pct_exp(q, 52) > 52 ==> !pct_reached(q, (pct_exp(q, 52) - 1) as nat),
{
    lemma_pct_exp(q, 52);
    if pct_exp(q, 52) > 52 {
        let e = (pct_exp(q, 52) - 1) as nat;
        assert(52 <= e < pct_exp(q, 52));
    }
}

/// The binary64 value of `q / 100` is at most one (`2^59` at this scale).
proof fn lemma_pct_fixed_le_one(q: nat)
    requires
        q <= 100,
    ensures
        pct_fixed(q) <= pow2n(59),
{
    lemma_pct_exp_facts(q);
    let e = pct_exp(q, 52);
    let s = (59 - e) as nat;
    let x = q * pow2n(e);
    let fl = x / 100;
    let r = x % 100;
    lemma_pow2n_pos(e);
    assert(x <= 100 * pow2n(e)) by (nonlinear_arith)
        requires
            q <= 100,
            x == q * pow2n(e),
    ;
    assert(x == fl * 100 + r && 0 <= r < 100) by (nonlinear_arith)
        requires
            fl == x / 100,
            r == x % 100,
    ;
    assert(fl <= pow2n(e));
    let a = round_half_even(x, 100);
    if fl == pow2n(e) {
        assert(r == 0);
    }
    assert(a <= pow2n(e));
    lemma_pow2n_add(e, s);
    assert((e + s) as nat == 59);
    assert(a * pow2n(s) <= pow2n(e) * pow2n(s)) by (nonlinear_arith)
        requires
            a <= pow2n(e),
    ;
}

/// The binary64 value of `q / 100` grows with `q`.
proof fn lemma_pct_fixed_mono(q1: nat, q2: nat)
    requires
        q1 <= q2 <= 100,
    ensures
        pct_fixed(q1) <= pct_fixed(q2),
{
    lemma_pct_exp_facts(q1);
    lemma_pct_exp_facts(q2);
    let e1 = pct_exp(q1, 52);
    let e2 = pct_exp(q2, 52);
    lemma_pow2n_pos(e1);
    lemma_pow2n_pos(e2);
    let x1 = q1 * pow2n(e1);
    let x2 = q2 * pow2n(e2);
    // the smaller number needs at least as large an exponent
    if e1 < e2 {
        lemma_pct_exp(q2, 52);
        assert(52 <= e1 < e2);
        assert(!pct_reached(q2, e1));
        assert(pct_reached(q1, e1));
        assert(q1 * pow2n(e1) <= q2 * pow2n(e1)) by (nonlinear_arith)
            requires
                q1 <= q2,
        ;
    }
    assert(e2 <= e1);
    if e1 == e2 {
        assert(x1 <= x2) by (nonlinear_arith)
            requires
                q1 <= q2,
                x1 == q1 * pow2n(e1),
                x2 == q2 * pow2n(e1),
        ;
        lemma_round_half_even_mono(x1, x2, 100);
        let a1 = round_half_even(x1, 100);
        let a2 = round_half_even(x2, 100);
        assert(a1 * pow2n((59 - e1) as nat) <= a2 * pow2n((59 - e1) as nat)) by (nonlinear_arith)
            requires
                a1 <= a2,
        ;
    } else {
        // q1's value has its exponent below 53 bits of 2^-e1, q2's is at least 2^52 * 2^-e2
        let p52 = pow2n(52);
        let p53 = pow2n(53);
        assert(p53 == 2 * p52);
        assert(!pct_reached(q1, (e1 - 1) as nat));
        assert(pow2n(e1) == 2 * pow2n((e1 - 1) as nat));
        assert(x1 < 100 * p53) by (nonlinear_arith)
            requires
                q1 * pow2n((e1 - 1) as nat) < 100 * p52,
                x1 == q1 * pow2n(e1),
                pow2n(e1) == 2 * pow2n((e1 - 1) as nat),
                p53 == 2 * p52,
        ;
        assert(pct_reached(q2, e2));
        let a1 = round_half_even(x1, 100);
        let a2 = round_half_even(x2, 100);
        assert(x1 / 100 < p53) by (nonlinear_arith)
            requires
                x1 < 100 * p53,
        ;
        assert(x2 / 100 >= p52) by (nonlinear_arith)
            requires
                x2 >= 100 * p52,
        ;
        assert(a1 <= p53);
        assert(a2 >= p52);
        let s1 = (59 - e1) as nat;
        let s2 = (59 - e2) as nat;
        lemma_pow2n_add(s1, 1);
        lemma_pow2n_mono(s1 + 1, s2);
        assert(a1 * pow2n(s1) <= p53 * pow2n(s1)) by (nonlinear_arith)
            requires
                a1 <= p53,
        ;
        assert(p53 * pow2n(s1) == p52 * pow2n(s1 + 1)) by (nonlinear_arith)
            requires
                p53 == 2 * p52,
                pow2n(s1 + 1) == pow2n(s1) * 2,
        ;
        assert(p52 * pow2n(s1 + 1) <= a2 * pow2n(s2)) by (nonlinear_arith)
            requires
                p52 <= a2,
                pow2n(s1 + 1) <= pow2n(s2),
        ;
    }
}

/// The binary64 rank grows with the percentile.
pub(crate) proof fn lemma_f64_rank_mono(p1: u64, p2: u64, len: nat)
    requires
        p1 <= p2,
    ensures
        f64_rank(p1, len) <= f64_rank(p2, len),
        f64_rank(p1, len) >= 0,
{
    let q1: nat = if p1 > 100 { 100 } else { p1 as nat };
    let q2: nat = if p2 > 100 { 100 } else { p2 as nat };
    lemma_pct_fixed_mono(q1, q2);
    let nf = round53(len);
    let a1 = pct_fixed(q1);
    let a2 = pct_fixed(q2);
    assert(a1 * nf <= a2 * nf) by (nonlinear_arith)
        requires
            a1 <= a2,
    ;
    lemma_round53_mono(a1 * nf, a2 * nf);
    lemma_pow2n_pos(59);
    let k = pow2n(59);
    vstd::arithmetic::div_mod::lemma_div_is_ordered(
        (round53(a1 * nf) + k - 1) as int,
        (round53(a2 * nf) + k - 1) as int,
        k as int,
    );
    vstd::arithmetic::div_mod::lemma_div_pos_is_pos((round53(a1 * nf) + k - 1) as int, k as int);
}

/// `2^e` for `e <= 126`.
fn pow2_u128(e: u32) -> (r: u128)
    requires
        e <= 126,
    ensures
        r == pow2n(e as nat),
{
    let mut r: u128 = 1;
    let mut i: u32 = 0;
    while i < e
        invariant
            i <= e <= 126,
            r == pow2n(i as nat),
        decreases e - i,
    {
        proof {
            lemma_pow2n_mono((i + 1) as nat, 126);
            lemma_pow2n_values();
            assert(pow2n((i + 1) as nat) == 2 * pow2n(i as nat));
        }
        r = r * 2;
        i = i + 1;
    }
    r
}

/// The number of binary digits of `m`.
fn bit_length(m: u128) -> (r: u32)
    ensures
        r as nat == bit_len(m as nat),
        r <= 128,
{
    proof {
        lemma_pow2n_values();
        lemma_bit_len_bounds(m as nat, 128);
    }
    let mut x: u128 = m;
    let mut n: u32 = 0;
    while x > 0
        invariant
            bit_len(m as nat) == n + bit_len(x as nat),
            bit_len(m as nat) <= 128,
        decreases x,
    {
        assert(bit_len(x as nat) == 1 + bit_len((x / 2) as nat));
        x = x / 2;
        n = n + 1;
    }
    n
}

/// `m / d` rounded to nearest, ties to even.
fn round_half_even_exec(m: u128, d: u128) -> (r: u128)
    requires
        0 < d <= pow2n(126),
        m <= pow2n(126),
    ensures
        r == round_half_even(m as nat, d as nat),
        r <= m / d + 1,
{
    proof {
        lemma_pow2n_values();
    }
    let q = m / d;
    let rem = m % d;
    if 2 * rem > d || (2 * rem == d && q % 2 == 1) {
        q + 1
    } else {
        q
    }
}

/// `m` rounded to 53 significant bits (see [`round53`]).
fn round53_exec(m: u128) -> (r: u128)
    requires
        m <= pow2n(126),
    ensures
        r == round53(m as nat),
{
    proof {
        lemma_round53_range(m as nat);
        lemma_pow2n_values();
    }
    let b = bit_length(m);
    if b <= 53 {
        return m;
    }
    let t = b - 53;
    proof {
        lemma_pow2n_mono(t as nat, 75);
        lemma_pow2n_mono(75, 126);
    }
    proof {
        lemma_pow2n_pos(t as nat);
    }
    let d = pow2_u128(t);
    let q = round_half_even_exec(m, d);
    assert(q * d == round53(m as nat));
    q * d
}

/// The binary64 value of `q / 100` as a multiple of `2^-59`.
fn pct_fixed_exec(q: u64) -> (r: u128)
    requires
        q <= 100,
    ensures
        r == pct_fixed(q as nat),
        r <= pow2n(59),
{
    proof {
        lemma_pow2n_values();
        lemma_pct_fixed_le_one(q as nat);
    }
    let target: u128 = 100 * pow2_u128(52);
    let mut e: u32 = 52;
    loop
        invariant
            52 <= e <= 59,
            q <= 100,
            target == 100 * pow2n(52),
            pct_exp(q as nat, e as nat) == pct_exp(q as nat, 52),
        ensures
            52 <= e <= 59,
            pct_exp(q as nat, 52) == e,
        decreases 59 - e,
    {
        proof {
            lemma_pow2n_values();
            lemma_pow2n_mono(e as nat, 59);
            assert((q as nat) * pow2n(e as nat) <= 100 * pow2n(59)) by (nonlinear_arith)
                requires
                    q <= 100,
                    pow2n(e as nat) <= pow2n(59),
            ;
        }
        let scaled = (q as u128) * pow2_u128(e);
        if e >= 59 || scaled >= target {
            break;
        }
        e = e + 1;
    }
    proof {
        lemma_pow2n_mono(e as nat, 59);
        assert((q as nat) * pow2n(e as nat) <= 100 * pow2n(59)) by (nonlinear_arith)
            requires
                q <= 100,
                pow2n(e as nat) <= pow2n(59),
        ;
    }
    let scaled = (q as u128) * pow2_u128(e);
    let a = round_half_even_exec(scaled, 100);
    proof {
        lemma_pow2n_mono((59 - e) as nat, 59);
    }
    let s = pow2_u128(59 - e);
    assert(pct_fixed(q as nat) == a * s);
    a * s
}

/// The index of the `p`-th percentile among `len > 0` sorted values, ranked as binary64
/// arithmetic ranks it: the rank less one, at least the first and at most the last.
pub(crate) fn f64_rank_index(p: u64, len: usize) -> (idx: usize)
    requires
        len > 0,
    ensures
        idx as int == {
            let rank = f64_rank(p, len as nat);
            let i = if rank == 0 { 0 } else { rank - 1 };
            if i > len - 1 { len - 1 } else { i }
        },
        idx < len,
{
    proof {
        lemma_pow2n_values();
        lemma_round53_range(len as nat);
    }
    let q = if p > 100 { 100 } else { p };
    let a = pct_fixed_exec(q);
    let nf = round53_exec(len as u128);
    assert(a * nf <= pow2n(59) * (2 * pow2n(64))) by (nonlinear_arith)
        requires
            a <= pow2n(59),
            nf <= 2 * (len as nat),
            len < pow2n(64),
    ;
    let prod = a * nf;
    proof {
        lemma_round53_range(prod as nat);
    }
    let m = round53_exec(prod);
    let k = pow2_u128(59);
    let c = (m + k - 1) / k;
    let rank: usize = if c > usize::MAX as u128 { usize::MAX } else { c as usize };
    assert(rank as int == f64_rank(p, len as nat));
    let i: usize = if rank == 0 { 0 } else { rank - 1 };
    if i > len - 1 {
        len - 1
    } else {
        i
    }
}

} // verus!
