//! Rounding to 53 significant bits, ties going to the even neighbour: what every
//! basic operation on IEEE 754 doubles does to its exact result.
//!
//! Numbers are integers here. A caller picks a unit so small that the doubles it
//! works with are whole multiples of it.
use vstd::arithmetic::div_mod::{
    lemma_div_by_multiple, lemma_div_denominator, lemma_fundamental_div_mod, lemma_mod_bound,
    lemma_mod_multiples_basic,
};
use vstd::arithmetic::power2::{
    lemma2_to64, lemma_pow2_adds, lemma_pow2_pos, lemma_pow2_unfold, pow2,
};
use vstd::prelude::*;

verus! {

/// The first number that needs 53 bits.
pub const SIGNIFICAND_START: u128 = 0x10_0000_0000_0000;

/// The first number that needs more than 53 bits.
pub const SIGNIFICAND_END: u128 = 0x20_0000_0000_0000;

/// How often `n` has to be halved until it fits into 53 bits.
pub open spec fn doublings(n: nat) -> nat
    decreases n,
{
    if n < SIGNIFICAND_END {
        0
    } else {
        1 + doublings(n / 2)
    }
}

/// The distance between neighbouring numbers of 53 significant bits around `n`.
pub open spec fn quantum(n: nat) -> nat
    decreases n,
{
    if n < SIGNIFICAND_END {
        1
    } else {
        2 * quantum(n / 2)
    }
}

/// Whether `n` has at most 53 significant bits: halved until it fits into 53 bits, it
/// stays an integer.
pub open spec fn representable(n: nat) -> bool
    decreases n,
{
    n < SIGNIFICAND_END || (n % 2 == 0 && representable(n / 2))
}

/// `n / d` rounded to the nearest integer, and to the even one of two that are equally near.
pub open spec fn nearest_integer(n: nat, d: nat) -> nat
    recommends
        d > 0,
{
    if 2 * (n % d) < d || (2 * (n % d) == d && (n / d) % 2 == 0) {
        n / d
    } else {
        n / d + 1
    }
}

/// `n / d` rounded to 53 significant bits: halved until it fits into 53 bits, rounded
/// to an integer, and doubled as often.
pub open spec fn rounded(n: nat, d: nat) -> nat
    decreases n / d,
    when d > 0
    via halving_decreases
{
    if n / d < SIGNIFICAND_END {
        nearest_integer(n, d)
    } else {
        2 * rounded(n, 2 * d)
    }
}

#[via_fn]
proof fn halving_decreases(n: nat, d: nat) {
    if n / d >= SIGNIFICAND_END {
        lemma_halved_quotient(n, d);
    }
}

/// Doubling the divisor halves the quotient.
proof fn lemma_halved_quotient(n: nat, d: nat)
    requires
        d > 0,
    ensures
        n / (2 * d) == (n / d) / 2,
{
    lemma_div_denominator(n as int, d as int, 2);
    assert(d * 2 == 2 * d);
}

/// Rounding to 53 significant bits is rounding to a whole number of quanta.
pub proof fn lemma_rounded_is_scaled(n: nat, d: nat)
    requires
        d > 0,
    ensures
        rounded(n, d) == nearest_integer(n, d * quantum(n / d)) * quantum(n / d),
    decreases n / d,
{
    if n / d < SIGNIFICAND_END {
        assert(d * 1 == d);
        assert(nearest_integer(n, d) * 1 == nearest_integer(n, d));
    } else {
        lemma_halved_quotient(n, d);
        lemma_rounded_is_scaled(n, 2 * d);
        let q = quantum((n / d) / 2);
        assert((2 * d) * q == d * (2 * q)) by (nonlinear_arith);
        let c = nearest_integer(n, (2 * d) * q);
        assert(2 * (c * q) == c * (2 * q)) by (nonlinear_arith);
    }
}

/// The numbers of at most 53 significant bits are the whole multiples of their quanta.
pub proof fn lemma_representable_is_multiple(n: nat)
    ensures
        representable(n) <==> n % quantum(n) == 0,
    decreases n,
{
    if n >= SIGNIFICAND_END {
        let h = n / 2;
        let q = quantum(h);
        lemma_representable_is_multiple(h);
        lemma_quantum_is_power(h);
        if representable(n) {
            lemma_fundamental_div_mod(h as int, q as int);
            let k = h / q;
            assert(n == k * (2 * q)) by (nonlinear_arith)
                requires
                    n == 2 * h,
                    h == q * k,
            ;
            lemma_mod_multiples_basic(k as int, (2 * q) as int);
        }
        if n % (2 * q) == 0 {
            lemma_fundamental_div_mod(n as int, (2 * q) as int);
            let k = n / (2 * q);
            assert(n == 2 * (k * q)) by (nonlinear_arith)
                requires
                    n == (2 * q) * k,
            ;
            lemma_mod_multiples_basic(k as int, q as int);
        }
    }
}

/// The distance of the integer `v` from `n / d`, in units of `1 / d`.
pub open spec fn distance(v: nat, n: nat, d: nat) -> nat {
    if v * d >= n {
        (v * d - n) as nat
    } else {
        (n - v * d) as nat
    }
}

/// Rounds `n / d` to 53 significant bits.
pub fn round_quotient(n: u128, d: u128) -> (r: u128)
    requires
        0 < d,
        n < 0x1_0000_0000_0000_0000_0000_0000_0000,
        d < 0x1_0000_0000_0000_0000_0000_0000_0000,
    ensures
        r == rounded(n as nat, d as nat),
{
    let mut rest: u128 = n / d;
    let mut unit: u128 = 1;
    let ghost whole = (n / d) as nat;
    while rest >= SIGNIFICAND_END
        invariant
            whole < 0x1_0000_0000_0000_0000_0000_0000_0000,
            unit >= 1,
            unit * rest <= whole,
            unit == 1 || unit <= whole,
            quantum(whole) == unit * quantum(rest as nat),
        decreases rest,
    {
        proof {
            let half = (rest / 2) as int;
            assert(unit * 2 * half <= unit * rest) by (nonlinear_arith)
                requires
                    2 * half <= rest,
                    unit >= 1,
            ;
            assert(unit * 2 <= whole) by (nonlinear_arith)
                requires
                    unit * rest <= whole,
                    rest >= 2,
                    unit >= 1,
            ;
            let q = quantum((rest / 2) as nat);
            assert(unit * (2 * q) == (unit * 2) * q) by (nonlinear_arith);
        }
        unit = unit * 2;
        rest = rest / 2;
    }
    proof {
        lemma_rounded_is_scaled(n as nat, d as nat);
        assert(unit * 1 == unit);
        assert(d * unit <= n || unit == 1) by (nonlinear_arith)
            requires
                unit == 1 || unit <= whole,
                whole == n / d,
                d > 0,
        ;
        assert(d * unit > 0) by (nonlinear_arith)
            requires
                d > 0,
                unit >= 1,
        ;
        assert(d * 1 == d);
    }
    let step: u128 = d * unit;
    let low: u128 = n / step;
    let over: u128 = n % step;
    proof {
        assert(low * unit <= n) by (nonlinear_arith)
            requires
                low == n / step,
                step == d * unit,
                d >= 1,
                unit >= 1,
        ;
        assert((low + 1) * unit == low * unit + unit) by (nonlinear_arith);
    }
    if 2 * over < step || (2 * over == step && low % 2 == 0) {
        low * unit
    } else {
        (low + 1) * unit
    }
}

/// The quantum is the power of two that the number of doublings gives.
pub proof fn lemma_quantum_is_power(n: nat)
    ensures
        quantum(n) == pow2(doublings(n)),
        quantum(n) >= 1,
    decreases n,
{
    lemma_pow2_pos(doublings(n));
    if n < SIGNIFICAND_END {
        lemma2_to64();
    } else {
        lemma_quantum_is_power(n / 2);
        lemma_pow2_unfold(doublings(n));
    }
}

/// Counted in quanta, a number lies below 2^53, and from 2^52 upwards if it does itself.
pub proof fn lemma_quantum_bounds(n: nat)
    ensures
        n < SIGNIFICAND_END * quantum(n),
        n >= SIGNIFICAND_START ==> SIGNIFICAND_START * quantum(n) <= n,
    decreases n,
{
    if n >= SIGNIFICAND_END {
        lemma_quantum_bounds(n / 2);
        let q = quantum(n / 2);
        assert(SIGNIFICAND_END * (2 * q) == 2 * (SIGNIFICAND_END * q)) by (nonlinear_arith);
        assert(SIGNIFICAND_START * (2 * q) == 2 * (SIGNIFICAND_START * q)) by (nonlinear_arith);
    }
}

/// A significand of 53 bits, doubled `k` times, has been doubled `k` times.
pub proof fn lemma_doublings_of_scaled(m: nat, k: nat)
    requires
        SIGNIFICAND_START <= m < SIGNIFICAND_END,
    ensures
        doublings(m * pow2(k)) == k,
    decreases k,
{
    lemma2_to64();
    if k > 0 {
        let j = (k - 1) as nat;
        lemma_doublings_of_scaled(m, j);
        lemma_pow2_unfold(k);
        lemma_pow2_pos(j);
        assert(m * (2 * pow2(j)) == 2 * (m * pow2(j))) by (nonlinear_arith);
        assert(m * pow2(j) >= m) by (nonlinear_arith)
            requires
                pow2(j) >= 1,
        ;
    } else {
        assert(m * 1 == m);
    }
}

/// Larger numbers are doubled at least as often.
pub proof fn lemma_doublings_monotone(a: nat, b: nat)
    requires
        a <= b,
    ensures
        doublings(a) <= doublings(b),
    decreases b,
{
    if a >= SIGNIFICAND_END {
        lemma_doublings_monotone(a / 2, b / 2);
    }
}

/// The quantum of a larger number is a multiple of that of a smaller one.
pub proof fn lemma_quantum_divides(a: nat, b: nat)
    requires
        a <= b,
    ensures
        quantum(b) % quantum(a) == 0,
        quantum(a) <= quantum(b),
{
    lemma_quantum_is_power(a);
    lemma_quantum_is_power(b);
    lemma_doublings_monotone(a, b);
    let k = (doublings(b) - doublings(a)) as nat;
    lemma_pow2_adds(doublings(a), k);
    lemma_pow2_pos(k);
    let p = pow2(doublings(a));
    let f = pow2(k);
    assert(p * f == f * p) by (nonlinear_arith);
    lemma_mod_multiples_basic(f as int, p as int);
    assert(p <= f * p) by (nonlinear_arith)
        requires
            f >= 1,
    ;
}

/// Whole multiples of a power of two, with a significand of 53 bits, are representable.
pub proof fn lemma_scaled_representable(m: nat, k: nat)
    requires
        SIGNIFICAND_START <= m <= SIGNIFICAND_END,
    ensures
        representable(m * pow2(k)),
        m < SIGNIFICAND_END ==> quantum(m * pow2(k)) == pow2(k),
        m == SIGNIFICAND_END ==> quantum(m * pow2(k)) == 2 * pow2(k),
{
    let n = m * pow2(k);
    lemma_quantum_is_power(n);
    lemma_representable_is_multiple(n);
    if m < SIGNIFICAND_END {
        lemma_doublings_of_scaled(m, k);
        lemma_mod_multiples_basic(m as int, pow2(k) as int);
    } else {
        lemma_pow2_unfold(k + 1);
        let h = SIGNIFICAND_START as nat;
        assert(h * (2 * pow2(k)) == (2 * h) * pow2(k)) by (nonlinear_arith);
        lemma_doublings_of_scaled(h, k + 1);
        lemma_mod_multiples_basic(h as int, pow2(k + 1) as int);
    }
}

/// The nearest integer is at most half away, and even where it is half away.
pub proof fn lemma_nearest_integer(n: nat, d: nat)
    requires
        d > 0,
    ensures
        2 * distance(nearest_integer(n, d), n, d) <= d,
        2 * distance(nearest_integer(n, d), n, d) == d ==> nearest_integer(n, d) % 2 == 0,
        n / d <= nearest_integer(n, d) <= n / d + 1,
{
    lemma_fundamental_div_mod(n as int, d as int);
    let q = n / d;
    assert(q * d == d * q) by (nonlinear_arith);
    assert((q + 1) * d == d * q + d) by (nonlinear_arith);
    lemma_mod_bound(n as int, d as int);
}

/// The nearest integer is no farther away than any other integer, and where another
/// one is as near, it is even.
pub proof fn lemma_nearest_integer_least(n: nat, d: nat, v: nat)
    requires
        d > 0,
    ensures
        distance(nearest_integer(n, d), n, d) <= distance(v, n, d),
        v != nearest_integer(n, d) && distance(v, n, d) == distance(nearest_integer(n, d), n, d)
            ==> nearest_integer(n, d) % 2 == 0,
{
    lemma_nearest_integer(n, d);
    let c = nearest_integer(n, d);
    if v > c {
        assert(v * d >= c * d + d) by (nonlinear_arith)
            requires
                v >= c + 1,
                d > 0,
        ;
    } else if v < c {
        assert(v * d + d <= c * d) by (nonlinear_arith)
            requires
                v + 1 <= c,
                d > 0,
        ;
    }
}

/// The rounded quotient is a whole number of quanta, with a significand of 53 bits.
proof fn lemma_rounded_parts(n: nat, d: nat) -> (c: nat)
    requires
        d > 0,
    ensures
        c == nearest_integer(n, d * quantum(n / d)),
        rounded(n, d) == c * quantum(n / d),
        c <= SIGNIFICAND_END,
        n / d >= SIGNIFICAND_START ==> SIGNIFICAND_START <= c,
        n / d >= SIGNIFICAND_START ==> SIGNIFICAND_START * quantum(n / d) * d <= n,
        d * quantum(n / d) > 0,
{
    let w = n / d;
    let u = quantum(w);
    let step = d * u;
    lemma_rounded_is_scaled(n, d);
    lemma_quantum_is_power(w);
    lemma_quantum_bounds(w);
    assert(step > 0) by (nonlinear_arith)
        requires
            step == d * u,
            d > 0,
            u >= 1,
    ;
    lemma_nearest_integer(n, step);
    let c = nearest_integer(n, step);
    lemma_div_denominator(n as int, d as int, u as int);
    assert(n / step == w / u);
    assert(w / u < SIGNIFICAND_END) by (nonlinear_arith)
        requires
            w < SIGNIFICAND_END * u,
            u >= 1,
    ;
    if w >= SIGNIFICAND_START {
        assert(SIGNIFICAND_START <= w / u) by (nonlinear_arith)
            requires
                SIGNIFICAND_START * u <= w,
                u >= 1,
        ;
        lemma_fundamental_div_mod(n as int, d as int);
        assert(SIGNIFICAND_START * u * d <= d * w) by (nonlinear_arith)
            requires
                SIGNIFICAND_START * u <= w,
                d > 0,
        ;
        lemma_mod_bound(n as int, d as int);
    }
    c
}

/// Rounding yields a representable number.
pub proof fn lemma_rounded_representable(n: nat, d: nat)
    requires
        d > 0,
    ensures
        representable(rounded(n, d)),
{
    let c = lemma_rounded_parts(n, d);
    let w = n / d;
    lemma_quantum_is_power(w);
    if w >= SIGNIFICAND_START {
        lemma_scaled_representable(c, doublings(w));
    } else {
        assert(quantum(w) == 1);
        assert(c * 1 == c);
        if c == SIGNIFICAND_END {
            lemma_scaled_representable(c, 0);
            lemma2_to64();
        }
    }
}

/// Rounding errs by at most half a quantum.
pub proof fn lemma_rounded_error(n: nat, d: nat)
    requires
        d > 0,
    ensures
        2 * distance(rounded(n, d), n, d) <= d * quantum(n / d),
{
    let c = lemma_rounded_parts(n, d);
    let u = quantum(n / d);
    lemma_nearest_integer(n, d * u);
    assert((c * u) * d == c * (d * u)) by (nonlinear_arith);
}

/// Rounding does not lead below the first number of 53 bits.
pub proof fn lemma_rounded_stays_normal(n: nat, d: nat)
    requires
        d > 0,
        n / d >= SIGNIFICAND_START,
    ensures
        rounded(n, d) >= SIGNIFICAND_START,
{
    let c = lemma_rounded_parts(n, d);
    let u = quantum(n / d);
    lemma_quantum_is_power(n / d);
    assert(c * u >= c) by (nonlinear_arith)
        requires
            u >= 1,
    ;
}

/// Below 2^53 doubled `k` times, a number is doubled at most `k` times.
pub proof fn lemma_quantum_at_most(n: nat, k: nat)
    requires
        n < SIGNIFICAND_END * pow2(k),
    ensures
        doublings(n) <= k,
        quantum(n) <= pow2(k),
    decreases k,
{
    lemma_pow2_pos(k);
    if n >= SIGNIFICAND_END {
        if k == 0 {
            lemma2_to64();
        } else {
            let j = (k - 1) as nat;
            lemma_pow2_unfold(k);
            let e = SIGNIFICAND_END as nat;
            assert(e * (2 * pow2(j)) == 2 * (e * pow2(j))) by (nonlinear_arith);
            lemma_quantum_at_most(n / 2, j);
        }
    }
}

/// A representable number rounds to itself.
pub proof fn law_rounding_keeps_representable(n: nat)
    requires
        representable(n),
    ensures
        rounded(n, 1) == n,
{
    let u = quantum(n);
    lemma_rounded_is_scaled(n, 1);
    lemma_representable_is_multiple(n);
    lemma_quantum_is_power(n);
    assert(n / 1 == n);
    assert(1 * u == u);
    lemma_fundamental_div_mod(n as int, u as int);
    assert(u * (n / u) == (n / u) * u) by (nonlinear_arith);
}

/// Rounding picks the nearest: no number of 53 significant bits is nearer to the
/// exact quotient than the rounded one. Where another one is as near, the rounded
/// one has an even significand.
pub proof fn law_rounding_is_nearest(n: nat, d: nat, v: nat)
    requires
        d > 0,
        representable(v),
    ensures
        distance(rounded(n, d), n, d) <= distance(v, n, d),
        v != rounded(n, d) && distance(v, n, d) == distance(rounded(n, d), n, d) ==> (rounded(n, d)
            / quantum(rounded(n, d))) % 2 == 0,
{
    let w = n / d;
    let u = quantum(w);
    let c = lemma_rounded_parts(n, d);
    let r = c * u;
    lemma_quantum_is_power(w);
    if w < SIGNIFICAND_START {
        assert(d * u == d && c * u == c) by (nonlinear_arith)
            requires
                u == 1,
        ;
        lemma_nearest_integer(n, d);
        lemma_nearest_integer_least(n, d, v);
        assert(c / 1 == c);
    } else {
        let step = d * u;
        assert(r * d == c * step) by (nonlinear_arith)
            requires
                r == c * u,
                step == d * u,
        ;
        if v >= SIGNIFICAND_START * u {
            // At this height every number of 53 significant bits is a multiple of `u`.
            lemma_scaled_representable(SIGNIFICAND_START as nat, doublings(w));
            lemma_quantum_divides((SIGNIFICAND_START * u) as nat, v);
            lemma_quantum_is_power(v);
            lemma_representable_is_multiple(v);
            let m = quantum(v) / u;
            let k = v / quantum(v);
            lemma_fundamental_div_mod(v as int, quantum(v) as int);
            lemma_fundamental_div_mod(quantum(v) as int, u as int);
            let x = (k * m) as nat;
            assert(v == x * u) by (nonlinear_arith)
                requires
                    v == quantum(v) * k,
                    quantum(v) == u * m,
                    x == k * m,
            ;
            assert(v * d == x * step) by (nonlinear_arith)
                requires
                    v == x * u,
                    step == d * u,
            ;
            lemma_nearest_integer_least(n, step, x);
            if v != r && distance(v, n, d) == distance(r, n, d) {
                lemma_scaled_representable(c, doublings(w));
                if c < SIGNIFICAND_END {
                    lemma_div_by_multiple(c as int, u as int);
                } else {
                    let h = SIGNIFICAND_START as nat;
                    assert((2 * h) * u == h * (2 * u)) by (nonlinear_arith);
                    lemma_div_by_multiple(h as int, (2 * u) as int);
                }
            }
        } else {
            let s = SIGNIFICAND_START as nat;
            lemma_nearest_integer_least(n, step, s);
            assert(s * step == s * u * d) by (nonlinear_arith)
                requires
                    step == d * u,
            ;
            assert(v * d < s * u * d) by (nonlinear_arith)
                requires
                    v < s * u,
                    d > 0,
            ;
        }
    }
}

/// A number of at most 53 significant bits is a significand of 53 bits times a power
/// of two.
pub proof fn law_representable_means_53_bits(n: nat)
    ensures
        representable(n) <==> exists|m: nat, k: nat| #[trigger]
            (m * pow2(k)) == n && m < 0x20_0000_0000_0000,
{
    if representable(n) {
        let q = quantum(n);
        let m = n / q;
        lemma_representable_is_multiple(n);
        lemma_quantum_is_power(n);
        lemma_quantum_bounds(n);
        lemma_fundamental_div_mod(n as int, q as int);
        assert(m * q == n) by (nonlinear_arith)
            requires
                n == q * m,
        ;
        assert(m < SIGNIFICAND_END) by (nonlinear_arith)
            requires
                m == n / q,
                n < SIGNIFICAND_END * q,
                q >= 1,
        ;
        assert(m * pow2(doublings(n)) == n);
    }
    if exists|m: nat, k: nat| #[trigger] (m * pow2(k)) == n && m < 0x20_0000_0000_0000 {
        let (m, k) = choose|m: nat, k: nat| #[trigger]
            (m * pow2(k)) == n && m < 0x20_0000_0000_0000;
        lemma_doubled_is_representable(m, k);
    }
}

/// Doubling adds no significant bits.
proof fn lemma_doubled_is_representable(m: nat, k: nat)
    requires
        m < SIGNIFICAND_END,
    ensures
        representable(m * pow2(k)),
    decreases k,
{
    lemma2_to64();
    if k == 0 {
        assert(m * 1 == m);
    } else {
        let j = (k - 1) as nat;
        lemma_doubled_is_representable(m, j);
        lemma_pow2_unfold(k);
        assert(m * (2 * pow2(j)) == 2 * (m * pow2(j))) by (nonlinear_arith);
    }
}

/// Whether `p` is what IEEE 754 makes of the exact `n / d`: of all numbers of at most 53
/// significant bits it is the nearest, and where another one is as near, its own
/// significand is even.
pub open spec fn nearest(p: nat, n: nat, d: nat) -> bool {
    &&& representable(p)
    &&& forall|v: nat| #[trigger]
        representable(v) ==> {
            &&& distance(p, n, d) <= distance(v, n, d)
            &&& v != p && distance(v, n, d) == distance(p, n, d) ==> (p / quantum(p)) % 2 == 0
        }
}

/// Rounding does what IEEE 754 asks for.
pub proof fn law_rounded_is_nearest(n: nat, d: nat)
    requires
        d > 0,
    ensures
        nearest(rounded(n, d), n, d),
{
    lemma_rounded_representable(n, d);
    assert forall|v: nat| #[trigger] representable(v) implies {
        let p = rounded(n, d);
        &&& distance(p, n, d) <= distance(v, n, d)
        &&& v != p && distance(v, n, d) == distance(p, n, d) ==> (p / quantum(p)) % 2 == 0
    } by {
        law_rounding_is_nearest(n, d, v);
    }
}

/// Rounding keeps the order of integers.
pub proof fn law_rounding_is_monotone(a: nat, b: nat)
    requires
        a <= b,
    ensures
        rounded(a, 1) <= rounded(b, 1),
{
    lemma_rounded_representable(a, 1);
    lemma_rounded_representable(b, 1);
    law_rounding_is_nearest(a, 1, rounded(b, 1));
    law_rounding_is_nearest(b, 1, rounded(a, 1));
    assert(rounded(a, 1) * 1 == rounded(a, 1));
    assert(rounded(b, 1) * 1 == rounded(b, 1));
}

} // verus!
