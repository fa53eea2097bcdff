//! The integer side of the spectral integrator: how many frequency bins a
//! real signal has, and the quarter turn by which each order of integration
//! rotates a bin's coefficient.

use vstd::arithmetic::power2::{lemma2_to64_rest, lemma_pow2_strictly_increases, lemma_pow2_unfold, pow2};
use vstd::prelude::*;

verus! {

/// The number of one-sided frequency bins of a real signal of `t` samples.
pub fn spectrum_bins(t: usize) -> (r: usize)
    ensures
        r == t / 2 + 1,
{
    t / 2 + 1
}

/// What integrating `n` times does to a coefficient `re + i·im`, before its
/// scaling by the `n`-th power of `1/(2πf)`: multiplication by `(−i)^n`,
/// that is a swap of the two parts for odd orders and a sign on each part.
#[derive(Clone, Copy, Debug, PartialEq, Eq, Structural)]
pub struct QuarterTurn {
    /// The new real part is taken from the imaginary part and conversely.
    pub swap: bool,
    /// The new real part changes sign.
    pub negate_re: bool,
    /// The new imaginary part changes sign.
    pub negate_im: bool,
}

/// The rotation by `(−i)^n`, by `n` modulo 4.
pub open spec fn turn_spec(n: nat) -> QuarterTurn {
    let k = n % 4;
    if k == 0 {
        QuarterTurn { swap: false, negate_re: false, negate_im: false }
    } else if k == 1 {
        QuarterTurn { swap: true, negate_re: false, negate_im: true }
    } else if k == 2 {
        QuarterTurn { swap: false, negate_re: true, negate_im: true }
    } else {
        QuarterTurn { swap: true, negate_re: true, negate_im: false }
    }
}

/// A quarter turn applied to a Gaussian integer `(re, im)`.
pub open spec fn apply_turn(q: QuarterTurn, z: (int, int)) -> (int, int) {
    let (a, b) = if q.swap {
        (z.1, z.0)
    } else {
        (z.0, z.1)
    };
    (if q.negate_re {
        -a
    } else {
        a
    }, if q.negate_im {
        -b
    } else {
        b
    })
}

/// Multiplication by `(−i)^n` of a Gaussian integer, one factor at a time.
pub open spec fn times_minus_i(n: nat, z: (int, int)) -> (int, int)
    decreases n,
{
    if n == 0 {
        z
    } else {
        let w = times_minus_i((n - 1) as nat, z);
        (w.1, -w.0)
    }
}

/// The rotation of integration order `n`.
pub fn order_turn(n: usize) -> (r: QuarterTurn)
    ensures
        r == turn_spec(n as nat),
{
    let k = n % 4;
    if k == 0 {
        QuarterTurn { swap: false, negate_re: false, negate_im: false }
    } else if k == 1 {
        QuarterTurn { swap: true, negate_re: false, negate_im: true }
    } else if k == 2 {
        QuarterTurn { swap: false, negate_re: true, negate_im: true }
    } else {
        QuarterTurn { swap: true, negate_re: true, negate_im: false }
    }
}

/// The rotation of order `n` is multiplication by `(−i)^n`; so integrating
/// `m` times and then `n` times more rotates as integrating `n + m` times.
pub proof fn lemma_turns_compose(n: nat, m: nat, z: (int, int))
    ensures
        apply_turn(turn_spec(n), z) == times_minus_i(n, z),
        apply_turn(turn_spec(n), apply_turn(turn_spec(m), z)) == apply_turn(turn_spec(n + m), z),
    decreases n,
{
    lemma_turn_is_power(n, z);
    lemma_turn_is_power(m, z);
    lemma_turn_is_power(n + m, z);
    lemma_turn_is_power(n, apply_turn(turn_spec(m), z));
    lemma_power_add(n, m, z);
}

proof fn lemma_turn_is_power(n: nat, z: (int, int))
    ensures
        apply_turn(turn_spec(n), z) == times_minus_i(n, z),
    decreases n,
{
    if n > 0 {
        lemma_turn_is_power((n - 1) as nat, z);
        assert(n % 4 == ((n - 1) as nat % 4 + 1) % 4);
    }
}

proof fn lemma_power_add(n: nat, m: nat, z: (int, int))
    ensures
        times_minus_i(n, times_minus_i(m, z)) == times_minus_i(n + m, z),
    decreases n,
{
    if n > 0 {
        lemma_power_add((n - 1) as nat, m, z);
        assert((n + m - 1) as nat == (n - 1) as nat + m);
    }
}

/// `m` with every factor 2 divided out.
pub open spec fn strip_twos(m: nat) -> nat
    decreases m,
{
    if m > 0 && m % 2 == 0 {
        strip_twos(m / 2)
    } else {
        m
    }
}

/// `m` with every factor 3 divided out.
pub open spec fn strip_threes(m: nat) -> nat
    decreases m,
{
    if m > 0 && m % 3 == 0 {
        strip_threes(m / 3)
    } else {
        m
    }
}

/// `m` has no prime factor but 2 and 3: the lengths the transform handles
/// best.
pub open spec fn smooth23(m: nat) -> bool {
    strip_threes(strip_twos(m)) == 1
}

/// Whether `m` has no prime factor but 2 and 3.
pub fn is_smooth23(m: u64) -> (r: bool)
    ensures
        r == smooth23(m as nat),
{
    if m == 0 {
        return false;
    }
    let mut x = m;
    while x % 2 == 0
        invariant
            x >= 1,
            strip_twos(x as nat) == strip_twos(m as nat),
        decreases x,
    {
        x = x / 2;
    }
    let ghost t = x as nat;
    assert(strip_twos(x as nat) == x as nat);
    while x % 3 == 0
        invariant
            x >= 1,
            strip_threes(x as nat) == strip_threes(t),
            t == strip_twos(m as nat),
        decreases x,
    {
        x = x / 3;
    }
    x == 1
}

proof fn lemma_double_keeps_smooth(p: nat)
    requires
        p >= 1,
        strip_twos(p) == 1,
    ensures
        strip_twos(2 * p) == 1,
{
    assert((2 * p) % 2 == 0);
    assert((2 * p) / 2 == p);
}

/// `2^a`.
pub open spec fn twos(a: nat) -> nat
    decreases a,
{
    if a == 0 {
        1
    } else {
        2 * twos((a - 1) as nat)
    }
}

/// `3^b`.
pub open spec fn threes(b: nat) -> nat
    decreases b,
{
    if b == 0 {
        1
    } else {
        3 * threes((b - 1) as nat)
    }
}

/// The largest 64-bit number without a prime factor but 2 and 3:
/// `2^18 · 3^29`.
pub const LARGEST_SMOOTH23: u64 = 17991041643939889152;

proof fn lemma_strip_twos_power(a: nat, x: nat)
    requires
        x >= 1,
    ensures
        twos(a) >= 1,
        strip_twos(twos(a) * x) == strip_twos(x),
    decreases a,
{
    if a > 0 {
        lemma_strip_twos_power((a - 1) as nat, x);
        let y = twos((a - 1) as nat) * x;
        assert(twos(a) * x == 2 * y) by (nonlinear_arith)
            requires
                twos(a) == 2 * twos((a - 1) as nat),
                y == twos((a - 1) as nat) * x,
        ;
        assert(y >= 1) by (nonlinear_arith)
            requires
                y == twos((a - 1) as nat) * x,
                twos((a - 1) as nat) >= 1,
                x >= 1,
        ;
        assert((2 * y) % 2 == 0);
        assert((2 * y) / 2 == y);
        assert(strip_twos(2 * y) == strip_twos(y));
    } else {
        assert(twos(0) == 1);
        assert(twos(a) * x == x) by (nonlinear_arith)
            requires
                twos(a) == 1,
        ;
    }
}

proof fn lemma_threes_odd_smooth(b: nat)
    ensures
        threes(b) >= 1,
        threes(b) % 2 == 1,
        strip_twos(threes(b)) == threes(b),
        strip_threes(threes(b)) == 1,
    decreases b,
{
    if b > 0 {
        let y = threes((b - 1) as nat);
        lemma_threes_odd_smooth((b - 1) as nat);
        assert((3 * y) % 2 == 1) by {
            assert(y == 2 * (y / 2) + 1);
            assert(3 * y == 2 * (3 * (y / 2) + 1) + 1);
        }
        assert((3 * y) % 3 == 0);
        assert((3 * y) / 3 == y);
    }
}

proof fn lemma_largest_smooth()
    ensures
        smooth23(LARGEST_SMOOTH23 as nat),
{
    reveal_with_fuel(twos, 19);
    reveal_with_fuel(threes, 30);
    assert(twos(18) == 262144);
    assert(threes(29) == 68630377364883);
    assert(LARGEST_SMOOTH23 as nat == twos(18) * threes(29));
    lemma_threes_odd_smooth(29);
    lemma_strip_twos_power(18, threes(29));
}

/// `3^b · 2^a`.
pub open spec fn cand(b: nat, a: nat) -> nat {
    threes(b) * twos(a)
}

proof fn lemma_twos_monotone(a: nat, c: nat)
    requires
        a <= c,
    ensures
        1 <= twos(a) <= twos(c),
    decreases c,
{
    if c > 0 {
        if a == c {
            lemma_twos_monotone((c - 1) as nat, (c - 1) as nat);
        } else {
            lemma_twos_monotone(a, (c - 1) as nat);
        }
    }
}

proof fn lemma_threes_monotone(a: nat, c: nat)
    requires
        a < c,
    ensures
        1 <= threes(a) < threes(c),
    decreases c,
{
    lemma_threes_odd_smooth(a);
    if c > a + 1 {
        lemma_threes_monotone(a, (c - 1) as nat);
    }
}

proof fn lemma_strip_twos_factor(k: nat) -> (a: nat)
    requires
        k >= 1,
    ensures
        k == twos(a) * strip_twos(k),
    decreases k,
{
    if k % 2 == 0 {
        let a0 = lemma_strip_twos_factor(k / 2);
        assert(k == 2 * (twos(a0) * strip_twos(k / 2))) by (nonlinear_arith)
            requires
                k / 2 == twos(a0) * strip_twos(k / 2),
                k % 2 == 0,
        ;
        assert(twos(a0 + 1) == 2 * twos(a0));
        assert(2 * (twos(a0) * strip_twos(k / 2)) == twos(a0 + 1) * strip_twos(k / 2)) by (
        nonlinear_arith)
            requires
                twos(a0 + 1) == 2 * twos(a0),
        ;
        a0 + 1
    } else {
        assert(twos(0) == 1);
        assert(k == 1 * k);
        0
    }
}

proof fn lemma_strip_threes_factor(k: nat) -> (b: nat)
    requires
        k >= 1,
    ensures
        k == threes(b) * strip_threes(k),
    decreases k,
{
    if k % 3 == 0 {
        let b0 = lemma_strip_threes_factor(k / 3);
        assert(k == 3 * (threes(b0) * strip_threes(k / 3))) by (nonlinear_arith)
            requires
                k / 3 == threes(b0) * strip_threes(k / 3),
                k % 3 == 0,
        ;
        assert(threes(b0 + 1) == 3 * threes(b0));
        assert(3 * (threes(b0) * strip_threes(k / 3)) == threes(b0 + 1) * strip_threes(k / 3))
            by (nonlinear_arith)
            requires
                threes(b0 + 1) == 3 * threes(b0),
        ;
        b0 + 1
    } else {
        assert(threes(0) == 1);
        assert(k == 1 * k);
        0
    }
}

/// A number without a prime factor but 2 and 3 is `3^b · 2^a`.
proof fn lemma_smooth_factors(k: nat) -> (r: (nat, nat))
    requires
        smooth23(k),
    ensures
        k == cand(r.0, r.1),
{
    if k == 0 {
        assert(strip_twos(0) == 0);
        assert(strip_threes(0) == 0);
    }
    let a = lemma_strip_twos_factor(k);
    let t = strip_twos(k);
    assert(t >= 1) by {
        if t == 0 {
            assert(k == twos(a) * 0);
        }
    }
    let b = lemma_strip_threes_factor(t);
    assert(t == threes(b)) by {
        assert(threes(b) * 1 == threes(b));
    }
    assert(k == threes(b) * twos(a)) by (nonlinear_arith)
        requires
            k == twos(a) * t,
            t == threes(b),
    ;
    (b, a)
}

proof fn lemma_cand_smooth(b: nat, a: nat)
    ensures
        smooth23(cand(b, a)),
        cand(b, a) >= 1,
{
    lemma_threes_odd_smooth(b);
    lemma_strip_twos_power(a, threes(b));
    lemma_twos_monotone(0, a);
    assert(cand(b, a) == twos(a) * threes(b)) by (nonlinear_arith);
    assert(cand(b, a) >= 1) by (nonlinear_arith)
        requires
            cand(b, a) == twos(a) * threes(b),
            twos(a) >= 1,
            threes(b) >= 1,
    ;
}

/// The smallest length of at least `val` samples that has no prime factor
/// but 2 and 3; below twice `val`.
pub fn find_next_pows_2_3(val: u64) -> (r: u64)
    requires
        val <= LARGEST_SMOOTH23,
    ensures
        r >= val,
        smooth23(r as nat),
        forall|k: nat| val <= k < r ==> !smooth23(k),
        val >= 1 ==> r < 2 * val,
{
    let mut bound: u64;
    if val > 0x8000_0000_0000_0000 {
        proof {
            lemma_largest_smooth();
        }
        bound = LARGEST_SMOOTH23;
    } else {
        let mut p: u64 = 1;
        let ghost mut e: nat = 0;
        assert(strip_twos(1) == 1);
        assert(strip_threes(1) == 1);
        proof {
            lemma2_to64_rest();
            assert(pow2(0) == 1) by {
                vstd::arithmetic::power2::lemma2_to64();
            }
        }
        while p < val
            invariant
                1 <= p,
                p == pow2(e),
                e <= 63,
                pow2(63) == 0x8000_0000_0000_0000,
                val <= 0x8000_0000_0000_0000,
                strip_twos(p as nat) == 1,
                p == 1 || p < 2 * val,
            decreases 63 - e,
        {
            proof {
                lemma_double_keeps_smooth(p as nat);
                if e >= 63 {
                    if e > 63 {
                        lemma_pow2_strictly_increases(63, e);
                    }
                    assert(false);
                }
                lemma_pow2_unfold(e + 1);
                if e + 1 < 63 {
                    lemma_pow2_strictly_increases(e + 1, 63);
                }
            }
            p = 2 * p;
            proof {
                e = e + 1;
            }
        }
        assert(smooth23(p as nat));
        bound = p;
    }
    // the best multiple of each power of three, up to the bound
    let v: u128 = val as u128;
    let mut best: u128 = bound as u128;
    let mut q: u128 = 1;
    let ghost mut b: nat = 0;
    proof {
        reveal_with_fuel(threes, 2);
    }
    while q <= bound as u128
        invariant
            q == threes(b),
            q >= 1,
            val <= best <= bound,
            smooth23(best as nat),
            bound <= 0xFFFF_FFFF_FFFF_FFFF,
            v == val,
            forall|b2: nat, a: nat|
                b2 < b && cand(b2, a) >= val ==> best <= #[trigger] cand(b2, a),
        decreases 3 * (bound as int) - q,
    {
        let mut c: u128 = q;
        let ghost mut j: nat = 0;
        proof {
            lemma_threes_odd_smooth(b);
            assert(cand(b, 0) == q) by {
                assert(twos(0) == 1);
                assert(threes(b) * 1 == threes(b));
            }
        }
        while c < v
            invariant
                c == cand(b, j),
                q == threes(b),
                q >= 1,
                v == val,
                c >= 1,
                j > 0 ==> cand(b, (j - 1) as nat) < val,
            decreases 2 * v - c,
        {
            proof {
                assert(twos(j + 1) == 2 * twos(j));
                assert(cand(b, j + 1) == 2 * cand(b, j)) by (nonlinear_arith)
                    requires
                        twos(j + 1) == 2 * twos(j),
                ;
            }
            c = 2 * c;
            proof {
                j = j + 1;
            }
        }
        proof {
            lemma_cand_smooth(b, j);
            assert forall|a: nat| cand(b, a) >= val implies c <= #[trigger] cand(b, a) by {
                if a < j {
                    lemma_twos_monotone(a, (j - 1) as nat);
                    assert(cand(b, a) <= cand(b, (j - 1) as nat)) by (nonlinear_arith)
                        requires
                            twos(a) <= twos((j - 1) as nat),
                            threes(b) >= 1,
                    ;
                } else {
                    lemma_twos_monotone(j, a);
                    assert(cand(b, j) <= cand(b, a)) by (nonlinear_arith)
                        requires
                            twos(j) <= twos(a),
                            threes(b) >= 1,
                    ;
                }
            }
        }
        if c < best {
            best = c;
        }
        proof {
            assert(threes(b + 1) == 3 * threes(b));
            lemma_threes_odd_smooth(b + 1);
        }
        q = 3 * q;
        proof {
            b = b + 1;
        }
    }
    proof {
        assert forall|k: nat| val <= k < best implies !smooth23(k) by {
            if smooth23(k) {
                let (b2, a) = lemma_smooth_factors(k);
                lemma_twos_monotone(0, a);
                lemma_threes_odd_smooth(b2);
                assert(threes(b2) <= k) by (nonlinear_arith)
                    requires
                        k == threes(b2) * twos(a),
                        twos(a) >= 1,
                        threes(b2) >= 1,
                ;
                if b2 >= b {
                    if b2 > b {
                        lemma_threes_monotone(b, b2);
                    }
                    assert(false);
                }
                assert(best <= cand(b2, a));
            }
        }
    }
    best as u64
}

} // verus!
