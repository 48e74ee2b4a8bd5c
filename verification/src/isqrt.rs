//! Integer square root, one binary digit at a time.
use vstd::prelude::*;

verus! {

/// `s` is the square root of `n`, rounded down.
pub open spec fn is_floor_sqrt(s: int, n: int) -> bool {
    0 <= s && s * s <= n < (s + 1) * (s + 1)
}

/// The square root of `n`, rounded down; 0 for a negative `n`.
pub open spec fn floor_sqrt(n: int) -> int {
    if n < 0 {
        0
    } else {
        choose|s: int| is_floor_sqrt(s, n)
    }
}

/// No number has two rounded-down square roots.
pub proof fn lemma_floor_sqrt_unique(s1: int, s2: int, n: int)
    requires
        is_floor_sqrt(s1, n),
        is_floor_sqrt(s2, n),
    ensures
        s1 == s2,
{
    if s1 < s2 {
        assert((s1 + 1) * (s1 + 1) <= s2 * s2) by (nonlinear_arith)
            requires
                0 <= s1,
                s1 + 1 <= s2,
        ;
    } else if s2 < s1 {
        assert((s2 + 1) * (s2 + 1) <= s1 * s1) by (nonlinear_arith)
            requires
                0 <= s2,
                s2 + 1 <= s1,
        ;
    }
}

/// A rounded-down square root of `n >= 0` is `floor_sqrt(n)`.
pub proof fn lemma_floor_sqrt_is(s: int, n: int)
    requires
        is_floor_sqrt(s, n),
    ensures
        floor_sqrt(n) == s,
{
    assert(n >= 0) by (nonlinear_arith)
        requires
            s * s <= n,
    ;
    let c = choose|c: int| is_floor_sqrt(c, n);
    lemma_floor_sqrt_unique(c, s, n);
}

/// `t` is a power of four, and below it and its double `s` has no bit set.
spec fn digit_state(s: i32, t: i32) -> bool {
    &&& 0 < t <= 0x4000_0000
    &&& t & 0x5555_5555 == t
    &&& t & ((t - 1) as i32) == 0
    &&& 0 <= s
    &&& s & ((2 * t - 1) as u32 as i32) == 0
    &&& s & t == 0
}

proof fn lemma_digit_step(s: i32, t: i32)
    requires
        digit_state(s, t),
    ensures
        (s | t) == s + t,
        s % 2 == 0,
        (s >> 1) == s / 2,
        t % 2 == 0 || t == 1,
        (t >> 2) == t / 4,
        t == 1 || t == 4 * (t / 4),
        s + t + t <= i32::MAX ==> (((s + t + t) as i32) >> 1) == s / 2 + t,
        t > 1 ==> digit_state((s / 2) as i32, (t / 4) as i32),
        t > 1 && s + t + t <= i32::MAX ==> digit_state((s / 2 + t) as i32, (t / 4) as i32),
{
    assert(digit_state(s, t) ==> {
        &&& (s | t) == s + t
        &&& s % 2 == 0
        &&& (s >> 1) == s / 2
        &&& (t % 2 == 0 || t == 1)
        &&& (t >> 2) == t / 4
        &&& (t == 1 || t == 4 * (t / 4))
        &&& (s + t + t <= i32::MAX ==> (((s + t + t) as i32) >> 1) == s / 2 + t)
        &&& (t > 1 ==> digit_state((s / 2) as i32, (t / 4) as i32))
        &&& (t > 1 && s + t + t <= i32::MAX ==> digit_state(
            (s / 2 + t) as i32,
            (t / 4) as i32,
        ))
    }) by (bit_vector);
}

/// The square root of `i`, rounded down, found digit by digit from the
/// highest of its sixteen binary digits; 0 for a negative `i`.
pub fn sqrti(i: i32) -> (s: i32)
    requires
        i < 0x4000_0000,
    ensures
        i >= 0 ==> is_floor_sqrt(s as int, i as int),
        s == floor_sqrt(i as int),
{
    let mut ii: i32 = i;
    let mut s: i32 = 0;
    let mut t: i32 = 1 << 30;
    // `a` is the square of the digits found; `w` the weight of the next
    // digit's square, four times `t` while there is one.
    let ghost mut a: int = 0;
    let ghost mut w: int = 0x1_0000_0000;
    proof {
        assert(1i32 << 30 == 0x4000_0000i32) by (bit_vector);
        assert(digit_state(0i32, 0x4000_0000i32)) by (bit_vector);
    }
    while t != 0
        invariant
            i < 0x4000_0000,
            0 <= t,
            t > 0 ==> digit_state(s, t) && w == 4 * t,
            t == 0 ==> w == 1,
            0 <= s,
            0 <= a,
            ii == i - a,
            s * s == a * w,
            i >= 0 ==> a <= i,
            i < 0 ==> a == 0 && s == 0,
            i < a + 2 * s + w,
        decreases t,
    {
        let ghost s0 = s;
        let ghost t0 = t;
        let ghost a0 = a;
        proof {
            lemma_digit_step(s, t);
            lemma_digit_square(s as int, t as int, a);
        }
        s |= t;
        if s <= ii {
            ii -= s;
            s += t;
            proof {
                a = a + s0 + t0;
            }
        } else {
            s -= t;
        }
        s >>= 1;
        t >>= 2;
        proof {
            w = t0 as int;
        }
    }
    proof {
        assert(s * s == a) by (nonlinear_arith)
            requires
                s * s == a * w,
                w == 1,
        ;
        if i >= 0 {
            assert((s + 1) * (s + 1) == s * s + 2 * s + 1) by (nonlinear_arith);
            lemma_floor_sqrt_is(s as int, i as int);
        }
    }
    s
}

/// The squares that the next digit leaves, whether it is taken or not.
proof fn lemma_digit_square(s: int, t: int, a: int)
    requires
        s % 2 == 0,
        s * s == a * (4 * t),
    ensures
        (s / 2) * (s / 2) == a * t,
        (s / 2 + t) * (s / 2 + t) == (a + s + t) * t,
{
    let h = s / 2;
    assert(s == 2 * h);
    assert(h * h == a * t) by (nonlinear_arith)
        requires
            (2 * h) * (2 * h) == a * (4 * t),
    ;
    assert((h + t) * (h + t) == (a + 2 * h + t) * t) by (nonlinear_arith)
        requires
            h * h == a * t,
    ;
}

}
