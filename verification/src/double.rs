//! The doubles that decimal text is written from: a positive ratio rounded to the nearest
//! double (ties to even), and the rounding of a double to a whole number of tenths or units, as
//! the formatting of a number with one or no decimal does it.

use vstd::prelude::*;

verus! {

pub const P52: u128 = 4_503_599_627_370_496;
pub const P53: u128 = 9_007_199_254_740_992;

/// Two to the power `k`.
pub open spec fn two(k: nat) -> nat
    decreases k,
{
    if k == 0 { 1 } else { 2 * two((k - 1) as nat) }
}

/// `n / d` rounded to the nearest whole number, ties to the even one.
pub open spec fn round_even(n: nat, d: nat) -> nat {
    let q = n / d;
    let r = n % d;
    if 2 * r > d || (2 * r == d && q % 2 == 1) { q + 1 } else { q }
}

/// Doubles `n` (lowering the exponent) until `n / d` reaches 2^52.
pub open spec fn raised(n: nat, d: nat, e: int) -> (nat, nat, int)
    decreases (if n < P52 * d { P52 * d - n } else { 0 }),
{
    if d == 0 || n == 0 || n >= P52 * d {
        (n, d, e)
    } else {
        raised(2 * n, d, e - 1)
    }
}

/// Doubles `d` (raising the exponent) until `n / d` falls under 2^53.
pub open spec fn lowered(n: nat, d: nat, e: int) -> (nat, nat, int)
    decreases (if n >= P53 * d { n + 1 - P53 * d } else { 0 }),
{
    if d == 0 || n < P53 * d {
        (n, d, e)
    } else {
        lowered(n, 2 * d, e + 1)
    }
}

/// The double nearest to `n / d` (both positive), ties to even, as a mantissa and an exponent:
/// its value is `m * 2^e` with `2^52 <= m < 2^53`.
pub open spec fn nearest(n: nat, d: nat) -> (nat, int) {
    let r = raised(n, d, 0);
    let l = lowered(r.0, r.1, r.2);
    let m = round_even(l.0, l.1);
    if m == P53 { (P52 as nat, l.2 + 1) } else { (m, l.2) }
}

/// `m * 2^e`, for `e` below zero, rounded to a whole number of `unit`ths, ties to even.
pub open spec fn whole_of(m: nat, e: int, unit: nat) -> nat {
    if e >= 0 {
        m * two(e as nat) * unit
    } else {
        round_even(m * unit, two((-e) as nat))
    }
}

proof fn lemma_two_pos(k: nat)
    ensures
        two(k) >= 1,
    decreases k,
{
    if k > 0 {
        lemma_two_pos((k - 1) as nat);
    }
}

proof fn lemma_two_monotone(a: nat, b: nat)
    requires
        a <= b,
    ensures
        two(a) <= two(b),
    decreases b - a,
{
    if a < b {
        lemma_two_monotone(a, (b - 1) as nat);
        lemma_two_pos((b - 1) as nat);
    }
}

/// `2^k`.
pub fn two_to(k: u32) -> (r: u128)
    requires
        k <= 127,
    ensures
        r == two(k as nat),
{
    let mut r: u128 = 1;
    let mut i: u32 = 0;
    while i < k
        invariant
            i <= k <= 127,
            r == two(i as nat),
        decreases k - i,
    {
        proof {
            lemma_two_monotone(i as nat, 126);
            assert(two(126) * 2 == two(127));
            lemma_two_127();
        }
        r = r * 2;
        i = i + 1;
    }
    r
}

pub proof fn lemma_two_step(k: nat)
    ensures
        two(k + 1) == 2 * two(k),
{
    assert((k + 1 - 1) as nat == k);
}

proof fn lemma_two_adds(a: nat, b: nat)
    ensures
        two(a + b) == two(a) * two(b),
    decreases b,
{
    if b == 0 {
        assert(a + b == a);
        assert(two(0) == 1);
    } else {
        let c = (b - 1) as nat;
        lemma_two_adds(a, c);
        lemma_two_step(a + c);
        lemma_two_step(c);
        assert(a + b == (a + c) + 1);
        assert(b == c + 1);
        let x = two(a);
        let y = two(c);
        assert(x * (2 * y) == 2 * (x * y)) by (nonlinear_arith);
        assert(two(a + b) == two((a + c) + 1));
        assert(two(a + b) == 2 * (x * y));
        assert(two(b) == 2 * y);
        assert(two(a) * two(b) == x * (2 * y));
    }
}

proof fn lemma_two_127()
    ensures
        two(127) == 0x8000_0000_0000_0000_0000_0000_0000_0000,
{
    reveal_with_fuel(two, 9);
    assert(two(8) == 256);
    assert(two(7) == 128);
    lemma_two_adds(8, 8);
    assert(two(16) == 0x1_0000);
    lemma_two_adds(16, 16);
    assert(two(32) == 0x1_0000_0000);
    lemma_two_adds(32, 32);
    assert(two(64) == 0x1_0000_0000_0000_0000);
    lemma_two_adds(64, 32);
    assert(two(96) == 0x1_0000_0000_0000_0000_0000_0000);
    lemma_two_adds(96, 16);
    assert(two(112) == 0x1_0000_0000_0000_0000_0000_0000_0000);
    lemma_two_adds(112, 8);
    assert(two(120) == 0x100_0000_0000_0000_0000_0000_0000_0000);
    lemma_two_adds(120, 7);
}

/// `n / d` rounded to the nearest whole number, ties to even.
pub fn round_half_even(n: u128, d: u128) -> (r: u128)
    requires
        d > 0,
    ensures
        r == round_even(n as nat, d as nat),
{
    let q = n / d;
    let rem = n % d;
    proof {
        assert(q <= n) by (nonlinear_arith)
            requires
                d > 0,
                q == n / d,
        ;
        assert(rem < d);
    }
    if rem > d - rem || (rem == d - rem && q % 2 == 1) {
        proof {
            assert(q < n || n == 0 || true);
            assert(q * d + rem == n) by (nonlinear_arith)
                requires
                    d > 0,
                    q == n / d,
                    rem == n % d,
            ;
            assert(q + 1 <= n) by (nonlinear_arith)
                requires
                    q * d + rem == n,
                    rem > 0,
                    d >= 1,
            ;
        }
        q + 1
    } else {
        q
    }
}

proof fn lemma_two_small()
    ensures
        two(53) == P53,
        two(52) == P52,
        two(60) == 0x1000_0000_0000_0000,
        two(64) == 0x1_0000_0000_0000_0000,
        two(113) == 0x2_0000_0000_0000_0000_0000_0000_0000,
        two(68) == 0x10_0000_0000_0000_0000,
        two(69) == 0x20_0000_0000_0000_0000,
        two(120) == 0x100_0000_0000_0000_0000_0000_0000_0000,
        two(122) == 0x400_0000_0000_0000_0000_0000_0000_0000,
        two(0) == 1,
{
    reveal_with_fuel(two, 9);
    assert(two(8) == 256);
    assert(two(4) == 16);
    assert(two(5) == 32);
    assert(two(1) == 2);
    assert(two(0) == 1);
    lemma_two_adds(8, 8);
    assert(two(16) == 0x1_0000);
    lemma_two_adds(16, 16);
    assert(two(32) == 0x1_0000_0000);
    lemma_two_adds(32, 16);
    assert(two(48) == 0x1_0000_0000_0000);
    lemma_two_adds(48, 4);
    lemma_two_adds(48, 5);
    lemma_two_adds(32, 32);
    lemma_two_adds(48, 8);
    assert(two(56) == 0x100_0000_0000_0000);
    lemma_two_adds(56, 4);
    lemma_two_127();
    lemma_two_adds(64, 32);
    assert(two(96) == 0x1_0000_0000_0000_0000_0000_0000);
    lemma_two_adds(96, 16);
    assert(two(112) == 0x1_0000_0000_0000_0000_0000_0000_0000);
    lemma_two_adds(112, 1);
    lemma_two_adds(64, 4);
    lemma_two_adds(64, 5);
    lemma_two_adds(112, 8);
    assert(two(120) == 0x100_0000_0000_0000_0000_0000_0000_0000);
    assert(two(2) == 4) by {
        reveal_with_fuel(two, 3);
    }
    lemma_two_adds(120, 2);
}

proof fn lemma_exponent_bound(k: nat, base: nat, n: nat, limit: nat)
    requires
        base >= 1,
        n == base * two(k),
        n < two(limit),
    ensures
        k < limit,
{
    if k >= limit {
        lemma_two_monotone(limit, k);
        assert(base * two(k) >= two(k)) by (nonlinear_arith)
            requires
                base >= 1,
        ;
    }
}

/// The double nearest to `n / d`, ties to even: a mantissa of 53 bits and an exponent.
pub fn nearest_double(n: u128, d: u128) -> (r: (u64, i32))
    requires
        1 <= n <= 0x100_0000_0000_0000_0000_0000_0000_0000,
        1 <= d <= 0x1000_0000_0000_0000,
    ensures
        (r.0 as nat, r.1 as int) == nearest(n as nat, d as nat),
        P52 <= r.0 < P53,
        -113 <= r.1 <= 69,
        r.1 >= 0 ==> two(r.1 as nat) * P52 * d <= 2 * n,
        r.1 < 0 ==> n * two((-r.1) as nat) < 2 * P52 * d,
        r.1 < 0 ==> P52 * d <= 2 * n * two((-r.1) as nat),
{
    proof {
        lemma_two_small();
    }
    let ghost n0 = n as nat;
    let ghost d0 = d as nat;
    let mut n = n;
    let mut d = d;
    let mut e: i32 = 0;
    let ghost mut k: nat = 0;
    while n < P52 * d
        invariant
            1 <= n,
            d == d0,
            1 <= d0 <= 0x1000_0000_0000_0000,
            1 <= n0 <= 0x100_0000_0000_0000_0000_0000_0000_0000,
            n == n0 * two(k),
            e == -k,
            k < 113,
            k == 0 || n < 2 * P52 * d,
            n <= two(120),
            raised(n as nat, d as nat, e as int) == raised(n0, d0, 0),
            two(113) == 0x2_0000_0000_0000_0000_0000_0000_0000,
            two(120) == 0x100_0000_0000_0000_0000_0000_0000_0000,
            two(64) == 0x1_0000_0000_0000_0000,
        decreases (if n < P52 * d { P52 * d - n } else { 0 }),
    {
        proof {
            assert(P52 * d <= P52 * 0x1000_0000_0000_0000) by (nonlinear_arith)
                requires
                    d <= 0x1000_0000_0000_0000,
            ;
            lemma_two_step(k);
            assert(2 * (n0 * two(k)) == n0 * two(k + 1)) by (nonlinear_arith)
                requires
                    two(k + 1) == 2 * two(k),
            ;
        }
        proof {
            assert(n * 2 < 2 * P52 * d) by (nonlinear_arith)
                requires
                    n < P52 * d,
            ;
            assert(n * 2 < two(113));
            lemma_exponent_bound(k + 1, n0, (n * 2) as nat, 113);
        }
        n = n * 2;
        e = e - 1;
        proof {
            k = k + 1;
        }
    }
    let ghost up = raised(n0, d0, 0);
    assert(raised(n as nat, d as nat, e as int) == (n as nat, d as nat, e as int));
    let ghost nn = n as nat;
    let ghost mut j: nat = 0;
    while n >= P53 * d
        invariant
            n == nn,
            1 <= nn,
            nn <= two(120),
            1 <= d,
            d == d0 * two(j),
            1 <= d0,
            j == 0 || P53 * d <= 2 * nn,
            k == 0 || j == 0,
            k == 0 || nn < P53 * d0,
            e == j - k,
            j <= 68,
            -113 <= e,
            lowered(n as nat, d as nat, e as int) == lowered(up.0, up.1, up.2),
            P53 * d <= two(122),
            two(113) == 0x2_0000_0000_0000_0000_0000_0000_0000,
            two(64) == 0x1_0000_0000_0000_0000,
            two(60) == 0x1000_0000_0000_0000,
            two(68) == 0x10_0000_0000_0000_0000,
            two(69) == 0x20_0000_0000_0000_0000,
            two(120) == 0x100_0000_0000_0000_0000_0000_0000_0000,
            two(122) == 0x400_0000_0000_0000_0000_0000_0000_0000,
            k == 0 ==> nn <= two(120),
            k == 0 ==> nn == n0,
            k > 0 ==> nn == n0 * two(k) && nn < 2 * P52 * d0 && P52 * d0 <= nn,
            j == 0 ==> d == d0,
            k == 0 ==> P52 * d0 <= nn,
        decreases (if n >= P53 * d { n + 1 - P53 * d } else { 0 }),
    {
        proof {
            lemma_two_step(j);
            assert(2 * (d0 * two(j)) == d0 * two(j + 1)) by (nonlinear_arith)
                requires
                    two(j + 1) == 2 * two(j),
            ;
            if k > 0 {
                assert(j == 0);
                assert(two(0) == 1);
                assert(d0 * two(0) == d0) by (nonlinear_arith)
                    requires
                        two(0) == 1,
                ;
                assert(d == d0);
            }
            assert(k == 0);
            assert(d * 2 * P53 <= 2 * nn);
            assert(d * 2 <= two(68)) by (nonlinear_arith)
                requires
                    d * 2 * P53 <= 2 * nn,
                    nn <= two(120),
                    two(120) == 0x100_0000_0000_0000_0000_0000_0000_0000,
                    two(68) == 0x10_0000_0000_0000_0000,
                    P53 == 9_007_199_254_740_992,
            ;
            lemma_exponent_bound(j + 1, d0, (d * 2) as nat, 69);
        }
        d = d * 2;
        e = e + 1;
        proof {
            j = j + 1;
        }
    }
    proof {
        assert(n >= P52 * d);
        assert(n < P53 * d);
        assert(j > 0 ==> two(j) * P52 * d0 <= nn) by (nonlinear_arith)
            requires
                j > 0 ==> P53 * d <= 2 * nn,
                d == d0 * two(j),
                P53 == 2 * P52,
        ;
        lemma_two_step(j);
        if k > 0 {
            lemma_two_step((k - 1) as nat);
            assert(n0 * two((k - 1) as nat) * 2 == n0 * two(k)) by (nonlinear_arith)
                requires
                    two(k) == 2 * two((k - 1) as nat),
            ;
        }
    }
    let m = round_half_even(n, d);
    proof {
        let q = n as nat / d as nat;
        assert(P52 <= q < P53) by (nonlinear_arith)
            requires
                P52 * d <= n < P53 * d,
                d >= 1,
                q == n as nat / d as nat,
        ;
        assert(m <= q + 1);
    }
    proof {
        assert(two(0) == 1);
        assert(two(1) == 2) by {
            lemma_two_step(0);
        }
        assert(two(0) * P52 * d0 == P52 * d0);
        if k == 0 {
            assert(two(j) * P52 * d0 <= n0);
            assert(two(j + 1) * P52 * d0 == 2 * (two(j) * P52 * d0)) by (nonlinear_arith)
                requires
                    two(j + 1) == 2 * two(j),
            ;
        }
        if k == 1 {
            assert(n0 * two(1) == 2 * n0);
        }
    }
    proof {
        if e < 0 {
            assert(k > 0 && j == 0);
            assert(P52 * d0 <= n0 * two(k));
            assert(P52 * d0 <= 2 * n0 * two(k)) by (nonlinear_arith)
                requires
                    P52 * d0 <= n0 * two(k),
                    n0 >= 1,
            ;
            if e + 1 < 0 {
                assert(k >= 2);
                assert(n0 * two((k - 1) as nat) * 2 == n0 * two(k));
                assert(P52 * d0 <= 2 * n0 * two((k - 1) as nat)) by (nonlinear_arith)
                    requires
                        n0 * two((k - 1) as nat) * 2 == n0 * two(k),
                        P52 * d0 <= n0 * two(k),
                ;
            }
        }
    }
    if m == P53 {
        (P52 as u64, e + 1)
    } else {
        (m as u64, e)
    }
}

/// `m * 2^e` rounded to a whole number of `unit`ths, ties to even.
pub fn whole(m: u64, e: i32, unit: u64) -> (r: u128)
    requires
        m < P53,
        -113 <= e <= 11,
        unit <= 10,
    ensures
        r == whole_of(m as nat, e as int, unit as nat),
{
    proof {
        lemma_two_small();
    }
    if e >= 0 {
        let p = two_to(e as u32);
        proof {
            lemma_two_monotone(e as nat, 11);
            lemma_two_adds(8, 3);
            reveal_with_fuel(two, 9);
            assert(two(11) == 2048);
            assert(m as u128 * p <= P53 * 2048) by (nonlinear_arith)
                requires
                    m < P53,
                    p <= 2048,
            ;
            assert(m as u128 * p * unit as u128 <= P53 * 2048 * 10) by (nonlinear_arith)
                requires
                    m as u128 * p <= P53 * 2048,
                    unit <= 10,
            ;
        }
        m as u128 * p * unit as u128
    } else {
        let p = two_to((-e) as u32);
        proof {
            lemma_two_pos((-e) as nat);
            assert(m as u128 * unit as u128 <= P53 * 10) by (nonlinear_arith)
                requires
                    m < P53,
                    unit <= 10,
            ;
        }
        round_half_even(m as u128 * unit as u128, p)
    }
}

pub proof fn lemma_two_pos_pub(k: nat)
    ensures
        two(k) >= 1,
{
    lemma_two_pos(k);
}

/// A few powers of two, by value.
pub proof fn lemma_two_values()
    ensures
        two(0) == 1,
        two(113) == 0x2_0000_0000_0000_0000_0000_0000_0000,
        two(40) == 0x100_0000_0000,
        two(52) == P52,
        two(60) == 0x1000_0000_0000_0000,
        two(80) == 0x1_0000_0000_0000_0000_0000,
{
    lemma_two_small();
    reveal_with_fuel(two, 9);
    assert(two(8) == 256);
    lemma_two_adds(8, 8);
    assert(two(16) == 0x1_0000);
    lemma_two_adds(16, 16);
    assert(two(32) == 0x1_0000_0000);
    lemma_two_adds(32, 8);
    assert(two(40) == 0x100_0000_0000);
    lemma_two_adds(64, 16);
    assert(two(80) == 0x1_0000_0000_0000_0000_0000);
}

pub proof fn lemma_two_monotone_pub(a: nat, b: nat)
    requires
        a <= b,
    ensures
        two(a) <= two(b),
{
    lemma_two_monotone(a, b);
}

/// A double under 2^53 rounded to whole `unit`ths (at most ten) stays under 2^57.
pub proof fn lemma_whole_bound(m: nat, e: int, unit: nat)
    requires
        m < P53,
        e < 0,
        1 <= unit <= 10,
    ensures
        whole_of(m, e, unit) <= 0x200_0000_0000_0000,
{
    let d = two((-e) as nat);
    lemma_two_pos((-e) as nat);
    let n = m * unit;
    assert(n / d <= n) by (nonlinear_arith)
        requires
            d >= 1,
    ;
    assert(n <= P53 * 10) by (nonlinear_arith)
        requires
            m < P53,
            unit <= 10,
            n == m * unit,
    ;
}

} // verus!
