//! Powers of two and integer base-2 logarithms, the arithmetic that lays out
//! bracket trees.
use vstd::prelude::*;

verus! {

/// `2^e`.
pub open spec fn two_pow(e: nat) -> nat
    decreases e,
{
    if e == 0 {
        1
    } else {
        2 * two_pow((e - 1) as nat)
    }
}

/// `floor(log2(n))` for `n >= 1` (and `0` for `n == 0`).
pub open spec fn floor_log2(n: nat) -> nat
    decreases n,
{
    if n < 2 {
        0
    } else {
        1 + floor_log2(n / 2)
    }
}

/// `2^e` is at least one.
pub proof fn lemma_two_pow_pos(e: nat)
    ensures
        two_pow(e) >= 1,
    decreases e,
{
    if e > 0 {
        lemma_two_pow_pos((e - 1) as nat);
    }
}

/// `2^e` is monotone in `e`.
pub proof fn lemma_two_pow_monotone(a: nat, b: nat)
    requires
        a <= b,
    ensures
        two_pow(a) <= two_pow(b),
    decreases b,
{
    if a < b {
        lemma_two_pow_monotone(a, (b - 1) as nat);
        lemma_two_pow_pos((b - 1) as nat);
    }
}

/// `2^(a + b) == 2^a * 2^b`.
pub proof fn lemma_two_pow_add(a: nat, b: nat)
    ensures
        two_pow(a + b) == two_pow(a) * two_pow(b),
    decreases b,
{
    if b > 0 {
        let b1 = (b - 1) as nat;
        lemma_two_pow_add(a, b1);
        assert(a + b == (a + b1) + 1);
        assert(two_pow(a + b) == 2 * two_pow(a + b1));
        assert(two_pow(b) == 2 * two_pow(b1));
        assert(two_pow(a) * (2 * two_pow(b1)) == 2 * (two_pow(a) * two_pow(b1))) by (nonlinear_arith);
    } else {
        assert(a + b == a);
        assert(two_pow(b) == 1);
    }
}

/// `floor_log2(n)` is the unique `l` with `2^l <= n < 2^(l+1)`.
pub proof fn lemma_floor_log2_bounds(n: nat)
    requires
        n >= 1,
    ensures
        two_pow(floor_log2(n)) <= n < two_pow(floor_log2(n) + 1),
    decreases n,
{
    if n >= 2 {
        lemma_floor_log2_bounds(n / 2);
    }
}

/// Any `l` with `2^l <= n < 2^(l+1)` is `floor_log2(n)`.
pub proof fn lemma_floor_log2_unique(n: nat, l: nat)
    requires
        two_pow(l) <= n < two_pow(l + 1),
    ensures
        floor_log2(n) == l,
    decreases l,
{
    lemma_two_pow_pos(l);
    if l > 0 {
        assert(two_pow(l) == 2 * two_pow((l - 1) as nat));
        assert(two_pow(l + 1) == 2 * two_pow(l));
        lemma_floor_log2_unique(n / 2, (l - 1) as nat);
    }
}

/// `2^e` computed in machine arithmetic.
pub fn pow2_u64(e: u32) -> (r: u64)
    requires
        two_pow(e as nat) <= u64::MAX,
    ensures
        r == two_pow(e as nat),
{
    let mut r: u64 = 1;
    let mut i: u32 = 0;
    while i < e
        invariant
            i <= e,
            r == two_pow(i as nat),
            two_pow(e as nat) <= u64::MAX,
        decreases e - i,
    {
        proof {
            lemma_two_pow_monotone((i + 1) as nat, e as nat);
        }
        r = r * 2;
        i = i + 1;
    }
    r
}

/// `2^64` is beyond every `u64`.
pub proof fn lemma_two_pow_64()
    ensures
        two_pow(64) == 0x1_0000_0000_0000_0000,
{
    reveal_with_fuel(two_pow, 9);
    assert(two_pow(8) == 256);
    lemma_two_pow_add(8, 8);
    assert(two_pow(16) == 65536);
    lemma_two_pow_add(16, 16);
    assert(two_pow(32) == 0x1_0000_0000);
    lemma_two_pow_add(32, 32);
}

/// `floor(log2(n))` computed in machine arithmetic.
pub fn floor_log2_u64(n: u64) -> (r: u32)
    requires
        n >= 1,
    ensures
        r == floor_log2(n as nat),
        r < 64,
{
    let mut m: u64 = n;
    let mut r: u32 = 0;
    assert(two_pow(0) == 1);
    while m >= 2
        invariant
            m >= 1,
            r + floor_log2(m as nat) == floor_log2(n as nat),
            r < 64,
            two_pow(r as nat) * m <= n,
        decreases m,
    {
        proof {
            lemma_two_pow_pos((r + 1) as nat);
            assert(two_pow((r + 1) as nat) * (m / 2) <= two_pow(r as nat) * m) by (nonlinear_arith)
                requires
                    two_pow((r + 1) as nat) == 2 * two_pow(r as nat),
            ;
            assert(two_pow((r + 1) as nat) * (m / 2) >= two_pow((r + 1) as nat)) by (nonlinear_arith)
                requires
                    m >= 2,
                    two_pow((r + 1) as nat) >= 1,
            ;
            if r + 1 >= 64 {
                lemma_two_pow_64();
                lemma_two_pow_monotone(64, (r + 1) as nat);
            }
        }
        m = m / 2;
        r = r + 1;
    }
    r
}

} // verus!
