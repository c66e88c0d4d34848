//! Growth policy arithmetic: powers of two and the smallest power of two
//! at least as large as a requested capacity.

use vstd::prelude::*;

verus! {

/// `2^e`.
pub open spec fn pow2(e: nat) -> nat
    decreases e,
{
    if e == 0 {
        1
    } else {
        2 * pow2((e - 1) as nat)
    }
}

/// Whether `n` is a power of two.
pub open spec fn is_pow2(n: nat) -> bool {
    exists|e: nat| n == pow2(e)
}

/// The smallest power of two that is at least `n`, with `next_pow2(0) == 1`.
pub open spec fn next_pow2(n: nat) -> nat
    decreases n,
{
    if n <= 1 {
        1
    } else {
        2 * next_pow2((n + 1) / 2)
    }
}

/// The largest capacity the growth policy accepts: the greatest power of two
/// that fits in `usize`. Above it, doubling would overflow.
pub open spec fn cap_limit() -> nat {
    usize::MAX as nat / 2 + 1
}

pub proof fn lemma_pow2_pos(e: nat)
    ensures
        pow2(e) >= 1,
    decreases e,
{
    if e > 0 {
        lemma_pow2_pos((e - 1) as nat);
    }
}

/// Strictly ordered powers of two are at least a factor of two apart.
pub proof fn lemma_pow2_strict_double(a: nat, b: nat)
    requires
        a < b,
    ensures
        2 * pow2(a) <= pow2(b),
    decreases b,
{
    if a + 1 == b {
        lemma_pow2_pos(a);
    } else {
        lemma_pow2_strict_double(a, (b - 1) as nat);
        lemma_pow2_pos((b - 1) as nat);
    }
}

/// `next_pow2` never falls short of its argument.
pub proof fn lemma_next_pow2_ge(n: nat)
    ensures
        next_pow2(n) >= n,
        next_pow2(n) >= 1,
    decreases n,
{
    if n > 1 {
        lemma_next_pow2_ge((n + 1) / 2);
    }
}

/// `next_pow2` never overshoots to twice its argument or more.
pub proof fn lemma_next_pow2_lt_double(n: nat)
    requires
        n >= 1,
    ensures
        next_pow2(n) < 2 * n,
        n >= 2 ==> next_pow2(n) <= 2 * (n - 1),
    decreases n,
{
    if n >= 3 {
        lemma_next_pow2_lt_double((n + 1) / 2);
        assert((n + 1) / 2 >= 2);
        assert(2 * ((n + 1) / 2) <= n + 1);
    } else if n == 2 {
        assert(next_pow2(1) == 1);
        assert(next_pow2(2) == 2);
    }
}

/// `next_pow2` returns a power of two.
pub proof fn lemma_next_pow2_is_pow2(n: nat)
    ensures
        is_pow2(next_pow2(n)),
    decreases n,
{
    if n <= 1 {
        assert(next_pow2(n) == pow2(0));
    } else {
        lemma_next_pow2_is_pow2((n + 1) / 2);
        let e = choose|e: nat| next_pow2((n + 1) / 2) == pow2(e);
        assert(next_pow2(n) == pow2(e + 1));
    }
}

/// There is exactly one power of two in `[n, 2n)`, so any power of two in
/// that range is `next_pow2(n)`.
pub proof fn lemma_next_pow2_unique(n: nat, p: nat)
    requires
        n >= 1,
        is_pow2(p),
        p >= n,
        p < 2 * n,
    ensures
        p == next_pow2(n),
{
    lemma_next_pow2_ge(n);
    lemma_next_pow2_lt_double(n);
    lemma_next_pow2_is_pow2(n);
    let a = choose|a: nat| p == pow2(a);
    let b = choose|b: nat| next_pow2(n) == pow2(b);
    if a < b {
        lemma_pow2_strict_double(a, b);
    } else if b < a {
        lemma_pow2_strict_double(b, a);
    }
}

/// The step the growth policy takes on a full block: from a capacity that is
/// zero or a power of two, the next capacity is exactly the double (or one,
/// from zero). Hence, starting from empty, the k-th reallocation caused by
/// appending leaves capacity `2^(k-1)`: appending `N` elements from empty
/// reallocates only `O(log N)` times, and each reallocation moves only the
/// live prefix of that moment.
pub proof fn lemma_full_block_capacity_doubles(c: nat)
    requires
        c == 0 || is_pow2(c),
    ensures
        c == 0 ==> next_pow2(c + 1) == 1,
        c >= 1 ==> next_pow2(c + 1) == 2 * c,
        is_pow2(next_pow2(c + 1)),
{
    lemma_next_pow2_is_pow2(c + 1);
    if c >= 1 {
        let e = choose|e: nat| c == pow2(e);
        assert(2 * c == pow2(e + 1));
        lemma_next_pow2_unique(c + 1, 2 * c);
    }
}

/// Executable form of `next_pow2`, by repeated doubling.
pub fn next_power_of_two(n: usize) -> (r: usize)
    requires
        n as nat <= cap_limit(),
    ensures
        r == next_pow2(n as nat),
{
    if n <= 1 {
        return 1;
    }
    proof {
        assert(pow2(0) == 1);
        assert(is_pow2(1nat));
    }
    let mut p: usize = 1;
    while p < n
        invariant
            2 <= n,
            n as nat <= cap_limit(),
            1 <= p,
            is_pow2(p as nat),
            p < 2 * (n as nat),
        decreases 2 * (n as nat) - p,
    {
        proof {
            let e = choose|e: nat| p as nat == pow2(e);
            assert(2 * (p as nat) == pow2(e + 1));
        }
        p = p * 2;
    }
    proof {
        lemma_next_pow2_unique(n as nat, p as nat);
    }
    p
}

} // verus!
