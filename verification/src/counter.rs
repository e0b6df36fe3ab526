//! Numbers that are handed out one after the other, and start over after the largest.

use vstd::prelude::*;

verus! {

/// How many numbers there are.
pub open spec fn numbers() -> int {
    0x1_0000_0000_0000_0000
}

/// The number after `n`.
pub open spec fn next(n: u64) -> u64 {
    if n == u64::MAX {
        0
    } else {
        (n + 1) as u64
    }
}

/// The number `steps` after `n`.
pub open spec fn after(n: u64, steps: nat) -> u64
    decreases steps,
{
    if steps == 0 {
        n
    } else {
        next(after(n, (steps - 1) as nat))
    }
}

/// Hands out the number in `counter` and moves on to the next.
pub(crate) fn fetch_next(counter: &mut u64) -> (n: u64)
    ensures
        n == *old(counter),
        *final(counter) == next(*old(counter)),
{
    let n: u64 = *counter;
    *counter = n.wrapping_add(1);
    n
}

/// Numbers are handed out in counting order, and start over after the largest.
pub proof fn law_counts_up(n: u64, steps: nat)
    ensures
        after(n, steps) == (n + steps) % numbers(),
    decreases steps,
{
    if steps > 0 {
        law_counts_up(n, (steps - 1) as nat);
        vstd::arithmetic::div_mod::lemma_add_mod_noop(n + steps - 1, 1, numbers());
    }
}

/// No number is handed out twice, short of as many as there are.
pub proof fn law_distinct(n: u64, i: nat, j: nat)
    requires
        i < j,
        j - i < numbers(),
    ensures
        after(n, i) != after(n, j),
{
    law_counts_up(n, i);
    law_counts_up(n, j);
    let a = n + i;
    let b = n + j;
    let m = numbers();
    if a % m == b % m {
        vstd::arithmetic::div_mod::lemma_fundamental_div_mod(a, m);
        vstd::arithmetic::div_mod::lemma_fundamental_div_mod(b, m);
        assert(b - a == m * (b / m - a / m)) by (nonlinear_arith)
            requires
                a == m * (a / m) + a % m,
                b == m * (b / m) + b % m,
                a % m == b % m,
        ;
        assert(false) by (nonlinear_arith)
            requires
                b - a == m * (b / m - a / m),
                0 < b - a < m,
        ;
    }
}

} // verus!
