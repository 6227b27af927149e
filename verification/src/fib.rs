//! Fibonacci numbers, three ways, each proved against the same
//! mathematical definition.

use vstd::prelude::*;

verus! {

/// The Fibonacci number of `n`.
pub open spec fn spec_fib(n: nat) -> nat
    decreases n,
{
    if n == 0 {
        0
    } else if n == 1 {
        1
    } else {
        spec_fib((n - 2) as nat) + spec_fib((n - 1) as nat)
    }
}

/// Fibonacci numbers never shrink as the index grows.
pub proof fn lemma_fib_monotonic(m: nat, n: nat)
    requires
        m <= n,
    ensures
        spec_fib(m) <= spec_fib(n),
    decreases n - m,
{
    if m < n && n >= 2 {
        lemma_fib_monotonic(m, (n - 1) as nat);
    }
}

/// The Fibonacci number of `n`, by a plain loop.
pub fn fibonacci(n: u32) -> (r: u64)
    requires
        spec_fib(n as nat) <= u64::MAX,
    ensures
        r == spec_fib(n as nat),
{
    if n == 0 {
        return 0;
    }
    let mut a: u64 = 0;
    let mut b: u64 = 1;
    let mut i: u32 = 1;
    while i < n
        invariant
            1 <= i <= n,
            a == spec_fib((i - 1) as nat),
            b == spec_fib(i as nat),
            spec_fib(n as nat) <= u64::MAX,
        decreases n - i,
    {
        proof {
            lemma_fib_monotonic((i + 1) as nat, n as nat);
        }
        let next = a + b;
        a = b;
        b = next;
        i = i + 1;
    }
    b
}

/// The consecutive pair of Fibonacci numbers at `k`, by recursion.
fn fib_pair(k: u32) -> (r: (u64, u64))
    requires
        k >= 1,
        spec_fib(k as nat) <= u64::MAX,
    ensures
        r.0 == spec_fib((k - 1) as nat),
        r.1 == spec_fib(k as nat),
    decreases k,
{
    if k == 1 {
        (0, 1)
    } else {
        proof {
            lemma_fib_monotonic((k - 1) as nat, k as nat);
        }
        let p = fib_pair(k - 1);
        (p.1, p.0 + p.1)
    }
}

/// The Fibonacci number of `n`, by recursion.
pub fn fib_recursive(n: u32) -> (r: u64)
    requires
        spec_fib(n as nat) <= u64::MAX,
    ensures
        r == spec_fib(n as nat),
{
    if n == 0 {
        0
    } else {
        fib_pair(n).1
    }
}

/// The Fibonacci number of `n`, stepping a pair through the sequence.
pub fn fib_iterative(n: u32) -> (r: u64)
    requires
        spec_fib(n as nat) <= u64::MAX,
    ensures
        r == spec_fib(n as nat),
{
    if n == 0 {
        return 0;
    }
    let mut pair: (u64, u64) = (0, 1);
    let mut i: u32 = 1;
    while i < n
        invariant
            1 <= i <= n,
            pair.0 == spec_fib((i - 1) as nat),
            pair.1 == spec_fib(i as nat),
            spec_fib(n as nat) <= u64::MAX,
        decreases n - i,
    {
        proof {
            lemma_fib_monotonic((i + 1) as nat, n as nat);
        }
        pair = (pair.1, pair.0 + pair.1);
        i = i + 1;
    }
    pair.1
}

} // verus!
