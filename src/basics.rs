//! Small numeric routines.
use vstd::prelude::*;

verus! {

/// The Fibonacci numbers, starting 1, 1, 2, 3, 5, ...; positions 0, 1 and 2 are all 1.
pub open spec fn fib(n: nat) -> nat
    decreases n,
{
    if n <= 2 {
        1
    } else {
        fib((n - 1) as nat) + fib((n - 2) as nat)
    }
}

proof fn lemma_fib_monotonic(i: nat, j: nat)
    requires
        i <= j,
    ensures
        fib(i) <= fib(j),
    decreases j - i,
{
    if i < j {
        lemma_fib_monotonic(i, (j - 1) as nat);
    }
}

/// The `n`-th Fibonacci number, for every `n` whose value fits in a `u128`.
pub fn fibonacci(n: u128) -> (r: u128)
    requires
        fib(n as nat) <= u128::MAX,
    ensures
        r == fib(n as nat),
{
    if n <= 2 {
        return 1;
    }
    let mut a: u128 = 1;
    let mut b: u128 = 1;
    let mut i: u128 = 2;
    while i < n
        invariant
            2 <= i <= n,
            a == fib((i - 1) as nat),
            b == fib(i as nat),
            fib(n as nat) <= u128::MAX,
        decreases n - i,
    {
        proof {
            lemma_fib_monotonic((i + 1) as nat, n as nat);
        }
        let t = b;
        b = a + b;
        a = t;
        i = i + 1;
    }
    b
}

pub fn five() -> (r: i32)
    ensures
        r == 5,
{
    5
}

pub fn plus_one(x: i32) -> (r: i32)
    requires
        x < i32::MAX,
    ensures
        r == x + 1,
{
    x + 1
}

} // verus!
