//! Small exact arithmetic and text operations exposed to the embedding
//! front-end: checked integer arithmetic, a Fibonacci counter, and the
//! demonstration string transform.
use vstd::prelude::*;

verus! {

use vstd::arithmetic::div_mod::lemma_div_is_ordered_by_denominator;
use crate::numeric::trunc_div;
use crate::numeric::lemma_trunc_div_bounds;
use crate::numeric::lemma_trunc_div_mag;
use crate::numeric::div_trunc;

/// Sum of two integers.
pub fn add(a: i32, b: i32) -> (r: i32)
    requires
        i32::MIN <= a + b <= i32::MAX,
    ensures
        r == a + b,
{
    a + b
}

/// Difference of two integers.
pub fn subtract(a: i32, b: i32) -> (r: i32)
    requires
        i32::MIN <= a - b <= i32::MAX,
    ensures
        r == a - b,
{
    a - b
}

/// Product of two integers.
pub fn multiply(a: i32, b: i32) -> (r: i32)
    requires
        i32::MIN <= a * b <= i32::MAX,
    ensures
        r == a * b,
{
    a * b
}

/// The quotient `divide` owes: zero for a zero divisor, otherwise the
/// quotient rounded toward zero.
pub open spec fn divide_spec(a: int, b: int) -> int {
    if b == 0 {
        0
    } else if b > 0 {
        trunc_div(a, b)
    } else {
        -trunc_div(a, -b)
    }
}

/// Quotient rounded toward zero; division by zero yields zero instead
/// of failing.
pub fn divide(a: i32, b: i32) -> (r: i32)
    requires
        !(a == i32::MIN && b == -1),
    ensures
        r == divide_spec(a as int, b as int),
{
    if b == 0 {
        return 0;
    }
    let a64: i64 = a as i64;
    let b64: i64 = b as i64;
    let pos_b: u64 = if b64 >= 0 {
        b64 as u64
    } else {
        (-b64) as u64
    };
    let q: i64 = div_trunc(a64, pos_b);
    proof {
        lemma_trunc_div_bounds(a64 as int, pos_b as int);
        if pos_b >= 2 {
            lemma_trunc_div_mag(a64 as int, pos_b as int, 0x8000_0000);
            lemma_div_is_ordered_by_denominator(0x8000_0000, 2, pos_b as int);
        }
    }
    let r64: i64 = if b64 >= 0 {
        q
    } else {
        -q
    };
    r64 as i32
}

/// The Fibonacci sequence.
pub open spec fn fib(n: nat) -> nat
    decreases n,
{
    if n == 0 {
        0
    } else if n == 1 {
        1
    } else {
        fib((n - 2) as nat) + fib((n - 1) as nat)
    }
}

/// The value `fibonacci` owes: non-positive indices count as zero.
pub open spec fn fib_of(n: int) -> nat {
    if n <= 0 {
        0
    } else {
        fib(n as nat)
    }
}

/// Fibonacci never decreases as the index grows.
pub proof fn lemma_fib_monotonic(i: nat, j: nat)
    requires
        i <= j,
    ensures
        fib(i) <= fib(j),
    decreases j - i,
{
    if i < j {
        if j >= 2 {
            lemma_fib_monotonic(i, (j - 1) as nat);
        } else {
            assert(fib(0) == 0 && fib(1) == 1);
        }
    }
}

/// The `n`-th Fibonacci number; a non-positive `n` yields zero.
pub fn fibonacci(n: i32) -> (r: i32)
    requires
        fib_of(n as int) <= i32::MAX,
    ensures
        r == fib_of(n as int),
{
    if n <= 0 {
        return 0;
    }
    if n == 1 {
        return 1;
    }
    let mut a: i32 = 0;
    let mut b: i32 = 1;
    let mut k: i32 = 1;
    while k < n
        invariant
            1 <= k <= n,
            2 <= n,
            fib(n as nat) <= i32::MAX,
            a == fib((k - 1) as nat),
            b == fib(k as nat),
        decreases n - k,
    {
        proof {
            lemma_fib_monotonic((k + 1) as nat, n as nat);
        }
        let temp: i32 = a + b;
        a = b;
        b = temp;
        k = k + 1;
    }
    b
}

/// The fixed prefix of every processed string.
pub open spec fn processed_prefix() -> Seq<char> {
    seq!['P', 'r', 'o', 'c', 'e', 's', 's', 'e', 'd', ':', ' ']
}

/// The demonstration text transform: the input's characters reversed,
/// behind a fixed prefix.
pub fn process_string(input: &Vec<char>) -> (out: Vec<char>)
    ensures
        out@ == processed_prefix() + input@.reverse(),
{
    let mut out: Vec<char> = Vec::new();
    out.push('P');
    out.push('r');
    out.push('o');
    out.push('c');
    out.push('e');
    out.push('s');
    out.push('s');
    out.push('e');
    out.push('d');
    out.push(':');
    out.push(' ');
    proof {
        assert(out@ =~= processed_prefix());
    }
    let n: usize = input.len();
    let mut idx: usize = n;
    while idx > 0
        invariant
            idx <= n,
            n == input@.len(),
            out@.len() == 11 + (n - idx),
            out@.take(11) == processed_prefix(),
            forall|j: int| 0 <= j < n - idx ==> #[trigger] out@[11 + j] == input@[n - 1 - j],
        decreases idx,
    {
        out.push(input[idx - 1]);
        proof {
            assert(out@.take(11) =~= processed_prefix());
        }
        idx = idx - 1;
    }
    proof {
        let full = processed_prefix() + input@.reverse();
        assert forall|i: int| 0 <= i < out@.len() implies out@[i] == full[i] by {
            if i < 11 {
                assert(out@[i] == out@.take(11)[i]);
            } else {
                let j = i - 11;
                assert(out@[11 + j] == input@[n - 1 - j]);
            }
        }
        assert(out@ =~= full);
    }
    out
}

} // verus!
