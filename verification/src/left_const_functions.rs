//! The sequences over the bounded domain: indices 0, 1, 2, ...

use vstd::arithmetic::power::pow;
use vstd::arithmetic::power2::{is_pow2, is_pow2_equiv, is_pow2_exists, lemma_pow2_unfold, pow2};
use vstd::prelude::*;

use crate::zigzag::{get_zigzag_position, state_at};

verus! {

/// The odd kernel of `n`: what is left of `n` once every factor two is
/// divided out. The odd kernel of zero is zero.
pub open spec fn odd_kernel(n: nat) -> nat
    decreases n,
{
    if n == 0 {
        0
    } else if n % 2 == 0 {
        odd_kernel(n / 2)
    } else {
        n
    }
}

/// Rook at `n`: the second-lowest bit of the odd kernel of `n`.
pub open spec fn rook_value(n: nat) -> int {
    ((odd_kernel(n) / 2) % 2) as int
}

/// The value that stands in for Rook one place left of the index `n`. Left of
/// index zero there is no index; there the value is taken to be 1.
pub open spec fn rook_before(n: nat) -> int {
    if n == 0 {
        1
    } else {
        rook_value((n - 1) as nat)
    }
}

/// Knight at `n`: the difference of the neighbouring Rook values, modulo 2.
pub open spec fn knight_value(n: nat) -> int {
    (rook_value(n + 1) - rook_before(n)) % 2
}

/// Pagoda at `n`: the difference of the neighbouring Rook values, modulo 3.
pub open spec fn pagoda_value(n: nat) -> int {
    (rook_value(n + 1) - rook_before(n)) % 3
}

/// Rueppel at `n`: 1 where `n + 1` is a power of two, else 0.
pub open spec fn rueppel_value(n: nat) -> int {
    if is_pow2(n as int + 1) {
        1
    } else {
        0
    }
}

/// ZigZag at `n`: the value of the automaton's state at position `n`.
pub open spec fn zigzag_value(n: nat) -> int {
    state_at(n).output()
}

/// Where each sequence takes its values: Rook, Knight and Rueppel in 0 and 1,
/// Pagoda and ZigZag from 0 to 2. Rook at zero is 0.
pub proof fn lemma_ranges(n: nat)
    ensures
        rook_value(0) == 0,
        rook_value(n) == 0 || rook_value(n) == 1,
        knight_value(n) == 0 || knight_value(n) == 1,
        0 <= pagoda_value(n) <= 2,
        rueppel_value(n) == 0 || rueppel_value(n) == 1,
        0 <= zigzag_value(n) <= 2,
{
}

/// The odd kernel is odd, but for that of zero.
pub proof fn lemma_odd_kernel_is_odd(n: nat)
    requires
        n > 0,
    ensures
        odd_kernel(n) % 2 == 1,
        0 < odd_kernel(n) <= n,
    decreases n,
{
    if n % 2 == 0 {
        lemma_odd_kernel_is_odd(n / 2);
    }
}

/// Every index but zero is its odd kernel times a power of two.
pub proof fn lemma_odd_kernel_times_power_of_two(n: nat)
    requires
        n > 0,
    ensures
        exists|e: nat| n == odd_kernel(n) * #[trigger] pow2(e),
    decreases n,
{
    if n % 2 == 0 {
        lemma_odd_kernel_times_power_of_two(n / 2);
        let e = choose|e: nat| n / 2 == odd_kernel(n / 2) * #[trigger] pow2(e);
        lemma_pow2_unfold(e + 1);
        assert(n == odd_kernel(n) * pow2(e + 1)) by (nonlinear_arith)
            requires
                n == 2 * (n / 2),
                n / 2 == odd_kernel(n) * pow2(e),
                pow2(e + 1) == 2 * pow2(e),
        ;
    } else {
        assert(pow2(0) == 1) by {
            vstd::arithmetic::power2::lemma2_to64();
        }
        assert(n == odd_kernel(n) * pow2(0));
    }
}

/// Doubling an index leaves its odd kernel, and with it Rook, unchanged.
pub proof fn lemma_rook_of_double(n: nat)
    ensures
        odd_kernel(2 * n) == odd_kernel(n),
        rook_value(2 * n) == rook_value(n),
{
    if n > 0 {
        assert((2 * n) % 2 == 0);
        assert((2 * n) / 2 == n);
    }
}

/// Rueppel is 1 exactly where the index plus one is two to some power.
pub proof fn lemma_rueppel_marks_powers_of_two(n: nat)
    ensures
        rueppel_value(n) == 1 <==> exists|e: nat| pow(2, e) == n + 1,
        rueppel_value(n) == 0 || rueppel_value(n) == 1,
{
    is_pow2_equiv(n as int + 1);
    assert(is_pow2_exists(n as int + 1) <==> exists|e: nat| pow(2, e) == n + 1);
}

/// Whether `n` is a power of two.
pub(crate) fn is_power_of_two(n: u128) -> (yes: bool)
    ensures
        yes == is_pow2(n as int),
{
    let mut rest: u128 = n;
    while rest > 1 && rest % 2 == 0
        invariant
            is_pow2(rest as int) == is_pow2(n as int),
        decreases rest,
    {
        proof {
            reveal(is_pow2);
        }
        rest = rest / 2;
    }
    proof {
        reveal(is_pow2);
    }
    rest == 1
}

/// Rook on an index of any width that a machine integer can hold.
pub(crate) fn rook_wide(n: u128) -> (value: i128)
    ensures
        value == rook_value(n as nat),
        value == 0 || value == 1,
{
    if n == 0 {
        return 0;
    }
    let mut kernel: u128 = n;
    while kernel % 2 == 0
        invariant
            kernel > 0,
            odd_kernel(kernel as nat) == odd_kernel(n as nat),
        decreases kernel,
    {
        kernel = kernel / 2;
    }
    ((kernel / 2) % 2) as i128
}

/// Rueppel at `n`.
pub fn rueppel(n: usize) -> (value: i128)
    ensures
        value == rueppel_value(n as nat),
        value == 1 <==> is_pow2(n + 1),
        value == 0 || value == 1,
{
    if is_power_of_two(n as u128 + 1) {
        1
    } else {
        0
    }
}

/// Rook at `n`.
pub fn rook(n: usize) -> (value: i128)
    ensures
        value == rook_value(n as nat),
        value == 0 || value == 1,
        n == 0 ==> value == 0,
{
    rook_wide(n as u128)
}

/// Knight at `n`.
pub fn knight(n: usize) -> (value: i128)
    ensures
        value == knight_value(n as nat),
        value == 0 || value == 1,
{
    let rook_n_minus_1: i128 = if n == 0 {
        1
    } else {
        rook(n - 1)
    };
    (rook_wide(n as u128 + 1) - rook_n_minus_1 + 2) % 2
}

/// Pagoda at `n`.
pub fn pagoda(n: usize) -> (value: i128)
    ensures
        value == pagoda_value(n as nat),
        0 <= value <= 2,
{
    let rook_n_minus_1: i128 = if n == 0 {
        1
    } else {
        rook(n - 1)
    };
    (rook_wide(n as u128 + 1) - rook_n_minus_1 + 3) % 3
}

/// ZigZag at `n`.
pub fn zigzag(n: usize) -> (value: i128)
    ensures
        value == zigzag_value(n as nat),
        0 <= value <= 2,
{
    get_zigzag_position(n).value()
}

} // verus!
