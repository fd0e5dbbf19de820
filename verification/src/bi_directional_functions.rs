//! The sequences over the bi-directional domain: every integer is an index.
//!
//! On the indices from zero upwards each sequence is the one of the bounded
//! domain. Below zero it follows a symmetry of its own.

use vstd::arithmetic::power2::is_pow2;
use vstd::prelude::*;

use crate::left_const_functions::{is_power_of_two, rook_wide};
use crate::zigzag::get_zigzag_position;

verus! {

/// Rook at `n`. Below zero it is the complement of Rook at the mirrored index.
pub open spec fn rook_value(n: int) -> int {
    if n >= 0 {
        crate::left_const_functions::rook_value(n as nat)
    } else {
        (1 - crate::left_const_functions::rook_value((-n) as nat)) % 2
    }
}

/// Knight at `n`: the difference of the neighbouring Rook values, modulo 2.
pub open spec fn knight_value(n: int) -> int {
    (rook_value(n + 1) - rook_value(n - 1)) % 2
}

/// Pagoda at `n`: the difference of the neighbouring Rook values, modulo 3.
pub open spec fn pagoda_value(n: int) -> int {
    (rook_value(n + 1) - rook_value(n - 1)) % 3
}

/// Rueppel at `n`: an even function of the index.
pub open spec fn rueppel_value(n: int) -> int {
    if n >= 0 {
        crate::left_const_functions::rueppel_value(n as nat)
    } else {
        crate::left_const_functions::rueppel_value((-n) as nat)
    }
}

/// ZigZag at `n`. Below zero it is the complement to three of the value at
/// the mirrored position, which is `-n - 1`.
pub open spec fn zigzag_value(n: int) -> int {
    if n >= 0 {
        crate::left_const_functions::zigzag_value(n as nat)
    } else {
        (3 - crate::left_const_functions::zigzag_value((-n - 1) as nat)) % 3
    }
}

/// Rook on an index of any width that a machine integer can hold.
fn rook_signed(n: i128) -> (value: i128)
    requires
        i128::MIN < n,
    ensures
        value == rook_value(n as int),
        value == 0 || value == 1,
{
    if n < 0 {
        (1 - rook_wide((-n) as u128)) % 2
    } else {
        rook_wide(n as u128)
    }
}

/// Rook at `n`.
pub fn rook(n: isize) -> (value: i128)
    ensures
        value == rook_value(n as int),
        value == 0 || value == 1,
        n == 0 ==> value == 0,
{
    rook_signed(n as i128)
}

/// Knight at `n`.
pub fn knight(n: isize) -> (value: i128)
    ensures
        value == knight_value(n as int),
        value == 0 || value == 1,
{
    (rook_signed(n as i128 + 1) - rook_signed(n as i128 - 1) + 2) % 2
}

/// Pagoda at `n`.
pub fn pagoda(n: isize) -> (value: i128)
    ensures
        value == pagoda_value(n as int),
        0 <= value <= 2,
{
    (rook_signed(n as i128 + 1) - rook_signed(n as i128 - 1) + 3) % 3
}

/// Rueppel at `n`.
pub fn rueppel(n: isize) -> (value: i128)
    ensures
        value == rueppel_value(n as int),
        value == 1 <==> is_pow2(if n >= 0 { n + 1 } else { 1 - n }),
        value == 0 || value == 1,
{
    let magnitude: u128 = if n < 0 {
        (-(n as i128)) as u128
    } else {
        n as u128
    };
    if is_power_of_two(magnitude + 1) {
        1
    } else {
        0
    }
}

/// ZigZag at `n`.
pub fn zigzag(n: isize) -> (value: i128)
    ensures
        value == zigzag_value(n as int),
        0 <= value <= 2,
{
    if n < 0 {
        (3 - get_zigzag_position((-(n + 1)) as usize).value()) % 3
    } else {
        get_zigzag_position(n as usize).value()
    }
}

/// Reflection: Rook at zero is 0, and at every other index Rook and its
/// mirror image are complements of each other.
pub proof fn lemma_rook_reflection(n: int)
    ensures
        rook_value(0) == 0,
        n > 0 ==> (rook_value(-n) + rook_value(n)) % 2 == 1,
        n != 0 ==> rook_value(-n) == 1 - rook_value(n),
{
}

/// Rueppel is an even function: it takes the same value at `n` and at `-n`.
pub proof fn lemma_rueppel_even(n: int)
    ensures
        rueppel_value(n) == rueppel_value(-n),
{
}

/// At a negative index and at its mirrored position, which is `-n - 1`, the
/// two ZigZag values add up to a multiple of three.
pub proof fn lemma_zigzag_negative_index(n: int)
    requires
        n < 0,
    ensures
        (zigzag_value(n) + zigzag_value(-n - 1)) % 3 == 0,
{
}

/// From index zero upwards the two domains agree. In particular the value 1
/// that the bounded domain takes left of index zero is Rook at -1.
pub proof fn lemma_domains_agree(n: nat)
    ensures
        rook_value(-1) == 1,
        rook_value(n as int) == crate::left_const_functions::rook_value(n),
        rook_value(n as int - 1) == crate::left_const_functions::rook_before(n),
        knight_value(n as int) == crate::left_const_functions::knight_value(n),
        pagoda_value(n as int) == crate::left_const_functions::pagoda_value(n),
        rueppel_value(n as int) == crate::left_const_functions::rueppel_value(n),
        zigzag_value(n as int) == crate::left_const_functions::zigzag_value(n),
{
    reveal_with_fuel(crate::left_const_functions::odd_kernel, 2);
}

} // verus!
