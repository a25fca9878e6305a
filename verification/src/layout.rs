//! Sizing rules shared by every buffer type: the inline ("short")
//! capacity, the control-block word, and the arithmetic that decides
//! where an inline control block may sit inside a heap allocation.

use vstd::prelude::*;

verus! {

/// Number of payload bytes a buffer can hold inline, without any heap
/// allocation: one byte shy of the four-word object the handles model.
pub const SHORT_CAP: usize = 31;

/// Size in bytes of a control block (one machine word on the 64-bit
/// layout this library models), which is also the alignment it needs.
pub const CB_BYTES: usize = 8;

/// Largest payload length the library accepts.  Keeping lengths below
/// half the address space (with a little slack for alignment padding
/// and the control block) mirrors the allocator's `isize::MAX` object
/// limit and keeps every capacity computation inside `usize`.
pub open spec fn spec_max_len() -> int {
    usize::MAX as int / 2 - 64
}

/// Exec twin of [`spec_max_len`].
pub fn max_len() -> (r: usize)
    ensures
        r == spec_max_len(),
{
    usize::MAX / 2 - 64
}

/// `n` rounded up to the next multiple of the control-block alignment.
pub open spec fn spec_round_up_cb(n: int) -> int {
    ((n + 7) / 8) * 8
}

pub proof fn lemma_round_up_cb_bounds(n: int)
    requires
        n >= 0,
    ensures
        spec_round_up_cb(n) >= n,
        spec_round_up_cb(n) < n + 8,
        spec_round_up_cb(n) % 8 == 0,
{
    let q = (n + 7) / 8;
    vstd::arithmetic::div_mod::lemma_fundamental_div_mod(n + 7, 8);
    vstd::arithmetic::div_mod::lemma_mod_division_less_than_divisor(n + 7, 8);
    assert(q * 8 == 8 * q) by (nonlinear_arith);
    vstd::arithmetic::div_mod::lemma_mod_multiples_basic(q, 8);
}

/// Rounds `n` up to the next multiple of the control-block alignment.
pub fn round_up_cb(n: usize) -> (r: usize)
    requires
        n <= spec_max_len(),
    ensures
        r == spec_round_up_cb(n as int),
        n <= r < n + 8,
{
    proof {
        lemma_round_up_cb_bounds(n as int);
    }
    ((n + 7) / 8) * 8
}

/// Rounding `x` down to a multiple of the control-block alignment
/// never exceeds `x`.
pub proof fn lemma_round_down_cb(x: int)
    requires
        x >= 0,
    ensures
        0 <= (x / 8) * 8 <= x,
{
    let q = x / 8;
    vstd::arithmetic::div_mod::lemma_fundamental_div_mod(x, 8);
    vstd::arithmetic::div_mod::lemma_mod_division_less_than_divisor(x, 8);
    assert(q * 8 == 8 * q) by (nonlinear_arith);
}

/// Capacity of the heap allocation made for a payload of `len` bytes:
/// the length rounded up for alignment, plus room for one inline
/// control block.
pub open spec fn spec_alloc_cap(len: int) -> int {
    spec_round_up_cb(len) + 8
}

/// Exec twin of [`spec_alloc_cap`].
pub fn alloc_cap(len: usize) -> (r: usize)
    requires
        len <= spec_max_len(),
    ensures
        r == spec_alloc_cap(len as int),
        len < r <= len + 16,
{
    proof {
        lemma_round_up_cb_bounds(len as int);
    }
    round_up_cb(len) + 8
}

} // verus!
