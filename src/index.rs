//! Circular index arithmetic over a list of files.
use vstd::arithmetic::div_mod::{
    lemma_fundamental_div_mod, lemma_mod_multiples_vanish, lemma_small_mod,
};
use vstd::prelude::*;

verus! {

/// Position reached from `index` after moving `offset` steps through a
/// circular list of `len` entries.
pub open spec fn wrap(index: int, offset: int, len: int) -> int {
    (index + offset) % len
}

/// `x` has remainder `t` modulo `len` when it differs from `t`, which lies
/// in `[0, len)`, by a multiple of `len`.
pub(crate) proof fn lemma_mod_of_shift(x: int, t: int, k: int, len: int)
    requires
        0 <= t < len,
        x == t + k * len,
    ensures
        x % len == t,
{
    assert(len * k == k * len) by (nonlinear_arith);
    lemma_mod_multiples_vanish(k, t, len);
    lemma_small_mod(t as nat, len as nat);
}

/// Any move through a non-empty circular list stays inside the list.
pub proof fn lemma_wrap_in_range(index: int, offset: int, len: int)
    requires
        len > 0,
    ensures
        0 <= wrap(index, offset, len) < len,
{
}

/// One step forward from the last entry reaches the first, and one step
/// back from the first reaches the last.
pub proof fn lemma_wrap_at_ends(len: int)
    requires
        len > 0,
    ensures
        wrap(len - 1, 1, len) == 0,
        wrap(0, -1, len) == len - 1,
{
    lemma_mod_of_shift(len, 0, 1, len);
    lemma_mod_of_shift(-1, len - 1, -1, len);
}

/// The index after `index`, going from the last entry back to the first.
pub fn next_index(index: usize, len: usize) -> (r: usize)
    requires
        index < len,
    ensures
        r == wrap(index as int, 1, len as int),
        index == len - 1 ==> r == 0,
{
    if index == len - 1 {
        proof {
            lemma_mod_of_shift(len as int, 0, 1, len as int);
        }
        0
    } else {
        proof {
            lemma_small_mod((index + 1) as nat, len as nat);
        }
        index + 1
    }
}

/// The index before `index`, going from the first entry to the last.
pub fn prev_index(index: usize, len: usize) -> (r: usize)
    requires
        index < len,
    ensures
        r == wrap(index as int, -1, len as int),
        index == 0 ==> r == len - 1,
{
    if index == 0 {
        proof {
            lemma_mod_of_shift(-1, len - 1, -1, len as int);
        }
        len - 1
    } else {
        proof {
            lemma_small_mod((index - 1) as nat, len as nat);
        }
        index - 1
    }
}

/// The index `offset` steps away from `index`, in either direction.
pub fn offset_index(index: usize, offset: i32, len: usize) -> (r: usize)
    requires
        index < len,
    ensures
        r == wrap(index as int, offset as int, len as int),
{
    if offset >= 0 {
        let p: usize = (offset as u32 as usize) % len;
        proof {
            lemma_fundamental_div_mod(offset as int, len as int);
            let q = offset as int / len as int;
            assert(len as int * q == q * len) by (nonlinear_arith);
            assert((q + 1) * len == q * len + len) by (nonlinear_arith);
            if index + p >= len {
                lemma_mod_of_shift(index + offset, index + p - len, q + 1, len as int);
            } else {
                lemma_mod_of_shift(index + offset, index + p, q, len as int);
            }
        }
        if index >= len - p {
            index - (len - p)
        } else {
            index + p
        }
    } else {
        let a: u32 = (-(offset as i64)) as u32;
        let m: usize = (a as usize) % len;
        proof {
            lemma_fundamental_div_mod(a as int, len as int);
            let q = a as int / len as int;
            assert(len as int * q == q * len) by (nonlinear_arith);
            assert((-q) * len == -(q * len)) by (nonlinear_arith);
            assert((-q - 1) * len == -(q * len) - len) by (nonlinear_arith);
            if index >= m {
                lemma_mod_of_shift(index + offset, index - m, -q, len as int);
            } else {
                lemma_mod_of_shift(index + offset, index + len - m, -q - 1, len as int);
            }
        }
        if index >= m {
            index - m
        } else {
            index + (len - m)
        }
    }
}

} // verus!
