//! Directions of travel through a list.

use vstd::prelude::*;

verus! {

/// Where to land in a container that is expanded at the current position.
#[derive(Debug, Clone, Copy, PartialEq, Eq, Structural)]
pub enum NavigationDirection {
    /// Towards the end: land on the first entry.
    Forward,
    /// Towards the start: land on the last entry.
    Backward,
}

/// A position moved by an offset around a ring of `len` places.
pub open spec fn around(position: int, offset: int, len: int) -> int {
    (position + offset) % len
}

/// A position moved by an offset around a ring of `len` places.
pub fn wrapped(position: usize, offset: isize, len: usize) -> (r: usize)
    requires
        0 < len,
        position < len,
    ensures
        r == around(position as int, offset as int, len as int),
        r < len,
{
    let n: u128 = len as u128;
    let p: u128 = position as u128;
    let o: i128 = offset as i128;
    if o >= 0 {
        ((p + o as u128) % n) as usize
    } else {
        let back: u128 = (-o) as u128;
        let d: u128 = back % n;
        let r: u128 = (p + n - d) % n;
        proof {
            let k = back as int / n as int;
            vstd::arithmetic::div_mod::lemma_fundamental_div_mod(back as int, n as int);
            vstd::arithmetic::div_mod::lemma_mod_multiples_vanish(
                1 + k,
                p as int - back as int,
                n as int,
            );
            assert(n * (1 + k) + (p - back) == p + n - d) by (nonlinear_arith)
                requires
                    back == n * k + d,
            ;
        }
        r as usize
    }
}

/// One step forward and one step back lead to the same place.
pub proof fn around_undone(position: int, offset: int, len: int)
    requires
        0 <= position < len,
    ensures
        around(around(position, offset, len), -offset, len) == position,
{
    let t = position + offset;
    vstd::arithmetic::div_mod::lemma_fundamental_div_mod(t, len);
    vstd::arithmetic::div_mod::lemma_mod_multiples_vanish(-(t / len), position, len);
    assert(len * (-(t / len)) + position == t % len - offset) by (nonlinear_arith)
        requires
            t == len * (t / len) + t % len,
            t == position + offset,
    ;
    vstd::arithmetic::div_mod::lemma_small_mod(position as nat, len as nat);
}

} // verus!
