//! A small random number generator for shuffling.

use vstd::prelude::*;

use crate::ordering;

verus! {

/// A xorshift generator with 64 bits of state. It is not meant for secrets.
pub struct SimpleRng {
    pub state: u64,
}

/// One xorshift step.
pub open spec fn xorshift(x: u64) -> u64 {
    let a = x ^ (x << 13);
    let b = a ^ (a >> 7);
    b ^ (b << 17)
}

/// The number of 64-bit values.
pub open spec fn full() -> int {
    0x1_0000_0000_0000_0000
}

/// Draws whose low half lies below this are rejected, so that every number
/// below the bound is equally likely.
pub open spec fn reject_below(bound: int) -> int {
    if bound == 0 {
        0
    } else {
        (full() - bound) % bound
    }
}

/// The state after the first accepted draw, with at most `more` draws after
/// the first.
pub open spec fn drawn(state: u64, bound: int, more: nat) -> u64
    decreases more,
{
    let x = xorshift(state);
    if more == 0 || (x * bound) % full() >= reject_below(bound) {
        x
    } else {
        drawn(x, bound, (more - 1) as nat)
    }
}

/// The state after drawing a number below `bound`.
pub open spec fn state_after(state: u64, bound: int) -> u64 {
    drawn(state, bound, u64::MAX as nat)
}

/// The number below `bound` that is drawn in the given state.
pub open spec fn number_drawn(state: u64, bound: int) -> int {
    (state_after(state, bound) * bound) / full()
}

/// `getrandom::fill`: eight bytes from the system's random source, as a number;
/// none where the source fails. Nothing is claimed of the number.
#[verifier::external_body]
fn system_seed() -> Option<u64> {
    let mut buf = [0u8; 8];
    match getrandom::fill(&mut buf) {
        Ok(()) => Some(u64::from_ne_bytes(buf)),
        Err(_) => None,
    }
}

/// `SystemTime::elapsed` of std for the beginning of 1970: nanoseconds, cut to 64
/// bits; none where the clock stands before it. Nothing is claimed of the number.
#[verifier::external_body]
fn clock_seed() -> Option<u64> {
    match std::time::UNIX_EPOCH.elapsed() {
        Ok(d) => Some(d.as_nanos() as u64),
        Err(_) => None,
    }
}

/// The seed used where neither the random source nor the clock gives one.
pub const FALLBACK_SEED: u64 = 0x9E37_79B9_7F4A_7C15;

impl SimpleRng {
    /// A generator seeded by the system, or by the clock where that fails.
    pub fn new() -> (r: Self)
        ensures
            r.state != 0,
    {
        let seed: u64 = match system_seed() {
            Some(x) => x,
            None => match clock_seed() {
                Some(x) => x,
                None => FALLBACK_SEED,
            },
        };
        Self::from_seed(seed)
    }

    /// A generator with the given seed, made odd so that it is not zero.
    pub fn from_seed(seed: u64) -> (r: Self)
        ensures
            r.state == seed | 1,
            r.state != 0,
    {
        assert(seed | 1 != 0) by (bit_vector);
        SimpleRng { state: seed | 1 }
    }

    /// Makes one step and returns the new state.
    pub fn step(&mut self) -> (r: u64)
        ensures
            r == xorshift(old(self).state),
            final(self).state == r,
    {
        let x: u64 = self.state;
        let a: u64 = x ^ (x << 13);
        let b: u64 = a ^ (a >> 7);
        let c: u64 = b ^ (b << 17);
        self.state = c;
        c
    }

    /// A number below `bound`; zero for a bound of zero. A draw is repeated
    /// while it is rejected, at most as often as the generator has states.
    pub fn next_usize(&mut self, bound: usize) -> (r: usize)
        ensures
            final(self).state == state_after(old(self).state, bound as int),
            r == number_drawn(old(self).state, bound as int),
            bound > 0 ==> r < bound,
            bound == 0 ==> r == 0,
    {
        let s: u128 = bound as u128;
        let span: u128 = 0x1_0000_0000_0000_0000;
        let limit: u128 = if bound == 0 {
            0
        } else {
            (span - s) % s
        };
        let mut more: u64 = u64::MAX;
        let mut x: u64 = self.step();
        proof {
            product_bound(x, bound);
        }
        let mut m: u128 = x as u128 * s;
        while m % span < limit && more > 0
            invariant
                s == bound,
                span == full(),
                limit == reject_below(bound as int),
                m == x * bound,
                self.state == x,
                state_after(old(self).state, bound as int) == (if more == 0 || (x * bound) % full()
                    >= reject_below(bound as int) {
                    x
                } else {
                    drawn(x, bound as int, (more - 1) as nat)
                }),
            decreases more,
        {
            more = more - 1;
            x = self.step();
            proof {
                product_bound(x, bound);
            }
            m = x as u128 * s;
        }
        proof {
            let f = full();
            assert(m as int / f <= x as int && (bound > 0 ==> m as int / f < bound as int) && m
                as int / f >= 0 && (bound == 0 ==> m as int / f == 0)) by (nonlinear_arith)
                requires
                    m == x * bound,
                    0 <= x < f,
                    0 <= bound <= f,
                    f == 0x1_0000_0000_0000_0000int,
            ;
        }
        (m / span) as usize
    }
}

proof fn product_bound(x: u64, bound: usize)
    ensures
        0 <= x * bound <= u128::MAX,
{
    assert(0 <= x * bound <= u128::MAX) by (nonlinear_arith)
        requires
            0 <= x <= u64::MAX,
            0 <= bound <= u64::MAX,
    ;
}

/// A step never leads to the zero state, from which no other state is reached.
pub proof fn state_stays_nonzero(x: u64)
    requires
        x != 0,
    ensures
        xorshift(x) != 0,
{
    assert(x != 0 ==> (x ^ (x << 13)) != 0) by (bit_vector);
    let a = x ^ (x << 13);
    assert(a != 0 ==> (a ^ (a >> 7)) != 0) by (bit_vector);
    let b = a ^ (a >> 7);
    assert(b != 0 ==> (b ^ (b << 17)) != 0) by (bit_vector);
}

/// Two places of a sequence exchanged.
pub open spec fn exchanged<T>(s: Seq<T>, i: int, j: int) -> Seq<T> {
    s.update(i, s[j]).update(j, s[i])
}

/// A Fisher-Yates shuffle from place `i` downwards: each place is exchanged
/// with one drawn from those up to it.
pub open spec fn shuffled_from(s: Seq<usize>, state: u64, i: int) -> Seq<usize>
    decreases i,
{
    if i <= 0 {
        s
    } else {
        shuffled_from(
            exchanged(s, i, number_drawn(state, i + 1)),
            state_after(state, i + 1),
            i - 1,
        )
    }
}

/// The numbers below `n` in their order.
pub open spec fn counting(n: int) -> Seq<usize> {
    Seq::new(n as nat, |i: int| i as usize)
}

/// The shuffled numbers below `n` that a generator in the given state yields.
pub open spec fn shuffled_order(n: int, state: u64) -> Seq<usize> {
    shuffled_from(counting(n), state, n - 1)
}

proof fn exchange_arranges(s: Seq<usize>, i: int, j: int, n: int)
    requires
        ordering::arranges(s, 0, n),
        0 <= i < n,
        0 <= j < n,
    ensures
        ordering::arranges(exchanged(s, i, j), 0, n),
{
    let t = exchanged(s, i, j);
    assert forall|a: int, b: int| 0 <= a < n && 0 <= b < n && a != b implies t[a] != t[b] by {
        let a0 = if a == i { j } else if a == j { i } else { a };
        let b0 = if b == i { j } else if b == j { i } else { b };
        assert(t[a] == s[a0] && t[b] == s[b0] && a0 != b0);
    }
}

/// The numbers below `n` in their order hold each of them once.
pub proof fn counting_arranges(n: int)
    requires
        0 <= n <= usize::MAX,
    ensures
        ordering::arranges(counting(n), 0, n),
{
    assert forall|a: int, b: int| 0 <= a < n && 0 <= b < n && a != b implies counting(n)[a]
        != counting(n)[b] by {
        assert(a as usize as int == a && b as usize as int == b);
    }
}

/// A number that is drawn lies below its bound.
pub proof fn drawn_below(state: u64, bound: int)
    requires
        0 < bound,
    ensures
        0 <= number_drawn(state, bound) < bound,
{
    let x = state_after(state, bound);
    assert(0 <= (x * bound) / full() < bound) by (nonlinear_arith)
        requires
            0 <= x <= u64::MAX,
            0 < bound,
            full() == 0x1_0000_0000_0000_0000,
    ;
}

proof fn shuffle_from_arranges(s: Seq<usize>, state: u64, i: int, n: int)
    requires
        ordering::arranges(s, 0, n),
        i < n,
    ensures
        ordering::arranges(shuffled_from(s, state, i), 0, n),
    decreases i,
{
    if i > 0 {
        drawn_below(state, i + 1);
        exchange_arranges(s, i, number_drawn(state, i + 1), n);
        shuffle_from_arranges(
            exchanged(s, i, number_drawn(state, i + 1)),
            state_after(state, i + 1),
            i - 1,
            n,
        );
    }
}

/// A shuffle keeps every number, each once.
pub proof fn shuffle_arranges(n: int, state: u64)
    requires
        0 <= n <= usize::MAX,
    ensures
        ordering::arranges(shuffled_order(n, state), 0, n),
{
    counting_arranges(n);
    shuffle_from_arranges(counting(n), state, n - 1, n);
}

/// The state in which the number for place `i` is drawn when `n` numbers are
/// shuffled, from the last place down.
pub open spec fn state_for(n: int, state: u64, i: int) -> u64
    decreases n - i,
{
    if i >= n - 1 {
        state
    } else {
        state_after(state_for(n, state, i + 1), i + 2)
    }
}

proof fn state_for_next(n: int, state: u64, i: int)
    requires
        0 <= i < n - 1,
        2 <= n,
    ensures
        state_for(n, state, i) == state_for(n - 1, state_after(state, n), i),
    decreases n - i,
{
    if i < n - 2 {
        state_for_next(n, state, i + 1);
    } else {
        reveal_with_fuel(state_for, 2);
    }
}

/// What the places above `i` hold after the exchanges down to `i + 1` stays.
proof fn shuffle_settles(s: Seq<usize>, state: u64, i: int, k: int)
    requires
        i < s.len(),
        i < k < s.len(),
    ensures
        shuffled_from(s, state, i).len() == s.len(),
        shuffled_from(s, state, i)[k] == s[k],
    decreases i,
{
    if i > 0 {
        drawn_below(state, i + 1);
        shuffle_settles(
            exchanged(s, i, number_drawn(state, i + 1)),
            state_after(state, i + 1),
            i - 1,
            k,
        );
    }
}

/// The number that is drawn first decides what comes last: the entry of that number.
pub proof fn last_is_drawn_first(n: int, state: u64)
    requires
        2 <= n <= usize::MAX,
    ensures
        shuffled_order(n, state).len() == n,
        shuffled_order(n, state)[n - 1] == number_drawn(state, n),
{
    let s = counting(n);
    let j = number_drawn(state, n);
    drawn_below(state, n);
    shuffle_settles(exchanged(s, n - 1, j), state_after(state, n), n - 2, n - 1);
}

proof fn same_from(a: Seq<usize>, s: u64, t: u64, i: int, n: int)
    requires
        ordering::arranges(a, 0, n),
        i < n,
        shuffled_from(a, s, i) == shuffled_from(a, t, i),
    ensures
        forall|k: int|
            1 <= k <= i ==> number_drawn(#[trigger] state_for(i + 1, s, k), k + 1) == number_drawn(
                state_for(i + 1, t, k),
                k + 1,
            ),
    decreases i,
{
    if i > 0 {
        let (j, l) = (number_drawn(s, i + 1), number_drawn(t, i + 1));
        let (s2, t2) = (state_after(s, i + 1), state_after(t, i + 1));
        drawn_below(s, i + 1);
        drawn_below(t, i + 1);
        let (b, c) = (exchanged(a, i, j), exchanged(a, i, l));
        shuffle_settles(b, s2, i - 1, i);
        shuffle_settles(c, t2, i - 1, i);
        assert(b[i] == a[j] && c[i] == a[l]);
        assert(j == l);
        exchange_arranges(a, i, j, n);
        same_from(b, s2, t2, i - 1, n);
        assert forall|k: int| 1 <= k <= i implies number_drawn(
            #[trigger] state_for(i + 1, s, k),
            k + 1,
        ) == number_drawn(state_for(i + 1, t, k), k + 1) by {
            if k < i {
                state_for_next(i + 1, s, k);
                state_for_next(i + 1, t, k);
            }
        }
    }
}

/// Different draws give different arrangements: two shuffles come out alike only
/// where the same number was drawn for every place.
pub proof fn draws_decide_arrangement(n: int, s: u64, t: u64)
    requires
        1 <= n <= usize::MAX,
        shuffled_order(n, s) == shuffled_order(n, t),
    ensures
        forall|k: int|
            1 <= k < n ==> number_drawn(#[trigger] state_for(n, s, k), k + 1) == number_drawn(
                state_for(n, t, k),
                k + 1,
            ),
{
    counting_arranges(n);
    same_from(counting(n), s, t, n - 1, n);
}

/// Every state is reached by a step from some state, and from another than zero
/// unless it is zero itself.
pub proof fn every_state_is_reached(x: u64)
    ensures
        exists|s: u64| #[trigger] xorshift(s) == x && (x != 0 ==> s != 0),
{
    let b = x ^ (x << 17) ^ (x << 34) ^ (x << 51);
    let a = b ^ (b >> 7) ^ (b >> 14) ^ (b >> 21) ^ (b >> 28) ^ (b >> 35) ^ (b >> 42) ^ (b >> 49) ^ (
    b >> 56) ^ (b >> 63);
    let s = a ^ (a << 13) ^ (a << 26) ^ (a << 39) ^ (a << 52);
    assert(b ^ (b << 17) == x) by (bit_vector)
        requires
            b == x ^ (x << 17) ^ (x << 34) ^ (x << 51),
    ;
    assert(a ^ (a >> 7) == b) by (bit_vector)
        requires
            a == b ^ (b >> 7) ^ (b >> 14) ^ (b >> 21) ^ (b >> 28) ^ (b >> 35) ^ (b >> 42) ^ (b
                >> 49) ^ (b >> 56) ^ (b >> 63),
    ;
    assert(s ^ (s << 13) == a) by (bit_vector)
        requires
            s == a ^ (a << 13) ^ (a << 26) ^ (a << 39) ^ (a << 52),
    ;
    assert(0u64 ^ (0u64 << 13) == 0) by (bit_vector);
    assert(0u64 ^ (0u64 >> 7) == 0) by (bit_vector);
    assert(0u64 ^ (0u64 << 17) == 0) by (bit_vector);
    assert(xorshift(s) == x);
}

/// Every number below a bound is drawn in some state.
pub proof fn every_number_is_drawn(bound: int, k: int)
    requires
        0 <= k < bound <= usize::MAX,
    ensures
        exists|state: u64| state != 0 && #[trigger] number_drawn(state, bound) == k,
{
    let f = full();
    let t = reject_below(bound);
    assert(0 <= t < bound) by {
        vstd::arithmetic::div_mod::lemma_mod_bound(f - bound, bound);
    }
    // The multiples of the bound from `k * f + t` up to `(k + 1) * f` stand for `k`.
    let low = k * f + t;
    let c = (low + bound - 1) / bound;
    vstd::arithmetic::div_mod::lemma_fundamental_div_mod(low + bound - 1, bound);
    vstd::arithmetic::div_mod::lemma_mod_bound(low + bound - 1, bound);
    assert(c * bound == bound * c) by (nonlinear_arith);
    assert(low <= c * bound < low + bound);
    assert(t + bound <= f) by {
        vstd::arithmetic::div_mod::lemma_fundamental_div_mod(f - bound, bound);
        vstd::arithmetic::div_mod::lemma_div_pos_is_pos(f - bound, bound);
        let d = (f - bound) / bound;
        assert(bound * d >= 0) by (nonlinear_arith)
            requires
                bound > 0,
                d >= 0,
        ;
    }
    assert(0 <= k * f) by (nonlinear_arith)
        requires
            k >= 0,
            f > 0,
    ;
    let x: int = if c == 0 {
        1
    } else {
        c
    };
    assert(c >= 0) by {
        vstd::arithmetic::div_mod::lemma_div_pos_is_pos(low + bound - 1, bound);
    }
    if c == 0 {
        assert(0 * bound == 0 && 1 * bound == bound);
        assert(k == 0) by (nonlinear_arith)
            requires
                k * f <= 0,
                k >= 0,
                f > 0,
        ;
    }
    assert(k * f + t <= x * bound < k * f + f);
    assert(x < f) by (nonlinear_arith)
        requires
            x * bound < k * f + f,
            k + 1 <= bound,
            bound > 0,
            f > 0,
    ;
    let y = x as u64;
    every_state_is_reached(y);
    let s = choose|s: u64| #[trigger] xorshift(s) == y && (y != 0 ==> s != 0);
    let rest = x * bound - k * f;
    vstd::arithmetic::div_mod::lemma_fundamental_div_mod_converse(x * bound, f, k, rest);
    assert((y * bound) % f >= reject_below(bound));
    assert(state_after(s, bound) == y);
    assert(number_drawn(s, bound) == k);
}

/// The numbers below `n`, shuffled.
pub fn shuffle_indices(n: usize, rng: &mut SimpleRng) -> (order: Vec<usize>)
    ensures
        order@ == shuffled_order(n as int, old(rng).state),
        ordering::arranges(order@, 0, n as int),
{
    let mut order: Vec<usize> = Vec::new();
    let mut k: usize = 0;
    while k < n
        invariant
            k <= n,
            order@ == counting(k as int),
        decreases n - k,
    {
        order.push(k);
        k = k + 1;
        assert(order@ =~= counting(k as int));
    }
    if n <= 1 {
        return order;
    }
    let mut i: usize = n - 1;
    while i > 0
        invariant
            i < n,
            order@.len() == n,
            ordering::arranges(order@, 0, n as int),
            shuffled_order(n as int, old(rng).state) == shuffled_from(order@, rng.state, i as int),
        decreases i,
    {
        let ghost before = order@;
        let j: usize = rng.next_usize(i + 1);
        let a: usize = order[i];
        let b: usize = order[j];
        proof {
            exchange_arranges(before, i as int, j as int, n as int);
        }
        order.set(i, b);
        order.set(j, a);
        assert(order@ =~= exchanged(before, i as int, j as int));
        i = i - 1;
    }
    order
}

} // verus!
