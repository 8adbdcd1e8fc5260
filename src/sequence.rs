use vstd::prelude::*;
use vstd::arithmetic::power2::{pow2, lemma_pow2_unfold, lemma2_to64};

verus! {

/// Length of the window that identifies a position on one axis.
pub const WINDOW: usize = 6;

/// Number of distinct windows, and so the longest period that can keep them unique.
pub const WINDOW_CODES: usize = 64;

/// Parity of the low six bits of `x`, as 0 or 1.
pub open spec fn parity6(x: u64) -> u64 {
    (x ^ (x >> 1u64) ^ (x >> 2u64) ^ (x >> 3u64) ^ (x >> 4u64) ^ (x >> 5u64)) & 1u64
}

/// One step of the six-bit shift register: shift right, feed the parity of the
/// tapped bits back in at the top.
pub open spec fn lfsr_next(state: u64, taps: u64) -> u64 {
    ((state >> 1u64) | (parity6(state & taps) << 5u64)) & 63u64
}

/// The register after `n` steps from `seed`.
pub open spec fn lfsr_state(seed: u64, taps: u64, n: nat) -> u64
    decreases n,
{
    if n == 0 {
        seed & 63u64
    } else {
        lfsr_next(lfsr_state(seed, taps, (n - 1) as nat), taps)
    }
}

/// The symbol emitted at step `n`: the low bit of the register.
pub open spec fn lfsr_bit(seed: u64, taps: u64, n: nat) -> bool {
    lfsr_state(seed, taps, n) & 1u64 == 1u64
}

/// One period of the axis sequence produced by the register.
pub open spec fn axis_sequence(seed: u64, taps: u64, period: nat) -> Seq<bool> {
    Seq::new(period, |i: int| lfsr_bit(seed, taps, i as nat))
}

/// The cyclic window of `s` that starts at offset `o`.
pub open spec fn window(s: Seq<bool>, o: int) -> Seq<bool> {
    Seq::new(WINDOW as nat, |i: int| s[(o + i) % (s.len() as int)])
}

/// Every window of one period occurs at exactly one offset.
pub open spec fn windows_unique(s: Seq<bool>) -> bool {
    forall|o1: int, o2: int|
        0 <= o1 < s.len() && 0 <= o2 < s.len() && o1 != o2 ==> #[trigger] window(s, o1) != #[trigger] window(
            s,
            o2,
        )
}

/// The bits read as a binary number, first bit most significant.
pub open spec fn bits_value(w: Seq<bool>) -> nat
    decreases w.len(),
{
    if w.len() == 0 {
        0
    } else {
        2 * bits_value(w.drop_last()) + if w.last() {
            1nat
        } else {
            0nat
        }
    }
}

pub proof fn lemma_bits_value_bound(w: Seq<bool>)
    ensures
        bits_value(w) < pow2(w.len()),
    decreases w.len(),
{
    if w.len() > 0 {
        lemma_bits_value_bound(w.drop_last());
        lemma_pow2_unfold(w.len());
    } else {
        lemma2_to64();
    }
}

/// Two bit strings of one length with the same value are equal.
pub proof fn lemma_bits_value_injective(w1: Seq<bool>, w2: Seq<bool>)
    requires
        w1.len() == w2.len(),
        bits_value(w1) == bits_value(w2),
    ensures
        w1 == w2,
    decreases w1.len(),
{
    if w1.len() > 0 {
        lemma_bits_value_injective(w1.drop_last(), w2.drop_last());
        assert(w1.last() == w2.last());
        assert(w1 =~= w2.drop_last().push(w2.last()));
        assert(w2 =~= w2.drop_last().push(w2.last()));
    } else {
        assert(w1 =~= w2);
    }
}

fn lfsr_step(state: u64, taps: u64) -> (r: u64)
    ensures
        r == lfsr_next(state, taps),
{
    let x = state & taps;
    let p = (x ^ (x >> 1u64) ^ (x >> 2u64) ^ (x >> 3u64) ^ (x >> 4u64) ^ (x >> 5u64)) & 1u64;
    ((state >> 1u64) | (p << 5u64)) & 63u64
}

/// Runs the shift register from `seed` for `period` steps and collects the symbols.
pub fn generate_axis(seed: u64, taps: u64, period: usize) -> (s: Vec<bool>)
    ensures
        s@ == axis_sequence(seed, taps, period as nat),
{
    let mut state: u64 = seed & 63u64;
    let mut out: Vec<bool> = Vec::new();
    let mut i: usize = 0;
    while i < period
        invariant
            i <= period,
            out@.len() == i,
            state == lfsr_state(seed, taps, i as nat),
            forall|k: int| 0 <= k < i ==> out@[k] == lfsr_bit(seed, taps, k as nat),
        decreases period - i,
    {
        out.push(state & 1u64 == 1u64);
        state = lfsr_step(state, taps);
        i = i + 1;
    }
    assert(out@ =~= axis_sequence(seed, taps, period as nat));
    out
}

/// Copies the cyclic window of `s` at offset `o`.
pub fn window_at(s: &Vec<bool>, o: usize) -> (w: Vec<bool>)
    requires
        0 < s@.len() <= WINDOW_CODES,
    ensures
        w@ == window(s@, o as int),
{
    let n = s.len();
    let mut w: Vec<bool> = Vec::new();
    let mut i: usize = 0;
    while i < WINDOW
        invariant
            n == s@.len(),
            0 < n <= WINDOW_CODES,
            i <= WINDOW,
            w@.len() == i,
            forall|k: int| 0 <= k < i ==> w@[k] == s@[(o + k) % (n as int)],
        decreases WINDOW - i,
    {
        let j = ((o % n) + i) % n;
        proof {
            vstd::arithmetic::div_mod::lemma_add_mod_noop(o as int, i as int, n as int);
            assert(((o % n) + i) % (n as int) == (o + i) % (n as int)) by {
                vstd::arithmetic::div_mod::lemma_add_mod_noop_right(o as int, i as int, n as int);
                vstd::arithmetic::div_mod::lemma_mod_twice(o as int, n as int);
                vstd::arithmetic::div_mod::lemma_add_mod_noop(o as int, i as int, n as int);
                vstd::arithmetic::div_mod::lemma_add_mod_noop((o % n) as int, i as int, n as int);
            }
        }
        w.push(s[j]);
        i = i + 1;
    }
    assert(w@ =~= window(s@, o as int));
    w
}

/// The value of a window, as the key of the index.
pub fn window_code(w: &Vec<bool>) -> (k: usize)
    requires
        w@.len() == WINDOW,
    ensures
        k == bits_value(w@),
        k < WINDOW_CODES,
{
    let mut k: usize = 0;
    let mut i: usize = 0;
    proof {
        lemma2_to64();
    }
    while i < WINDOW
        invariant
            w@.len() == WINDOW,
            i <= WINDOW,
            k == bits_value(w@.take(i as int)),
            k < pow2(i as nat),
            pow2(6) == 64,
        decreases WINDOW - i,
    {
        proof {
            assert(w@.take(i + 1).drop_last() =~= w@.take(i as int));
            lemma_pow2_unfold((i + 1) as nat);
        }
        let b: usize = if w[i] {
            1
        } else {
            0
        };
        proof {
            lemma_pow2_within_window(i as nat);
        }
        k = 2 * k + b;
        i = i + 1;
    }
    assert(w@.take(6) =~= w@);
    k
}

proof fn lemma_pow2_within_window(i: nat)
    requires
        i < 6,
    ensures
        pow2(i + 1) <= 64,
{
    lemma2_to64();
    if i + 1 < 6 {
        vstd::arithmetic::power2::lemma_pow2_strictly_increases(i + 1, 6);
    }
}

} // verus!
