//! The world's deterministic random stream: a 32-bit linear congruential
//! generator whose top 24 bits make each draw.
use vstd::prelude::*;

verus! {

pub open spec fn lcg(s: u32) -> u32 {
    ((s as int * 1664525 + 1013904223) % 0x1_0000_0000) as u32
}

#[derive(Clone, Copy, Debug, PartialEq, Eq, Structural)]
pub struct Rng {
    pub state: u32,
}

impl Rng {
    /// Advance the stream and return the next draw, 0..2^24; a draw `d`
    /// stands for the fraction d / 2^24 in [0, 1).
    pub fn next(&mut self) -> (d: u32)
        ensures
            final(self).state == lcg(old(self).state),
            d == final(self).state / 256,
            d < 0x100_0000,
    {
        let s0 = self.state;
        let s1 = s0.wrapping_mul(1_664_525);
        let s2 = s1.wrapping_add(1_013_904_223);
        assert(s2 == lcg(s0)) by {
            let m: int = 0x1_0000_0000;
            assert(s1 == (s0 as int * 1664525) % m);
            assert(s2 == (s1 as int + 1013904223) % m);
            vstd::arithmetic::div_mod::lemma_add_mod_noop(s0 as int * 1664525, 1013904223, m);
            vstd::arithmetic::div_mod::lemma_mod_twice(1013904223, m);
        }
        self.state = s2;
        s2 / 256
    }

    /// Mix fresh entropy into the stream (the server does this with the
    /// clock, so rounds don't repeat).
    pub fn reseed(&mut self, seed: u32)
        ensures
            final(self).state == old(self).state ^ (((seed as int * 0x9E37_79B9) % 0x1_0000_0000) as u32
                | 1),
    {
        self.state = self.state ^ (seed.wrapping_mul(0x9E37_79B9) | 1);
    }
}

/// Indices below `n` other than `last`, and only those marked in `safe`
/// when `need_safe`, in increasing order.
pub open spec fn candidates(safe: Seq<bool>, last: int, need_safe: bool, n: int) -> Seq<usize>
    decreases n,
{
    if n <= 0 {
        Seq::empty()
    } else {
        let rest = candidates(safe, last, need_safe, n - 1);
        if n - 1 != last && (!need_safe || safe[n - 1]) {
            rest.push((n - 1) as usize)
        } else {
            rest
        }
    }
}

/// The spawn points a team may use: those other than `last` (the one it
/// used last) with no living enemy near (`safe`); failing that, any other
/// than `last`; failing that, the first.
pub open spec fn pool_of(safe: Seq<bool>, last: int) -> Seq<usize> {
    let a = candidates(safe, last, true, safe.len() as int);
    let b = candidates(safe, last, false, safe.len() as int);
    if a.len() > 0 {
        a
    } else if b.len() > 0 {
        b
    } else {
        seq![0usize]
    }
}

fn collect(safe: &[bool], last: usize, need_safe: bool) -> (r: Vec<usize>)
    ensures
        r@ == candidates(safe@, last as int, need_safe, safe@.len() as int),
{
    let mut out: Vec<usize> = Vec::new();
    let mut i: usize = 0;
    while i < safe.len()
        invariant
            i <= safe@.len(),
            out@ == candidates(safe@, last as int, need_safe, i as int),
        decreases safe.len() - i,
    {
        if i != last && (!need_safe || safe[i]) {
            out.push(i);
        }
        i = i + 1;
    }
    out
}

/// The spawn points a team chooses among at random (see `pool_of`).
pub fn spawn_pool(safe: &[bool], last: usize) -> (r: Vec<usize>)
    ensures
        r@ == pool_of(safe@, last as int),
        r@.len() > 0,
{
    let a = collect(safe, last, true);
    if a.len() > 0 {
        return a;
    }
    let b = collect(safe, last, false);
    if b.len() > 0 {
        return b;
    }
    let mut only: Vec<usize> = Vec::new();
    only.push(0);
    assert(only@ =~= seq![0usize]);
    only
}

} // verus!
