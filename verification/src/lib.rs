//! A deterministic pseudo-random generator: a linear congruential generator
//! (LCG) over a 32-bit state, feeding a Box-Muller normal sampler.
//!
//! Everything the generator decides is integer and state-machine logic, and
//! is verified here: the state recurrence, the redraw policy that keeps a
//! zero out of the logarithm of the Box-Muller step, and the cache that
//! carries the second deviate of each Box-Muller pair to the next call.
//! A raw draw is the new state, an integer below the modulus; the uniform
//! sample in [0, 1) is that integer divided by the modulus, and the caller
//! finishes that division, and the transcendental steps of the transform,
//! in floating point. The raw values pin both down exactly.

use vstd::arithmetic::div_mod::{lemma_add_mod_noop, lemma_mod_mod, lemma_mod_multiples_vanish};
use vstd::prelude::*;

verus! {

/// The multiplier of the recurrence.
pub const MULTIPLIER: u32 = 1103515245;

/// The increment of the recurrence.
pub const INCREMENT: u32 = 12345;

/// The modulus of the recurrence: 2^31.
pub const MODULUS: u32 = 0x8000_0000;

/// One step of the recurrence: `(MULTIPLIER * s + INCREMENT) % MODULUS`.
///
/// The executable step wraps the multiply and the add at 32 bits before
/// reducing; `next_uniform_raw` proves that this direct statement agrees,
/// because the modulus divides 2^32.
pub open spec fn lcg_next(s: nat) -> nat {
    ((MULTIPLIER as nat) * s + (INCREMENT as nat)) % (MODULUS as nat)
}

/// The state after `n` raw draws from the seed; `n == 0` is the seed itself.
pub open spec fn nth_state(seed: nat, n: nat) -> nat
    decreases n,
{
    if n == 0 {
        seed
    } else {
        lcg_next(nth_state(seed, (n - 1) as nat))
    }
}

/// The numerators of the uniform pair that a fresh Box-Muller step draws
/// from state `s`: first `u1`, then `u2`, and when the `u1` draw lands on
/// zero, one more draw replaces `u1` (and is not checked again).
pub open spec fn fresh_uniform_pair(s: nat) -> (nat, nat) {
    let s1 = lcg_next(s);
    let s2 = lcg_next(s1);
    if s1 == 0 {
        (lcg_next(s2), s2)
    } else {
        (s1, s2)
    }
}

/// The generator's state after a fresh Box-Muller step from state `s`:
/// two draws, or three when the first lands on zero.
pub open spec fn fresh_final_state(s: nat) -> nat {
    let s1 = lcg_next(s);
    let s2 = lcg_next(s1);
    if s1 == 0 {
        lcg_next(s2)
    } else {
        s2
    }
}

/// State and cache occupancy after `n` complete normal draws, starting from
/// state `s` with an empty cache. Each draw either consumes the cached
/// deviate or performs a fresh Box-Muller step and fills the cache.
pub open spec fn normal_draws(s: nat, n: nat) -> (nat, bool)
    decreases n,
{
    if n == 0 {
        (s, false)
    } else {
        let prev = normal_draws(s, (n - 1) as nat);
        if prev.1 {
            (prev.0, false)
        } else {
            (fresh_final_state(prev.0), true)
        }
    }
}

/// What one call asking for a normal sample needs from the generator.
#[derive(Clone, Copy, PartialEq, Eq, Structural, Debug)]
pub enum NormalStep {
    /// The cache held the second deviate of an earlier pair: its IEEE-754
    /// bit pattern, now cleared from the cache. No uniform draw happened.
    Cached(u64),
    /// A fresh Box-Muller pair is due: the numerators of `u1` and `u2`
    /// over the modulus, with the zero-redraw policy already applied to
    /// `u1`. The caller computes the pair, returns the first deviate, and
    /// stores the second with `set_next_gaussian`.
    Fresh(u32, u32),
}

/// A linear congruential generator with an optional cached normal deviate.
///
/// `next_gaussian` holds the IEEE-754 bit pattern of the unconsumed second
/// deviate of a Box-Muller pair; the generator never reads the bits.
pub struct LCG {
    pub state: u32,
    pub a: u32,
    pub c: u32,
    pub m: u32,
    pub next_gaussian: Option<u64>,
}

impl LCG {
    /// The recurrence parameters are the fixed constants. The state is not
    /// constrained: any 32-bit seed is allowed, and every draw reduces the
    /// state below the modulus on its own.
    pub open spec fn wf(self) -> bool {
        &&& self.a == MULTIPLIER
        &&& self.c == INCREMENT
        &&& self.m == MODULUS
    }

    /// A new generator: the seed becomes the state, and no deviate is cached.
    pub fn new(seed: u32) -> (r: LCG)
        ensures
            r.state == seed,
            r.a == MULTIPLIER,
            r.c == INCREMENT,
            r.m == MODULUS,
            r.next_gaussian.is_none(),
            r.wf(),
    {
        LCG { state: seed, a: MULTIPLIER, c: INCREMENT, m: MODULUS, next_gaussian: None }
    }

    /// Advances the state by one step of the recurrence and returns it.
    /// The result is below the modulus, so the uniform sample, the result
    /// divided by the modulus, lies in [0, 1). The cache is untouched.
    pub fn next_uniform_raw(&mut self) -> (r: u32)
        requires
            old(self).wf(),
        ensures
            final(self).wf(),
            final(self).next_gaussian == old(self).next_gaussian,
            r == final(self).state,
            r as nat == lcg_next(old(self).state as nat),
            r < MODULUS,
    {
        let prod: u32 = self.a.wrapping_mul(self.state);
        let sum: u32 = prod.wrapping_add(self.c);
        let next: u32 = sum % self.m;
        proof {
            lemma_wrapped_step_is_lcg_next(old(self).state as nat, prod as nat, sum as nat);
        }
        self.state = next;
        next
    }

    /// One normal draw's worth of generator work: consumes the cached
    /// deviate when one is present (no uniform draw), and otherwise draws
    /// the uniform pair for a fresh Box-Muller step, redrawing `u1` once
    /// when it lands on zero. Either way the cache is empty afterwards.
    pub fn next_normal_step(&mut self) -> (r: NormalStep)
        requires
            old(self).wf(),
        ensures
            final(self).wf(),
            final(self).next_gaussian.is_none(),
            (match old(self).next_gaussian {
                Some(z) => r == NormalStep::Cached(z) && final(self).state == old(self).state,
                None => {
                    &&& final(self).state as nat == fresh_final_state(old(self).state as nat)
                    &&& r == NormalStep::Fresh(
                        fresh_uniform_pair(old(self).state as nat).0 as u32,
                        fresh_uniform_pair(old(self).state as nat).1 as u32,
                    )
                },
            }),
    {
        if let Some(z) = self.next_gaussian {
            self.next_gaussian = None;
            return NormalStep::Cached(z);
        }
        let first: u32 = self.next_uniform_raw();
        let second: u32 = self.next_uniform_raw();
        let u1: u32 = if first == 0 {
            self.next_uniform_raw()
        } else {
            first
        };
        NormalStep::Fresh(u1, second)
    }

    /// Stores the bit pattern of the second deviate of a Box-Muller pair;
    /// the next normal draw will consume it. Nothing else changes.
    pub fn set_next_gaussian(&mut self, bits: u64)
        ensures
            final(self).state == old(self).state,
            final(self).a == old(self).a,
            final(self).c == old(self).c,
            final(self).m == old(self).m,
            final(self).next_gaussian == Some(bits),
            old(self).wf() ==> final(self).wf(),
    {
        self.next_gaussian = Some(bits);
    }
}

/// The executable step wraps the multiply at 2^32 and may wrap the add;
/// reducing by the modulus afterwards gives the same value as the exact
/// recurrence, because the modulus divides 2^32.
proof fn lemma_wrapped_step_is_lcg_next(s: nat, prod: nat, sum: nat)
    requires
        prod == ((MULTIPLIER as nat) * s) % 0x1_0000_0000,
        sum == if prod + INCREMENT > u32::MAX {
            (prod + INCREMENT - 0x1_0000_0000) as nat
        } else {
            (prod + INCREMENT) as nat
        },
    ensures
        sum % (MODULUS as nat) == lcg_next(s),
{
    let m = MODULUS as int;
    let p = (MULTIPLIER as int) * (s as int);
    assert(0x1_0000_0000int == m * 2);
    lemma_mod_mod(p, m, 2);
    assert((p % (m * 2)) % m == p % m);
    lemma_mod_multiples_vanish(-2, prod as int + INCREMENT as int, m);
    assert((m * -2 + (prod as int + INCREMENT as int)) % m == (prod as int + INCREMENT as int)
        % m);
    lemma_add_mod_noop(prod as int, INCREMENT as int, m);
    lemma_add_mod_noop(p, INCREMENT as int, m);
}

/// Law: the output stream is a function of the seed alone. Two generators
/// seeded alike and driven through the same call sequence produce identical
/// sequences, both of raw uniform draws and of normal-draw steps; the
/// executable methods are pinned to these models by their contracts.
pub proof fn lemma_same_seed_same_stream(s1: nat, s2: nat, n: nat)
    requires
        s1 == s2,
    ensures
        nth_state(s1, n) == nth_state(s2, n),
        normal_draws(s1, n) == normal_draws(s2, n),
{
}

/// Law: every raw draw lies below the modulus, so every uniform sample,
/// the raw draw divided by the modulus, lies in [0, 1).
pub proof fn lemma_raw_draw_below_modulus(seed: nat, n: nat)
    requires
        n >= 1,
    ensures
        nth_state(seed, n) < MODULUS as nat,
{
}

/// Law: a deviate is cached exactly after an odd number of normal draws,
/// starting from an empty cache.
pub proof fn lemma_cache_parity(s: nat, n: nat)
    ensures
        normal_draws(s, n).1 <==> n % 2 == 1,
    decreases n,
{
    if n > 0 {
        lemma_cache_parity(s, (n - 1) as nat);
    }
}

} // verus!

