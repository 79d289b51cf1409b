//! A 48-bit linear-congruential pseudo-random number generator.
//!
//! The state is a 48-bit integer advanced by `state * MULTIPLIER + ADDEND`
//! modulo `2^48`; every derived draw (signed 32-bit values, bounded
//! integers, inclusive ranges, colors) routes through that single
//! recurrence, so a fixed seed always reproduces the same sequence.

use vstd::prelude::*;

verus! {

use vstd::arithmetic::div_mod::lemma_add_mod_noop;
use vstd::arithmetic::div_mod::lemma_multiply_divide_lt;
use vstd::arithmetic::mul::lemma_mul_strict_inequality;
use vstd::arithmetic::mul::lemma_mul_upper_bound;
use vstd::arithmetic::power2::lemma2_to64;
use vstd::bits::lemma_u64_shr_is_div;
use crate::color::Rgba;

/// The multiplier of the linear recurrence.
pub const MULTIPLIER: u64 = 0x5DEECE66D;

/// The increment of the linear recurrence.
pub const ADDEND: u64 = 0xB;

/// `2^48`: the modulus of the linear recurrence.
pub const MODULUS: u64 = 0x1_0000_0000_0000;

/// One step of the linear recurrence: the next 48-bit state.
#[verifier::opaque]
pub open spec fn spec_advance(s: u64) -> u64 {
    (((s * 0x5DEECE66D) + 0xB) % 0x1_0000_0000_0000) as u64
}

/// The state after `n` steps of the recurrence.
pub open spec fn spec_advance_n(s: u64, n: nat) -> u64
    decreases n,
{
    if n == 0 {
        s
    } else {
        spec_advance(spec_advance_n(s, (n - 1) as nat))
    }
}

/// The deterministic scramble applied to a caller-supplied seed.
pub open spec fn spec_scramble(seed: u64) -> u64 {
    (seed ^ 0x5DEECE66D) & 0xFFFF_FFFF_FFFF
}

/// The top `bits` bits of a freshly advanced state: what one draw returns.
pub open spec fn spec_bits(s: u64, bits: u64) -> u64 {
    spec_advance(s) >> ((48 - bits) as u64)
}

/// Whether `bound` is a positive power of two.
pub open spec fn spec_is_pow2(bound: i64) -> bool {
    bound > 0 && (bound & ((bound - 1) as i64)) == 0
}

/// The 31-bit draw taken at step `k` of the recurrence (`k >= 1`): the top
/// 31 bits of the state after `k` advances.
pub open spec fn spec_draw31_at(s: u64, k: nat) -> u64 {
    spec_advance_n(s, k) >> 17
}

/// The value a power-of-two bound yields from one 31-bit draw.
pub open spec fn spec_pow2_draw(s: u64, bound: i64) -> i64 {
    ((bound * spec_bits(s, 31)) / 0x8000_0000) as i64
}

/// The acceptance rule of the rejection sampler: a 31-bit draw is kept
/// when `draw - draw % bound + (bound - 1)` still fits a signed 32-bit
/// quantity; larger draws would bias the remainder and are redrawn.
pub open spec fn spec_accept31(draw: u64, bound: i64) -> bool {
    draw - ((draw as int) % (bound as int)) + (bound - 1) <= 0x7FFF_FFFF
}

/// How many redraws the rejection sampler allows itself. The cap is
/// larger than the number of distinct generator states (`2^48`), so a
/// sampler that exhausts it has cycled through the generator's whole
/// orbit without an acceptable draw and would otherwise loop forever;
/// for the fixed recurrence used here that never happens.
pub const REDRAW_CAP: u64 = 0x2_0000_0000_0000;

/// What a successful bounded draw did to the generator. For a power-of-two
/// bound the state advanced exactly once and the value is a single
/// multiply-shift of that draw; the rejection loop is never entered.
/// Otherwise the state advanced `n >= 1` times: the first draw is the
/// first candidate, and the sampler redraws until the first accepted draw
/// (or, after more redraws than the generator has states, gives up and
/// keeps the last remainder), whose remainder modulo the bound is the
/// value.
pub open spec fn spec_bounded_post(pre: u64, post: u64, bound: i64, v: i64) -> bool {
    if spec_is_pow2(bound) {
        post == spec_advance(pre) && v == spec_pow2_draw(pre, bound)
    } else {
        exists|n: nat|
            #![auto]
            1 <= n && post == spec_advance_n(pre, n) && v == (spec_draw31_at(pre, n) as int) % (
            bound as int) && (spec_accept31(spec_draw31_at(pre, n), bound) || n == REDRAW_CAP + 1)
                && (forall|k: nat| 1 <= k < n ==> !spec_accept31(spec_draw31_at(pre, k), bound))
    }
}

/// An argument a draw cannot work with: a bound or range that is empty.
#[derive(Clone, Copy, Debug, PartialEq, Eq, Structural)]
pub enum RngError {
    /// A bounded draw was asked for a bound at or below zero.
    NonPositiveBound,
    /// A range draw was asked for a range whose start is not below its end.
    EmptyRange,
}

/// The generator: a 48-bit state plus a per-instance reseeding counter.
pub struct Random {
    seed: u64,
    uniq: u64,
}

impl View for Random {
    type V = u64;

    /// The abstract value of the generator is its 48-bit state.
    closed spec fn view(&self) -> u64 {
        self.seed
    }
}

impl Random {
    /// Sets the state to the deterministic scramble of `seed`.
    pub fn set_seed(&mut self, seed: u64)
        ensures
            final(self)@ == spec_scramble(seed),
    {
        self.seed = Self::initial_scramble(seed);
    }

    /// The fixed bit-mix applied to caller-supplied seeds: exclusive-or
    /// with the multiplier, masked to 48 bits.
    pub fn initial_scramble(seed: u64) -> (r: u64)
        ensures
            r == spec_scramble(seed),
    {
        (seed ^ MULTIPLIER) & 0xFFFF_FFFF_FFFF
    }

    /// Advances the state once and returns its top `bits` bits.
    pub fn next(&mut self, bits: u64) -> (r: u64)
        requires
            bits <= 48,
        ensures
            final(self)@ == spec_advance(old(self)@),
            r == spec_bits(old(self)@, bits),
            r < (1u64 << bits),
    {
        proof {
            reveal(spec_advance);
            lemma2_to64();
        }
        let prod_wide: u128 = (self.seed as u128) * (MULTIPLIER as u128);
        let prod: u64 = (prod_wide % (MODULUS as u128)) as u64;
        let nextseed: u64 = (prod + ADDEND) % MODULUS;
        proof {
            lemma_add_mod_noop(
                (old(self)@ as int) * 0x5DEECE66D,
                0xB,
                0x1_0000_0000_0000,
            );
        }
        self.seed = nextseed;
        let shift: u64 = 48 - bits;
        let r: u64 = nextseed >> shift;
        proof {
            assert(nextseed < 0x1_0000_0000_0000 && shift == 48 - bits && bits <= 48 ==> (
            nextseed >> shift) < (1u64 << bits)) by (bit_vector);
        }
        r
    }

    /// One raw draw: the top 32 bits of a fresh state, read as a signed
    /// 32-bit value.
    pub fn prandom(&mut self) -> (r: i64)
        ensures
            final(self)@ == spec_advance(old(self)@),
            r == spec_signed32(spec_bits(old(self)@, 32)),
            -0x8000_0000 <= r < 0x8000_0000,
    {
        let b: u64 = self.next(32);
        proof {
            assert(1u64 << 32 == 0x1_0000_0000) by (bit_vector);
        }
        if b >= 0x8000_0000 {
            (b as i64) - 0x1_0000_0000
        } else {
            b as i64
        }
    }

    /// A value uniform over `[0, bound)`, or an error for `bound <= 0`.
    ///
    /// A power-of-two bound takes a single draw; any other bound is
    /// rejection-sampled to remove the modulo bias near the top of the
    /// 31-bit draw range.
    #[verifier::rlimit(50)]
    #[verifier::loop_isolation(false)]
    pub fn prandom_bound(&mut self, bound: i64) -> (r: Result<i64, RngError>)
        requires
            bound <= 0x7FFF_FFFF,
        ensures
            bound <= 0 <==> r is Err,
            r is Err ==> r == Err::<i64, RngError>(RngError::NonPositiveBound) && final(self)@
                == old(self)@,
            r matches Ok(v) ==> 0 <= v < bound && spec_bounded_post(
                old(self)@,
                final(self)@,
                bound,
                v,
            ),
    {
        if bound <= 0 {
            return Err(RngError::NonPositiveBound);
        }
        let ghost pre: u64 = self@;
        let first: u64 = self.next(31);
        let m: i64 = bound - 1;
        proof {
            assert(1u64 << 31 == 0x8000_0000) by (bit_vector);
            lemma2_to64();
        }
        if (bound & m) == 0 {
            proof {
                lemma_mul_upper_bound(bound as int, 0x7FFF_FFFF, first as int, 0x7FFF_FFFF);
            }
            let prod: u64 = (bound as u64) * first;
            let v: u64 = prod >> 31;
            proof {
                lemma_u64_shr_is_div(prod, 31);
                lemma_mul_strict_inequality(first as int, 0x8000_0000, bound as int);
                lemma_multiply_divide_lt(prod as int, 0x8000_0000, bound as int);
            }
            Ok(v as i64)
        } else {
            let ghost mut n: nat = 1;
            let mut tries: u64 = 0;
            let mut bits: i64 = first as i64;
            let mut val: i64 = bits % bound;
            proof {
                assert(spec_advance_n(pre, 0) == pre);
                assert(spec_advance_n(pre, 1) == spec_advance(pre));
                if bits < bound {
                    vstd::arithmetic::div_mod::lemma_small_mod(bits as nat, bound as nat);
                }
            }
            while bits - val + m > 0x7FFF_FFFF && tries < REDRAW_CAP
                invariant
                    1 <= n,
                    n == 1 + tries,
                    tries <= REDRAW_CAP,
                    0 < bound <= 0x7FFF_FFFF,
                    m == bound - 1,
                    !spec_is_pow2(bound),
                    self@ == spec_advance_n(pre, n),
                    bits == spec_draw31_at(pre, n),
                    0 <= bits < 0x8000_0000,
                    val == bits % bound,
                    0 <= val <= bits,
                    forall|k: nat| 1 <= k < n ==> !spec_accept31(spec_draw31_at(pre, k), bound),
                decreases REDRAW_CAP - tries,
            {
                proof {
                    assert(!spec_accept31(spec_draw31_at(pre, n), bound));
                    n = n + 1;
                }
                tries = tries + 1;
                let raw2: u64 = self.next(31);
                bits = raw2 as i64;
                val = bits % bound;
                proof {
                    assert(spec_advance_n(pre, n) == spec_advance(spec_advance_n(pre, (n - 1) as nat)));
                    if bits < bound {
                        vstd::arithmetic::div_mod::lemma_small_mod(bits as nat, bound as nat);
                    }
                }
            }
            proof {
                assert(spec_accept31(spec_draw31_at(pre, n), bound) || n == REDRAW_CAP + 1);
                assert(spec_bounded_post(pre, self@, bound, val));
            }
            Ok(val)
        }
    }

    /// A value uniform over the inclusive range `[start, end]`, or an
    /// error when the range is empty (`start >= end`).
    pub fn random_range(&mut self, start: i64, end: i64) -> (r: Result<i64, RngError>)
        requires
            end - start <= 0x7FFF_FFFE,
        ensures
            start >= end <==> r is Err,
            r is Err ==> r == Err::<i64, RngError>(RngError::EmptyRange) && final(self)@ == old(
                self,
            )@,
            r matches Ok(v) ==> start <= v <= end && spec_bounded_post(
                old(self)@,
                final(self)@,
                (end - start + 1) as i64,
                (v - start) as i64,
            ),
    {
        if start >= end {
            return Err(RngError::EmptyRange);
        }
        let bound: i64 = end - start + 1;
        match self.prandom_bound(bound) {
            Ok(v) => Ok(v + start),
            Err(e) => Err(e),
        }
    }

    /// One color channel: a draw on the power-of-two bound 256.
    pub(crate) fn channel(&mut self) -> (v: u8)
        ensures
            final(self)@ == spec_advance(old(self)@),
            v == spec_channel(old(self)@),
    {
        let ghost pre: u64 = self@;
        let drawn: i64 = match self.random_range(0, 255) {
            Ok(d) => d,
            Err(_) => 0,
        };
        proof {
            assert((256i64 & 255i64) == 0) by (bit_vector);
            assert(spec_is_pow2(256));
        }
        drawn as u8
    }

    /// A color with all four channels drawn from this generator, in the
    /// order red, green, blue, alpha.
    pub fn random_color(&mut self) -> (c: Rgba)
        ensures
            final(self)@ == spec_advance_n(old(self)@, 4),
            c == spec_color_at(old(self)@, 0),
    {
        let ghost pre: u64 = self@;
        let r: u8 = self.channel();
        let g: u8 = self.channel();
        let b: u8 = self.channel();
        let a: u8 = self.channel();
        proof {
            assert(spec_advance_n(pre, 0) == pre);
            assert(spec_advance_n(pre, 1) == spec_advance(spec_advance_n(pre, 0)));
            assert(spec_advance_n(pre, 2) == spec_advance(spec_advance_n(pre, 1)));
            assert(spec_advance_n(pre, 3) == spec_advance(spec_advance_n(pre, 2)));
            assert(spec_advance_n(pre, 4) == spec_advance(spec_advance_n(pre, 3)));
        }
        Rgba { r, g, b, a }
    }

    /// A generator seeded from the clock, scrambled into the 48-bit state.
    pub fn new() -> (r: Random)
        ensures
            r@ <= 0xFFFF_FFFF_FFFF,
    {
        let uniq: u64 = Self::advance_uniquifier(UNIQUIFIER_SEED);
        let seed_val: u64 = uniq ^ time_nanos();
        proof {
            assert((seed_val ^ 0x5DEECE66Du64) & 0xFFFF_FFFF_FFFFu64 <= 0xFFFF_FFFF_FFFFu64)
                by (bit_vector);
        }
        Random { seed: Self::initial_scramble(seed_val), uniq }
    }

    /// Reseeds from the clock combined with a per-generator counter, so
    /// that repeated reseedings of one generator never coincide, even
    /// within a single clock tick. The new state depends on the moment of
    /// the call and is not reproducible, but like every update it is
    /// masked to 48 bits.
    pub fn new_seed(&mut self)
        ensures
            final(self)@ <= 0xFFFF_FFFF_FFFF,
    {
        self.uniq = Self::advance_uniquifier(self.uniq);
        let mixed: u64 = self.uniq ^ time_nanos();
        proof {
            assert(mixed & 0xFFFF_FFFF_FFFFu64 <= 0xFFFF_FFFF_FFFFu64) by (bit_vector);
        }
        self.seed = mixed & 0xFFFF_FFFF_FFFF;
    }

    /// One multiplicative step of the reseeding counter, wrapping at 64
    /// bits.
    fn advance_uniquifier(u: u64) -> (r: u64)
        ensures
            r == (u * 1181783497276652981) % 0x1_0000_0000_0000_0000,
    {
        (((u as u128) * 1181783497276652981u128) % 0x1_0000_0000_0000_0000u128) as u64
    }
}

/// The starting value of the reseeding counter.
pub const UNIQUIFIER_SEED: u64 = 8682522807148012;

/// Relies on std::time::SystemTime::now for a nanosecond reading of the
/// system clock. The value depends on the moment of the call, so nothing
/// is promised of it.
#[verifier::external_body]
fn time_nanos() -> u64 {
    match std::time::SystemTime::now().duration_since(std::time::SystemTime::UNIX_EPOCH) {
        Ok(d) => d.as_nanos() as u64,
        Err(_) => 0,
    }
}

/// A 32-bit draw reinterpreted as a signed 32-bit value.
pub open spec fn spec_signed32(b: u64) -> i64 {
    if b >= 0x8000_0000 {
        (b - 0x1_0000_0000) as i64
    } else {
        b as i64
    }
}

/// A fixed seed reproduces the same sequence: the scrambled state and the
/// state after any number of steps are functions of the starting seed
/// alone, so two generators seeded identically agree on every draw.
pub proof fn lemma_fixed_seed_reproducible(s1: u64, s2: u64, n: nat)
    requires
        s1 == s2,
    ensures
        spec_scramble(s1) == spec_scramble(s2),
        spec_advance_n(spec_scramble(s1), n) == spec_advance_n(spec_scramble(s2), n),
{
}

/// For a power-of-two bound, a bounded draw never enters the rejection
/// loop: the state takes exactly one step of the recurrence, and the
/// value always lies in `[0, bound)`.
pub proof fn lemma_pow2_bounded_draw(pre: u64, post: u64, bound: i64, v: i64)
    requires
        spec_is_pow2(bound),
        spec_bounded_post(pre, post, bound, v),
    ensures
        post == spec_advance(pre),
        v == spec_pow2_draw(pre, bound),
        0 <= v < bound,
{
    let adv = spec_advance(pre);
    let bits = spec_bits(pre, 31);
    assert(adv < 0x1_0000_0000_0000) by {
        reveal(spec_advance);
    }
    assert(adv < 0x1_0000_0000_0000 ==> (adv >> 17) < 0x8000_0000) by (bit_vector);
    assert(bits == adv >> ((48 - 31) as u64));
    assert((48 - 31) as u64 == 17u64);
    lemma_mul_strict_inequality(bits as int, 0x8000_0000, bound as int);
    lemma_multiply_divide_lt(bound * bits, 0x8000_0000, bound as int);
    vstd::arithmetic::div_mod::lemma_div_pos_is_pos(bound * bits, 0x8000_0000);
}

/// Advancing `a + b` steps is advancing `a` steps and then `b` more.
pub proof fn lemma_advance_n_add(s: u64, a: nat, b: nat)
    ensures
        spec_advance_n(s, a + b) == spec_advance_n(spec_advance_n(s, a), b),
    decreases b,
{
    if b > 0 {
        lemma_advance_n_add(s, a, (b - 1) as nat);
    }
}

/// The color channel one draw yields: a byte from one 31-bit draw on the
/// power-of-two bound 256.
pub open spec fn spec_channel(s: u64) -> u8 {
    ((256 * spec_bits(s, 31)) / 0x8000_0000) as u8
}

/// The `i`-th color a generator produces: four channel draws, in the
/// order red, green, blue, alpha, starting after `4 * i` advances.
pub open spec fn spec_color_at(s: u64, i: nat) -> Rgba {
    let base = spec_advance_n(s, 4 * i);
    Rgba {
        r: spec_channel(base),
        g: spec_channel(spec_advance_n(base, 1)),
        b: spec_channel(spec_advance_n(base, 2)),
        a: spec_channel(spec_advance_n(base, 3)),
    }
}

} // verus!
