//! The random source of one simulation instance: a seeded `rand` generator
//! whose 32-bit draws are mapped onto fixed-point ranges.

use vstd::prelude::*;
use rand::rngs::SmallRng;
use rand::{RngCore, SeedableRng};
use crate::fixed::{Fixed, ONE, floor_div};

verus! {

/// `rand::rngs::SmallRng`, carried as an opaque value.
#[verifier::external_type_specification]
#[verifier::external_body]
pub struct ExSmallRng(SmallRng);

/// Calls `SeedableRng::seed_from_u64` of `SmallRng`: a generator whose
/// stream is fixed by the seed. Nothing is claimed about the stream.
#[verifier::external_body]
fn seeded_generator(seed: u64) -> (r: SmallRng) {
    SmallRng::seed_from_u64(seed)
}

/// Calls `RngCore::next_u32` of `SmallRng`: the next 32 bits of the stream.
/// Nothing is claimed about their value.
#[verifier::external_body]
fn next_bits(rng: &mut SmallRng) -> (r: u32) {
    rng.next_u32()
}

/// Two to the power 32, the number of distinct draws.
pub const DRAWS: u64 = 0x1_0000_0000;

/// The point of `[min, max)` that the draw `bits` selects: `min` plus the
/// fraction `bits / 2^32` of the width, rounded down. An empty range gives `min`.
pub open spec fn range_sample_spec(bits: u32, min: Fixed, max: Fixed) -> Fixed {
    if min >= max {
        min
    } else {
        (min + (bits * (max - min)) / (DRAWS as int)) as i64
    }
}

/// The eased draw: with `r = bits / 2^32`, the value `2 r²` below one half
/// and `1 - 2 (1 - r)²` from one half on, as a numerator over `2^32` kept
/// strictly below `2^32`.
pub open spec fn eased_bits(bits: u32) -> u32 {
    if bits < 0x8000_0000 {
        ((2 * bits * bits) / (DRAWS as int)) as u32
    } else {
        let c = DRAWS - bits;
        let t = (2 * c * c) / (DRAWS as int);
        if t == 0 {
            0xffff_ffff
        } else {
            (DRAWS - t) as u32
        }
    }
}

/// The point of `[min, max)` that the draw `bits` selects under the easing curve.
pub open spec fn velocity_offset_sample_spec(bits: u32, min: Fixed, max: Fixed) -> Fixed {
    range_sample_spec(eased_bits(bits), min, max)
}

/// The seed of an instance: the time-derived seed plus the identifier times
/// an odd constant, modulo `2^64`.
pub open spec fn mix_seed_spec(time_seed: u64, instance_id: u64) -> u64 {
    ((time_seed + instance_id * 123456789) % 0x1_0000_0000_0000_0000) as u64
}

/// A fraction of a width is smaller than the width.
pub proof fn lemma_fraction_below(bits: int, width: int)
    requires
        0 <= bits < DRAWS,
        0 < width,
    ensures
        0 <= (bits * width) / (DRAWS as int) < width,
        0 <= bits * width <= 0xffff_ffff * width,
{
    assert(0 <= bits * width <= 0xffff_ffff * width) by (nonlinear_arith)
        requires
            0 <= bits <= 0xffff_ffff,
            0 < width,
    ;
}

/// The point of `[min, max)` that a draw selects, or `min` when the range is empty.
#[verifier::when_used_as_spec(range_sample_spec)]
pub fn range_sample(bits: u32, min: Fixed, max: Fixed) -> (r: Fixed)
    ensures
        r == range_sample_spec(bits, min, max),
        min >= max ==> r == min,
        min < max ==> min <= r < max,
{
    if min >= max {
        return min;
    }
    let width: i128 = max as i128 - min as i128;
    proof {
        lemma_fraction_below(bits as int, width as int);
    }
    let step: i128 = floor_div((bits as i128) * width, DRAWS as i128);
    (min as i128 + step) as i64
}

/// The eased draw.
#[verifier::when_used_as_spec(eased_bits)]
pub fn ease(bits: u32) -> (r: u32)
    ensures
        r == eased_bits(bits),
{
    let b: u64 = bits as u64;
    if b < 0x8000_0000 {
        assert(2 * b * b <= 0x7fff_ffff_0000_0002) by (nonlinear_arith)
            requires
                0 <= b <= 0x7fff_ffff,
        ;
        ((2 * b * b) / DRAWS) as u32
    } else {
        let c: u64 = DRAWS - b;
        assert(0 < 2 * c * c <= 0x8000_0000_0000_0000) by (nonlinear_arith)
            requires
                0 < c <= 0x8000_0000,
        ;
        let t: u64 = (2 * c * c) / DRAWS;
        if t == 0 {
            0xffff_ffff
        } else {
            (DRAWS - t) as u32
        }
    }
}

/// The point of `[min, max)` that a draw selects under the easing curve,
/// or `min` when the range is empty.
#[verifier::when_used_as_spec(velocity_offset_sample_spec)]
pub fn velocity_offset_sample(bits: u32, min: Fixed, max: Fixed) -> (r: Fixed)
    ensures
        r == velocity_offset_sample_spec(bits, min, max),
        min >= max ==> r == min,
        min < max ==> min <= r < max,
{
    range_sample(ease(bits), min, max)
}

/// The seed of an instance.
#[verifier::when_used_as_spec(mix_seed_spec)]
pub fn mix_seed(time_seed: u64, instance_id: u64) -> (r: u64)
    ensures
        r == mix_seed_spec(time_seed, instance_id),
{
    let scaled: u64 = instance_id.wrapping_mul(123456789);
    proof {
        let m: int = 0x1_0000_0000_0000_0000;
        let p: int = instance_id * 123456789;
        assert(scaled == p % m);
        vstd::arithmetic::div_mod::lemma_fundamental_div_mod(p, m);
        vstd::arithmetic::div_mod::lemma_mod_multiples_vanish(p / m, time_seed + scaled, m);
        assert(time_seed + p == m * (p / m) + (time_seed + scaled));
        if time_seed + scaled >= m {
            vstd::arithmetic::div_mod::lemma_mod_multiples_vanish(-1, time_seed + scaled, m);
            vstd::arithmetic::div_mod::lemma_small_mod((time_seed + scaled - m) as nat, m as nat);
        } else {
            vstd::arithmetic::div_mod::lemma_small_mod((time_seed + scaled) as nat, m as nat);
        }
    }
    time_seed.wrapping_add(scaled)
}

/// A multiple of `2^64` that lies strictly between `-2^64` and `2^64` is zero.
proof fn lemma_small_multiple(d: int, z: int)
    by (nonlinear_arith)
    requires
        d == z * 0x1_0000_0000_0000_0000,
        -0x1_0000_0000_0000_0000 < d < 0x1_0000_0000_0000_0000,
    ensures
        d == 0,
{
}

/// If `d` times the seed multiplier is a multiple of `2^64`, so is `d`:
/// the multiplier is odd and has the inverse `0xeb7fd64e061c1a3d` modulo `2^64`.
proof fn lemma_multiplier_cancels(d: int, q: int) -> (z: int)
    by (nonlinear_arith)
    requires
        d * 123456789 == q * 0x1_0000_0000_0000_0000,
    ensures
        d == z * 0x1_0000_0000_0000_0000,
{
    assert(123456789 * 0xeb7f_d64e_061c_1a3dint == 1 + 113570294 * 0x1_0000_0000_0000_0000);
    assert((d * 123456789) * 0xeb7f_d64e_061c_1a3dint == d * (1 + 113570294
        * 0x1_0000_0000_0000_0000));
    q * 0xeb7f_d64e_061c_1a3dint - d * 113570294
}

/// Two instances that are seeded at the same time get different seeds.
pub proof fn lemma_seeds_differ(time_seed: u64, first: u64, second: u64)
    requires
        first != second,
    ensures
        mix_seed_spec(time_seed, first) != mix_seed_spec(time_seed, second),
{
    let m: int = 0x1_0000_0000_0000_0000;
    let a: int = time_seed + first * 123456789;
    let b: int = time_seed + second * 123456789;
    if a % m == b % m {
        vstd::arithmetic::div_mod::lemma_fundamental_div_mod(a, m);
        vstd::arithmetic::div_mod::lemma_fundamental_div_mod(b, m);
        let q = a / m - b / m;
        let d = first - second;
        assert(d * 123456789 == q * m) by (nonlinear_arith)
            requires
                a == m * (a / m) + a % m,
                b == m * (b / m) + b % m,
                a % m == b % m,
                a - b == d * 123456789,
                q == a / m - b / m,
        ;
        let z = lemma_multiplier_cancels(d, q);
        lemma_small_multiple(d, z);
    }
}

/// A per-instance random source. It remembers, for the proofs, the seed
/// that its generator was made from.
pub struct SimpleRng {
    rng: SmallRng,
    seed: Ghost<u64>,
}

impl SimpleRng {
    /// The seed that the source was made from.
    pub closed spec fn seed(self) -> u64 {
        self.seed@
    }

    /// A source whose generator is seeded with `seed`. On one platform the
    /// seed fixes the stream, but `rand` chooses the algorithm of `SmallRng`
    /// by platform, so nothing is claimed of the stream.
    pub fn new(seed: u64) -> (r: SimpleRng)
        ensures
            r.seed() == seed,
    {
        SimpleRng { rng: seeded_generator(seed), seed: Ghost(seed) }
    }

    /// A uniform sample of `[0, 1)`.
    pub fn next_f32(&mut self) -> (r: Fixed)
        ensures
            0 <= r < ONE,
            exists|bits: u32| r == range_sample_spec(bits, 0, ONE),
            final(self).seed() == old(self).seed(),
    {
        let bits: u32 = next_bits(&mut self.rng);
        range_sample(bits, 0, ONE)
    }

    /// A uniform sample of `[min, max)`, or `min` when the range is empty.
    pub fn next_range(&mut self, min: Fixed, max: Fixed) -> (r: Fixed)
        ensures
            min >= max ==> r == min,
            min < max ==> min <= r < max,
            exists|bits: u32| r == range_sample_spec(bits, min, max),
            final(self).seed() == old(self).seed(),
    {
        let bits: u32 = next_bits(&mut self.rng);
        range_sample(bits, min, max)
    }

    /// A sample of `[min, max)` biased towards the middle by the easing
    /// curve, or `min` when the range is empty.
    pub fn next_velocity_offset(&mut self, min: Fixed, max: Fixed) -> (r: Fixed)
        ensures
            min >= max ==> r == min,
            min < max ==> min <= r < max,
            exists|bits: u32| r == velocity_offset_sample_spec(bits, min, max),
            final(self).seed() == old(self).seed(),
    {
        let bits: u32 = next_bits(&mut self.rng);
        velocity_offset_sample(bits, min, max)
    }
}

} // verus!
