//! The random stream: a seeded xoshiro256+ generator, read as whole numbers
//! below a bound and as fractions in millionths.

use crate::fixed::SCALE;
use rand::RngCore;
use rand::SeedableRng;
use rand_xoshiro::Xoshiro256Plus;
use vstd::prelude::*;

verus! {

/// The seed of the stream that a simulator uses unless it is given another.
pub const RANDOM_SEED: u64 = 230575;

/// The generator of `rand_xoshiro`, which Verus carries through without
/// looking inside.
#[verifier::external_type_specification]
#[verifier::external_body]
pub struct ExXoshiro256Plus(Xoshiro256Plus);

/// The four state words that a generator holds.
pub uninterp spec fn generator_words(rng: Xoshiro256Plus) -> Seq<u64>;

/// The state words of the generator that `seed_from_u64` builds from a seed.
pub uninterp spec fn seeded_words(seed: u64) -> Seq<u64>;

/// What one call of `next_u64` returns on a generator that holds the given
/// words, and the words that the generator holds afterwards: the output is
/// the sum of the first and the last word, and the words are mixed by the
/// xoshiro256 step.
#[verifier::opaque]
pub open spec fn next_output(words: Seq<u64>) -> (u64, Seq<u64>) {
    let shifted = words[1] << 17u32;
    let third = words[2] ^ words[0];
    let fourth = words[3] ^ words[1];
    let second = words[1] ^ third;
    let first = words[0] ^ fourth;
    (
        ((words[0] + words[3]) % 0x1_0000_0000_0000_0000) as u64,
        seq![first, second, third ^ shifted, (fourth << 45u32) | (fourth >> 19u32)],
    )
}

/// `Xoshiro256Plus::seed_from_u64`. Not proved: the new generator holds
/// four words, which depend on the seed alone.
#[verifier::external_body]
fn generator_from_seed(seed: u64) -> (rng: Xoshiro256Plus)
    ensures
        generator_words(rng) == seeded_words(seed),
        generator_words(rng).len() == 4,
{
    Xoshiro256Plus::seed_from_u64(seed)
}

/// `Xoshiro256Plus::next_u64`. Not proved: the output is the wrapping sum of
/// the first and the last word before the call, and the call replaces the
/// four words by those of the xoshiro256 step: with `t` the second word
/// shifted left by 17, the third is xored with the first, the last with the
/// second, the second with the new third, the first with the new last, the
/// third with `t`, and the last is rotated left by 45.
#[verifier::external_body]
fn generator_next(rng: &mut Xoshiro256Plus) -> (out: u64)
    ensures
        out == next_output(generator_words(*old(rng))).0,
        generator_words(*final(rng)) == next_output(generator_words(*old(rng))).1,
{
    rng.next_u64()
}

/// A deterministic stream of random numbers. Its view is the state of the
/// generator; every draw advances it by one step.
pub struct RandomStream {
    rng: Xoshiro256Plus,
}

impl View for RandomStream {
    type V = Seq<u64>;

    closed spec fn view(&self) -> Seq<u64> {
        generator_words(self.rng)
    }
}

/// The state of the stream after one draw.
pub open spec fn advanced(words: Seq<u64>) -> Seq<u64> {
    next_output(words).1
}

/// A whole number below `max` from one output of the generator: the top 53
/// bits of the output, as a fraction of 2^53, times `max`, rounded down.
pub open spec fn spec_bounded(output: u64, max: u32) -> u32 {
    (((output >> 11) as int * max as int) / 0x20_0000_0000_0000) as u32
}

/// The next draw below `max`.
pub open spec fn drawn(words: Seq<u64>, max: u32) -> u32 {
    spec_bounded(next_output(words).0, max)
}

/// The next draw as a fraction in [0, 1), in millionths.
pub open spec fn drawn_unit(words: Seq<u64>) -> i64 {
    drawn(words, 1_000_000) as i64
}

/// A draw lies below its bound, and is 0 where the bound is 0.
pub proof fn lemma_drawn_below(words: Seq<u64>, max: u32)
    ensures
        max > 0 ==> drawn(words, max) < max,
        max == 0 ==> drawn(words, max) == 0,
        0 <= drawn_unit(words) < SCALE,
{
    let out = next_output(words).0;
    assert(out >> 11 < 0x20_0000_0000_0000) by (bit_vector);
    lemma_scaled_below(out >> 11, max);
    lemma_scaled_below(out >> 11, 1_000_000);
}

/// A fraction of 2^53 scaled by `max` and rounded down is below `max`.
proof fn lemma_scaled_below(bits: u64, max: u32)
    ensures
        bits < 0x20_0000_0000_0000 ==> 0 <= (bits as int * max as int) / 0x20_0000_0000_0000
            <= max,
        bits < 0x20_0000_0000_0000 && max > 0 ==> (bits as int * max as int)
            / 0x20_0000_0000_0000 < max,
{
    if bits < 0x20_0000_0000_0000 {
        assert(0 <= (bits as int) * (max as int) <= 0x20_0000_0000_0000 * (max as int) && (max
            > 0 ==> (bits as int) * (max as int) < 0x20_0000_0000_0000 * (max as int)))
            by (nonlinear_arith)
            requires
                bits < 0x20_0000_0000_0000,
        ;
    }
}

impl RandomStream {
    /// A stream whose draws are determined by `seed`.
    pub fn new(seed: u64) -> (stream: Self)
        ensures
            stream@ == seeded_words(seed),
    {
        RandomStream { rng: generator_from_seed(seed) }
    }
}

/// Scales one output of the generator to a whole number below `max`, or to
/// 0 where `max` is 0.
pub fn bounded(output: u64, max: u32) -> (r: u32)
    ensures
        r == spec_bounded(output, max),
        max > 0 ==> r < max,
        max == 0 ==> r == 0,
{
    let bits: u64 = output >> 11;
    assert(bits < 0x20_0000_0000_0000) by (bit_vector)
        requires
            bits == output >> 11,
    ;
    proof {
        lemma_scaled_below(bits, max);
    }
    let wide: u128 = (bits as u128) * (max as u128);
    let r: u128 = wide / 0x20_0000_0000_0000;
    r as u32
}

/// A whole number below `max`, or 0 where `max` is 0.
pub fn random(stream: &mut RandomStream, max: u32) -> (r: u32)
    ensures
        r == drawn(old(stream)@, max),
        final(stream)@ == advanced(old(stream)@),
        max > 0 ==> r < max,
        max == 0 ==> r == 0,
{
    bounded(generator_next(&mut stream.rng), max)
}

/// A fraction in [0, 1), in millionths.
pub fn random_float(stream: &mut RandomStream) -> (r: i64)
    ensures
        r == drawn_unit(old(stream)@),
        final(stream)@ == advanced(old(stream)@),
        0 <= r < SCALE,
{
    random(stream, 1_000_000) as i64
}

} // verus!
