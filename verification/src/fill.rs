//! The filler for the part of a region that an image leaves unused: a
//! seedable generator whose bytes depend on the seed alone, so that a padded
//! region can be reproduced and verified later.

use vstd::prelude::*;

verus! {

/// A seeded generator of the `srand` crate, `srand::Rand<srand::RngSource>`.
/// It is opaque to the verifier: what is known of it is what `generator_seed`
/// and `generator_drawn` name.
#[verifier::external_body]
pub struct FillGenerator {
    inner: srand::Rand<srand::RngSource>,
}

/// The value that `srand::Rand::uint32` returns at its call number `index`
/// (counted from zero) on a generator that was seeded with `seed`.
pub uninterp spec fn fill_word(seed: i64, index: nat) -> u32;

/// The seed a generator was made with.
pub uninterp spec fn generator_seed(generator: FillGenerator) -> i64;

/// The number of values drawn from a generator since it was made.
pub uninterp spec fn generator_drawn(generator: FillGenerator) -> nat;

/// `srand::RngSource::new` seeds the additive lagged Fibonacci source of the
/// crate from `seed` alone, and `srand::Rand::new` wraps it unchanged. The
/// contract claims only that the generator remembers its seed and that
/// nothing has been drawn from it.
#[verifier::external_body]
fn seeded_generator(seed: i64) -> (generator: FillGenerator)
    ensures
        generator_seed(generator) == seed,
        generator_drawn(generator) == 0,
{
    FillGenerator { inner: srand::Rand::new(srand::RngSource::new(seed)) }
}

/// `srand::Rand::uint32` advances the source by one step and returns the top
/// 32 of the 63 bits it yields. Source and step read no state but the
/// generator's own, so the value depends on the seed and on the number of
/// earlier draws alone; the contract names it and counts the draw.
#[verifier::external_body]
fn next_word(generator: &mut FillGenerator) -> (word: u32)
    ensures
        word == fill_word(generator_seed(*old(generator)), generator_drawn(*old(generator))),
        generator_seed(*final(generator)) == generator_seed(*old(generator)),
        generator_drawn(*final(generator)) == generator_drawn(*old(generator)) + 1,
{
    generator.inner.uint32()
}

/// Filler byte number `index` for a seed: the low byte of the generator's
/// value of that number.
pub open spec fn fill_byte(seed: i64, index: nat) -> u8 {
    (fill_word(seed, index) % 256) as u8
}

/// The first `count` filler bytes for a seed.
pub open spec fn fill_bytes(seed: i64, count: nat) -> Seq<u8> {
    Seq::new(count, |k: int| fill_byte(seed, k as nat))
}

/// The filler byte that a value of the generator gives: its low byte.
pub fn filler_byte(word: u32) -> (byte: u8)
    ensures
        byte == word % 256,
{
    assert(word as u8 == word % 256) by (bit_vector);
    word as u8
}

/// Appends `count` filler bytes for `seed` to `sink`, starting with filler
/// byte number zero.
pub fn append_fill(sink: &mut Vec<u8>, seed: i64, count: usize)
    ensures
        final(sink)@ == old(sink)@ + fill_bytes(seed, count as nat),
{
    let mut generator = seeded_generator(seed);
    let mut k: usize = 0;
    while k < count
        invariant
            k <= count,
            generator_seed(generator) == seed,
            generator_drawn(generator) == k,
            sink@ == old(sink)@ + fill_bytes(seed, k as nat),
        decreases count - k,
    {
        let word: u32 = next_word(&mut generator);
        sink.push(filler_byte(word));
        k += 1;
    }
}

/// The filler bytes for a seed, as many as asked for.
pub fn fill(seed: i64, count: usize) -> (bytes: Vec<u8>)
    ensures
        bytes@ == fill_bytes(seed, count as nat),
{
    let mut bytes: Vec<u8> = Vec::new();
    append_fill(&mut bytes, seed, count);
    bytes
}

} // verus!
