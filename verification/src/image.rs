//! The image to write or verify: the checks on its size, the length of the
//! region it is laid over, and the bytes that region is to hold.

use vstd::prelude::*;
use crate::error::Error;
use crate::fill::{fill, fill_bytes};
use crate::wire::DATA_SIZE;

verus! {

/// The most bytes a code image may hold.
pub const CODE_SIZE: usize = 0xf400;

/// Where the data region begins: a code image longer than this runs into it.
pub const CODE_LIMIT: usize = 0xf000;

/// An image as it was found on disk.
#[derive(Debug, Clone, PartialEq, Eq)]
pub struct Source {
    /// Whether it is a regular file.
    pub is_file: bool,
    /// The length the file system states for it.
    pub length: usize,
    /// The bytes that could be read from it.
    pub content: Vec<u8>,
}

/// The length of the region that an image of `length` bytes is laid over:
/// its own length, or with `fullfill` the whole region. For code that is the
/// part below the data region, unless the image already runs into it.
pub open spec fn target_length(length: nat, data_region: bool, fullfill: bool) -> nat {
    if !fullfill {
        length
    } else if data_region {
        DATA_SIZE as nat
    } else if length > CODE_LIMIT {
        CODE_SIZE as nat
    } else {
        CODE_LIMIT as nat
    }
}

/// Whether a code image runs over the data region. That is allowed, and worth
/// a warning.
pub open spec fn overlaps_data(length: nat, data_region: bool) -> bool {
    !data_region && length > CODE_LIMIT
}

/// The first reason to refuse an image, if there is one.
pub open spec fn refusal(source: Source, data_region: bool, fullfill: bool) -> Option<Error> {
    if !source.is_file {
        Some(Error::InvalidFile)
    } else if data_region && !fullfill && source.length != DATA_SIZE {
        Some(Error::FileSize)
    } else if data_region && source.length > DATA_SIZE {
        Some(Error::TooLargeDataSize)
    } else if !data_region && source.length > CODE_SIZE {
        Some(Error::TooLargeCodeSize)
    } else if source.content@.len() < source.length {
        Some(Error::Eof)
    } else {
        None
    }
}

/// An image laid over a region: the first `length` bytes of its content, and
/// the filler behind them.
pub open spec fn laid_over(content: Seq<u8>, length: nat, filler: Seq<u8>) -> Seq<u8> {
    content.take(length as int) + filler
}

/// The filler for `count` bytes. With `fullfill` it comes from the
/// generator, started anew from `seed`; without, it is 0xff.
pub open spec fn filler_for(count: nat, fullfill: bool, seed: i64) -> Seq<u8> {
    if fullfill {
        fill_bytes(seed, count)
    } else {
        Seq::new(count, |i: int| 0xffu8)
    }
}

/// The bytes a region of `target` bytes is to hold: the image's own bytes
/// first, and behind them filler up to the end of the region.
pub open spec fn padded_image(
    content: Seq<u8>,
    length: nat,
    target: nat,
    fullfill: bool,
    seed: i64,
) -> Seq<u8> {
    laid_over(content, length, filler_for((target - length) as nat, fullfill, seed))
}

/// The bytes to write for an accepted image.
pub open spec fn region_image(source: Source, data_region: bool, fullfill: bool, seed: i64) -> Seq<
    u8,
> {
    padded_image(
        source.content@,
        source.length as nat,
        target_length(source.length as nat, data_region, fullfill),
        fullfill,
        seed,
    )
}

/// An accepted image is never longer than the region it is laid over, and
/// the region fits its flash: the data region holds `DATA_SIZE` bytes, the
/// code region up to `CODE_SIZE`.
pub proof fn lemma_target_bounds(source: Source, data_region: bool, fullfill: bool)
    requires
        refusal(source, data_region, fullfill) is None,
    ensures
        source.length <= target_length(source.length as nat, data_region, fullfill),
        data_region ==> target_length(source.length as nat, data_region, fullfill) == DATA_SIZE,
        !data_region ==> target_length(source.length as nat, data_region, fullfill) <= CODE_SIZE,
        !fullfill ==> target_length(source.length as nat, data_region, fullfill) == source.length,
{
}

/// The filler behind an image depends on the seed and on the number of bytes
/// to fill, and on nothing else: two images of one length, padded to one
/// target from one seed, get the same filler, byte for byte, and each keeps
/// its own bytes in front of it.
pub proof fn lemma_filler_depends_on_seed_alone(
    first: Seq<u8>,
    second: Seq<u8>,
    length: nat,
    target: nat,
    seed: i64,
)
    requires
        length <= target,
        length <= first.len(),
        length <= second.len(),
    ensures
        padded_image(first, length, target, true, seed).len() == target,
        padded_image(first, length, target, true, seed).subrange(length as int, target as int)
            == padded_image(second, length, target, true, seed).subrange(
            length as int,
            target as int,
        ),
        padded_image(first, length, target, true, seed).subrange(length as int, target as int)
            == fill_bytes(seed, (target - length) as nat),
        padded_image(first, length, target, true, seed).take(length as int) == first.take(
            length as int,
        ),
{
    let filler = fill_bytes(seed, (target - length) as nat);
    assert((first.take(length as int) + filler).subrange(length as int, target as int) =~= filler);
    assert((second.take(length as int) + filler).subrange(length as int, target as int)
        =~= filler);
    assert((first.take(length as int) + filler).take(length as int) =~= first.take(
        length as int,
    ));
}

/// Checks an image before anything is sent to the device.
///
/// Refused are, in this order: what is not a regular file (`InvalidFile`); a
/// data image that is not exactly `DATA_SIZE` bytes long unless it is to be
/// padded (`FileSize`); a data image above `DATA_SIZE` (`TooLargeDataSize`);
/// a code image above `CODE_SIZE` (`TooLargeCodeSize`); an image of which
/// fewer bytes could be read than its length states (`Eof`).
pub fn check_source(source: &Source, data_region: bool, fullfill: bool) -> (verdict: Result<
    (),
    Error,
>)
    ensures
        match verdict {
            Ok(_) => refusal(*source, data_region, fullfill) is None,
            Err(e) => refusal(*source, data_region, fullfill) == Some(e),
        },
{
    if !source.is_file {
        return Err(Error::InvalidFile);
    }
    if data_region {
        if !fullfill && DATA_SIZE != source.length {
            return Err(Error::FileSize);
        }
        if source.length > DATA_SIZE {
            return Err(Error::TooLargeDataSize);
        }
    } else if source.length > CODE_SIZE {
        return Err(Error::TooLargeCodeSize);
    }
    if source.content.len() < source.length {
        return Err(Error::Eof);
    }
    Ok(())
}

/// Whether a code image of `length` bytes runs over the data region.
pub fn runs_over_data(length: usize, data_region: bool) -> (over: bool)
    ensures
        over == overlaps_data(length as nat, data_region),
{
    !data_region && length > CODE_LIMIT
}

/// The length of the region an image is laid over.
pub fn region_length(length: usize, data_region: bool, fullfill: bool) -> (target: usize)
    ensures
        target == target_length(length as nat, data_region, fullfill),
{
    if !fullfill {
        length
    } else if data_region {
        DATA_SIZE
    } else if length > CODE_LIMIT {
        CODE_SIZE
    } else {
        CODE_LIMIT
    }
}

/// Lays the first `length` bytes of an image before a filler.
pub fn lay_over(content: &Vec<u8>, length: usize, filler: &Vec<u8>) -> (image: Vec<u8>)
    requires
        length <= content@.len(),
    ensures
        image@ == laid_over(content@, length as nat, filler@),
{
    let mut image: Vec<u8> = Vec::new();
    let mut i: usize = 0;
    while i < length
        invariant
            i <= length <= content@.len(),
            image@ == content@.take(i as int),
        decreases length - i,
    {
        image.push(content[i]);
        i += 1;
    }
    let mut k: usize = 0;
    while k < filler.len()
        invariant
            k <= filler@.len(),
            image@ == content@.take(length as int) + filler@.take(k as int),
        decreases filler@.len() - k,
    {
        image.push(filler[k]);
        k += 1;
    }
    assert(filler@.take(k as int) == filler@);
    image
}

/// Makes the filler for `count` bytes.
pub fn make_filler(count: usize, fullfill: bool, seed: i64) -> (filler: Vec<u8>)
    ensures
        filler@ == filler_for(count as nat, fullfill, seed),
{
    if fullfill {
        fill(seed, count)
    } else {
        let mut filler: Vec<u8> = Vec::new();
        let mut k: usize = 0;
        while k < count
            invariant
                k <= count,
                filler@ == Seq::new(k as nat, |i: int| 0xffu8),
            decreases count - k,
        {
            filler.push(0xff);
            k += 1;
        }
        filler
    }
}

/// Lays an accepted image over its region.
pub fn pad_image(source: &Source, data_region: bool, fullfill: bool, seed: i64) -> (image: Vec<u8>)
    requires
        refusal(*source, data_region, fullfill) is None,
    ensures
        image@ == region_image(*source, data_region, fullfill, seed),
{
    let length = source.length;
    let target = region_length(length, data_region, fullfill);
    proof {
        lemma_target_bounds(*source, data_region, fullfill);
    }
    let filler = make_filler(target - length, fullfill, seed);
    lay_over(&source.content, length, &filler)
}

} // verus!
