//! Perceptual fingerprints of frames.
//!
//! A frame is reduced to an eight by eight grid of luminance samples. Bit `i`
//! of its fingerprint is set when sample `i` is brighter than the mean of the
//! grid. Two fingerprints are as similar as the share of bits they agree on.

use vstd::prelude::*;

verus! {

/// A captured frame: `width * height` pixels of four bytes each, row by row.
pub struct Frame {
    pub width: u32,
    pub height: u32,
    pub rgba: Vec<u8>,
}

impl Frame {
    /// The buffer holds exactly the pixels that the dimensions announce.
    pub open spec fn wf(&self) -> bool {
        self.rgba@.len() == 4 * self.width * self.height
    }

    /// Whether the buffer holds exactly the pixels that the dimensions announce.
    pub fn is_well_formed(&self) -> (r: bool)
        ensures
            r == self.wf(),
    {
        let row: u128 = 4u128 * (self.width as u128);
        proof {
            assert(row * self.height <= 0x4_0000_0000 * 0x1_0000_0000) by (nonlinear_arith)
                requires
                    0 <= row <= 0x4_0000_0000,
                    0 <= self.height <= 0x1_0000_0000,
            ;
        }
        let need: u128 = row * (self.height as u128);
        self.rgba.len() as u128 == need
    }
}

/// The luminance grid of a frame: the image crate's reduction of the pixels to
/// eight by eight by nearest sampling, followed by its conversion to 8-bit
/// luminance. The conversion rounds as the build of the image crate at hand
/// rounds, so grids and fingerprints are compared within one build of this
/// crate and are not kept for another.
pub uninterp spec fn luma_grid(width: u32, height: u32, rgba: Seq<u8>) -> Seq<u8>;

/// Calls `image::DynamicImage::resize_exact` with the filter `Nearest` and then
/// `to_luma8` on the frame's pixels. The claim: the samples that come back depend
/// on the dimensions and the pixel bytes alone, and there are sixty-four of them,
/// the new image being eight pixels wide and eight high with one sample each.
#[verifier::external_body]
fn downscale_luma(width: u32, height: u32, rgba: &Vec<u8>) -> (grid: Vec<u8>)
    requires
        rgba@.len() == 4 * width * height,
    ensures
        grid@ == luma_grid(width, height, rgba@),
        grid@.len() == 64,
{
    let buffer = image::RgbaImage::from_raw(width, height, rgba.clone()).unwrap();
    let small = image::DynamicImage::ImageRgba8(buffer).resize_exact(
        8,
        8,
        image::imageops::FilterType::Nearest,
    );
    small.to_luma8().pixels().map(|p| p.0[0]).collect()
}

/// The sum of the samples.
pub open spec fn sum_of(samples: Seq<u8>) -> int
    decreases samples.len(),
{
    if samples.len() == 0 {
        0
    } else {
        sum_of(samples.drop_last()) + samples.last()
    }
}

/// The mean of the samples, rounded down.
pub open spec fn mean_of(samples: Seq<u8>) -> int {
    sum_of(samples) / (samples.len() as int)
}

/// Bit `i` of `x` is set.
pub open spec fn bit_set(x: u64, i: nat) -> bool {
    (x >> (i as u64)) & 1 == 1
}

/// The fingerprint of the first `n` samples: bit `i` set for each sample `i` above `mean`.
pub open spec fn marks(samples: Seq<u8>, mean: int, n: nat) -> u64
    decreases n,
{
    if n == 0 {
        0
    } else if samples[n - 1] > mean {
        marks(samples, mean, (n - 1) as nat) | (1u64 << ((n - 1) as u64))
    } else {
        marks(samples, mean, (n - 1) as nat)
    }
}

/// The fingerprint of sixty-four samples.
pub open spec fn fingerprint_of(samples: Seq<u8>) -> u64 {
    marks(samples, mean_of(samples), 64)
}

/// How many of the lowest `n` bits of `x` are set.
pub open spec fn ones_below(x: u64, n: nat) -> nat
    decreases n,
{
    if n == 0 {
        0
    } else {
        ones_below(x, (n - 1) as nat) + if bit_set(x, (n - 1) as nat) {
            1nat
        } else {
            0nat
        }
    }
}

/// How many bits of `x` are set.
pub open spec fn popcount(x: u64) -> nat {
    ones_below(x, 64)
}

/// The similarity of two fingerprints in millionths: the share of the
/// sixty-four bits on which they agree.
pub open spec fn similarity(a: u64, b: u64) -> int {
    (64 - popcount(a ^ b)) * 15_625
}

/// The frame with fingerprint `current` shows what the frame before it showed:
/// there is a frame before it, and the two are at least as similar as `threshold`.
pub open spec fn unchanged(previous: Option<u64>, current: u64, threshold: u32) -> bool {
    previous is Some && similarity(previous->0, current) >= threshold
}

proof fn lemma_set_bit(h: u64, i: u64, j: u64)
    requires
        i < 64,
        j < 64,
    ensures
        ((h | (1u64 << i)) >> j) & 1 == (if j == i {
            1u64
        } else {
            (h >> j) & 1
        }),
{
    assert(((h | (1u64 << i)) >> j) & 1 == (if j == i {
        1u64
    } else {
        (h >> j) & 1
    })) by (bit_vector)
        requires
            i < 64,
            j < 64,
    ;
}

/// Bit `i` of the fingerprint of the first `n` samples is set exactly when
/// `i` is below `n` and sample `i` is above the mean.
pub proof fn lemma_marks_bits(samples: Seq<u8>, mean: int, n: nat)
    requires
        n <= 64,
    ensures
        forall|i: nat|
            i < 64 ==> (#[trigger] bit_set(marks(samples, mean, n), i) <==> (i < n && samples[i as int]
                > mean)),
    decreases n,
{
    if n == 0 {
        assert forall|i: nat| i < 64 implies !#[trigger] bit_set(0u64, i) by {
            let j = i as u64;
            assert((0u64 >> j) & 1 == 0) by (bit_vector);
        }
    } else {
        lemma_marks_bits(samples, mean, (n - 1) as nat);
        let rest = marks(samples, mean, (n - 1) as nat);
        assert forall|i: nat| i < 64 implies (#[trigger] bit_set(marks(samples, mean, n), i) <==> (i
            < n && samples[i as int] > mean)) by {
            assert(bit_set(rest, i) <==> (i < n - 1 && samples[i as int] > mean));
            if samples[n - 1] > mean {
                lemma_set_bit(rest, (n - 1) as u64, i as u64);
            }
        }
    }
}

proof fn lemma_no_ones(n: nat)
    requires
        n <= 64,
    ensures
        ones_below(0, n) == 0,
    decreases n,
{
    if n > 0 {
        lemma_no_ones((n - 1) as nat);
        let j = (n - 1) as u64;
        assert((0u64 >> j) & 1 == 0) by (bit_vector);
    }
}

proof fn lemma_ones_bounded(x: u64, n: nat)
    ensures
        ones_below(x, n) <= n,
    decreases n,
{
    if n > 0 {
        lemma_ones_bounded(x, (n - 1) as nat);
    }
}

/// A fingerprint is as similar to itself as can be.
pub proof fn lemma_similarity_reflexive(a: u64)
    ensures
        similarity(a, a) == 1_000_000,
{
    assert(a ^ a == 0) by (bit_vector);
    lemma_no_ones(64);
}

/// Similarity does not depend on the order of the two fingerprints, and lies
/// between nothing and one.
pub proof fn lemma_similarity_symmetric(a: u64, b: u64)
    ensures
        similarity(a, b) == similarity(b, a),
        0 <= similarity(a, b) <= 1_000_000,
{
    assert(a ^ b == b ^ a) by (bit_vector);
    lemma_ones_bounded(a ^ b, 64);
}

/// The fingerprint of sixty-four luminance samples.
pub fn fingerprint(samples: &Vec<u8>) -> (hash: u64)
    requires
        samples@.len() == 64,
    ensures
        hash == fingerprint_of(samples@),
        forall|i: nat| i < 64 ==> (#[trigger] bit_set(hash, i) <==> samples@[i as int] > mean_of(samples@)),
{
    let mut sum: u64 = 0;
    let mut k: usize = 0;
    while k < 64
        invariant
            k <= 64,
            samples@.len() == 64,
            sum == sum_of(samples@.take(k as int)),
            sum <= 255 * k,
        decreases 64 - k,
    {
        proof {
            assert(samples@.take(k + 1).drop_last() == samples@.take(k as int));
        }
        sum = sum + samples[k] as u64;
        k += 1;
    }
    proof {
        assert(samples@.take(64) == samples@);
    }
    let mean: u64 = sum / 64;
    let mut hash: u64 = 0;
    let mut i: usize = 0;
    while i < 64
        invariant
            i <= 64,
            samples@.len() == 64,
            mean == mean_of(samples@),
            hash == marks(samples@, mean as int, i as nat),
        decreases 64 - i,
    {
        if samples[i] as u64 > mean {
            hash = hash | (1u64 << (i as u64));
        }
        i += 1;
    }
    proof {
        lemma_marks_bits(samples@, mean as int, 64);
    }
    hash
}

/// The fingerprint of a frame.
pub fn compute_image_hash(frame: &Frame) -> (hash: u64)
    requires
        frame.wf(),
    ensures
        hash == fingerprint_of(luma_grid(frame.width, frame.height, frame.rgba@)),
{
    let grid = downscale_luma(frame.width, frame.height, &frame.rgba);
    fingerprint(&grid)
}

/// The fingerprint of a frame, where its buffer matches its dimensions.
pub fn checked_image_hash(frame: &Frame) -> (hash: Option<u64>)
    ensures
        match hash {
            Some(h) => frame.wf() && h == fingerprint_of(
                luma_grid(frame.width, frame.height, frame.rgba@),
            ),
            None => !frame.wf(),
        },
{
    if frame.is_well_formed() {
        Some(compute_image_hash(frame))
    } else {
        None
    }
}

/// How many bits of `x` are set.
pub fn count_ones(x: u64) -> (n: u32)
    ensures
        n == popcount(x),
        n <= 64,
{
    let mut n: u32 = 0;
    let mut i: u32 = 0;
    while i < 64
        invariant
            i <= 64,
            n == ones_below(x, i as nat),
            n <= i,
        decreases 64 - i,
    {
        if (x >> (i as u64)) & 1 == 1 {
            n += 1;
        }
        i += 1;
    }
    n
}

/// The similarity of two fingerprints, in millionths.
pub fn hash_similarity(hash1: u64, hash2: u64) -> (s: u32)
    ensures
        s == similarity(hash1, hash2),
        s <= 1_000_000,
        hash1 == hash2 ==> s == 1_000_000,
{
    let differing: u32 = count_ones(hash1 ^ hash2);
    proof {
        if hash1 == hash2 {
            lemma_similarity_reflexive(hash1);
        }
    }
    (64 - differing) * 15_625
}

/// Whether a frame shows what the frame before it showed.
pub fn is_unchanged(previous: Option<u64>, current: u64, threshold: u32) -> (r: bool)
    ensures
        r == unchanged(previous, current, threshold),
{
    match previous {
        Some(p) => hash_similarity(p, current) >= threshold,
        None => false,
    }
}

} // verus!
