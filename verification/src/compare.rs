//! The difference scorer: decides whether a freshly captured icon image
//! differs significantly from the baseline.
//!
//! The decision is the conjunction of two exact rational tests, computed
//! here in integer arithmetic:
//! - the sum of absolute per-channel differences, normalized by its
//!   theoretical maximum (`255 * 3 * pixel_count`), must exceed the given
//!   threshold (expressed in thousandths); and
//! - more than a quarter of the current image's pixels must lie within
//!   Euclidean distance 0.7 (in RGB space normalized to `[0, 1]`) of the
//!   reference alert color (255, 165, 0).

use vstd::prelude::*;
use crate::pixels::PixelImage;

verus! {

/// Absolute difference of two channel samples.
pub open spec fn abs_diff(a: u8, b: u8) -> int {
    if a >= b {
        a - b
    } else {
        b - a
    }
}

/// Summed absolute RGB difference of pixel `i` of the two buffers; the
/// alpha byte is ignored.
pub open spec fn pixel_diff(d1: Seq<u8>, d2: Seq<u8>, i: int) -> int {
    abs_diff(d1[4 * i], d2[4 * i]) + abs_diff(d1[4 * i + 1], d2[4 * i + 1]) + abs_diff(
        d1[4 * i + 2],
        d2[4 * i + 2],
    )
}

/// Total RGB difference over the first `n` pixels.
pub open spec fn total_diff(d1: Seq<u8>, d2: Seq<u8>, n: int) -> int
    decreases n,
{
    if n <= 0 {
        0
    } else {
        total_diff(d1, d2, n - 1) + pixel_diff(d1, d2, n - 1)
    }
}

/// Whether an RGB sample counts as the alert color: its Euclidean
/// distance to (255, 165, 0), with all channels scaled to `[0, 1]`,
/// is below 0.7.  Scaling the squared inequality by `255 * 255` gives
/// the exact integer form `(255-r)^2 + (g-165)^2 + b^2 < 31862.25`,
/// i.e. `<= 31862`.
pub open spec fn is_orange(r: u8, g: u8, b: u8) -> bool {
    (255 - r) * (255 - r) + abs_diff(g, 165) * abs_diff(g, 165) + b * b <= 31862
}

/// Number of alert-colored pixels among the first `n` pixels of a buffer.
pub open spec fn orange_count(d: Seq<u8>, n: int) -> int
    decreases n,
{
    if n <= 0 {
        0
    } else {
        orange_count(d, n - 1) + if is_orange(d[4 * (n - 1)], d[4 * (n - 1) + 1], d[4 * (n - 1) + 2]) {
            1int
        } else {
            0int
        }
    }
}

/// The full decision rule.  Images of different dimensions are always a
/// significant change.  Otherwise the normalized difference must exceed
/// `threshold_milli / 1000` and the alert-color ratio must exceed 1/4;
/// both comparisons are written multiplied out, so they are exact.
pub open spec fn spec_significant(img1: PixelImage, img2: PixelImage, threshold_milli: u32) -> bool {
    if img1.width != img2.width || img1.height != img2.height {
        true
    } else {
        let n = img1.pixel_count();
        &&& 1000 * total_diff(img1.data@, img2.data@, n) > threshold_milli * 765 * n
        &&& 4 * orange_count(img2.data@, n) > n
    }
}

/// Whether the alert-color test accepts one pixel; exact integer form of
/// the normalized Euclidean distance test against (255, 165, 0).
fn is_orange_pixel(r: u8, g: u8, b: u8) -> (res: bool)
    ensures
        res == is_orange(r, g, b),
{
    let dr: u32 = (255 - r) as u32;
    let dg: u32 = if g >= 165 {
        (g - 165) as u32
    } else {
        (165 - g) as u32
    };
    let db: u32 = b as u32;
    proof {
        assert(dr * dr + dg * dg + db * db <= 195075) by (nonlinear_arith)
            requires
                dr <= 255,
                dg <= 255,
                db <= 255,
        ;
    }
    dr * dr + dg * dg + db * db <= 31862
}

/// Decides whether `img2` shows a significant change against the baseline
/// `img1`, at a difference threshold given in thousandths.
pub fn has_significant_difference(
    img1: &PixelImage,
    img2: &PixelImage,
    threshold_milli: u32,
) -> (res: bool)
    requires
        img1.wf(),
        img2.wf(),
    ensures
        res == spec_significant(*img1, *img2, threshold_milli),
{
    if img1.width != img2.width || img1.height != img2.height {
        return true;
    }
    let n: usize = img1.data.len() / 4;
    assert(n == img1.pixel_count());
    let mut diff_total: u128 = 0;
    let mut oranges: u64 = 0;
    let mut i: usize = 0;
    while i < n
        invariant
            img1.wf(),
            img2.wf(),
            img1.width == img2.width,
            img1.height == img2.height,
            n == img1.pixel_count(),
            n * 4 == img1.data@.len(),
            n * 4 == img2.data@.len(),
            n * 4 <= usize::MAX,
            i <= n,
            diff_total == total_diff(img1.data@, img2.data@, i as int),
            oranges == orange_count(img2.data@, i as int),
        decreases n - i,
    {
        proof {
            lemma_total_diff_bound(img1.data@, img2.data@, i as int);
            lemma_orange_count_bound(img2.data@, i as int);
        }
        let base: usize = 4 * i;
        let r1 = img1.data[base];
        let g1 = img1.data[base + 1];
        let b1 = img1.data[base + 2];
        let r2 = img2.data[base];
        let g2 = img2.data[base + 1];
        let b2 = img2.data[base + 2];
        let dr: u64 = if r1 >= r2 {
            (r1 - r2) as u64
        } else {
            (r2 - r1) as u64
        };
        let dg: u64 = if g1 >= g2 {
            (g1 - g2) as u64
        } else {
            (g2 - g1) as u64
        };
        let db: u64 = if b1 >= b2 {
            (b1 - b2) as u64
        } else {
            (b2 - b1) as u64
        };
        diff_total = diff_total + ((dr + dg + db) as u128);
        if is_orange_pixel(r2, g2, b2) {
            oranges = oranges + 1;
        }
        i = i + 1;
    }
    proof {
        lemma_total_diff_bound(img1.data@, img2.data@, n as int);
        lemma_orange_count_bound(img2.data@, n as int);
        assert(1000 * (diff_total as int) < u128::MAX) by (nonlinear_arith)
            requires
                0 <= diff_total <= 765 * (n as int),
                n <= u64::MAX,
        ;
        assert((threshold_milli as int) * 765 * (n as int) < u128::MAX) by (nonlinear_arith)
            requires
                threshold_milli <= u32::MAX,
                n <= u64::MAX,
        ;
    }
    let big_diff: bool = 1000 * diff_total > (threshold_milli as u128) * 765 * (n as u128);
    let many_orange: bool = 4 * (oranges as u128) > (n as u128);
    big_diff && many_orange
}

/// The per-pixel difference is at most 765, so the total over `n` pixels
/// is between 0 and `765 * n`.
proof fn lemma_total_diff_bound(d1: Seq<u8>, d2: Seq<u8>, n: int)
    requires
        n >= 0,
    ensures
        0 <= total_diff(d1, d2, n) <= 765 * n,
    decreases n,
{
    if n > 0 {
        lemma_total_diff_bound(d1, d2, n - 1);
    }
}

/// At most every pixel is alert-colored, so the count over `n` pixels is
/// between 0 and `n`.
proof fn lemma_orange_count_bound(d: Seq<u8>, n: int)
    requires
        n >= 0,
    ensures
        0 <= orange_count(d, n) <= n,
    decreases n,
{
    if n > 0 {
        lemma_orange_count_bound(d, n - 1);
    }
}

/// When two equally-shaped images have no pixel difference at all, the
/// change is never significant, whatever the threshold.
pub proof fn lemma_zero_diff_never_significant(
    img1: PixelImage,
    img2: PixelImage,
    threshold_milli: u32,
)
    requires
        img1.width == img2.width,
        img1.height == img2.height,
        total_diff(img1.data@, img2.data@, img1.pixel_count()) == 0,
    ensures
        !spec_significant(img1, img2, threshold_milli),
{
    let n = img1.pixel_count();
    assert(threshold_milli * 765 * n >= 0) by (nonlinear_arith)
        requires n >= 0, threshold_milli >= 0;
}

/// A buffer differs from itself by nothing.
proof fn lemma_self_diff_zero(d: Seq<u8>, n: int)
    requires
        n >= 0,
    ensures
        total_diff(d, d, n) == 0,
    decreases n,
{
    if n > 0 {
        lemma_self_diff_zero(d, n - 1);
    }
}

/// An image never differs significantly from itself, whatever the
/// threshold.
pub proof fn lemma_identical_never_significant(img: PixelImage, threshold_milli: u32)
    ensures
        !spec_significant(img, img, threshold_milli),
{
    assert(img.pixel_count() >= 0) by (nonlinear_arith);
    lemma_self_diff_zero(img.data@, img.pixel_count());
    lemma_zero_diff_never_significant(img, img, threshold_milli);
}

/// Images of differing dimensions are a significant change for every
/// threshold.
pub proof fn lemma_dimension_mismatch_significant(
    img1: PixelImage,
    img2: PixelImage,
    threshold_milli: u32,
)
    requires
        img1.width != img2.width || img1.height != img2.height,
    ensures
        spec_significant(img1, img2, threshold_milli),
{
}

/// Raising the threshold can only turn a significant result into an
/// insignificant one, never the reverse: whatever is significant at the
/// higher threshold is significant at every lower one.
pub proof fn lemma_threshold_monotone(
    img1: PixelImage,
    img2: PixelImage,
    t_low: u32,
    t_high: u32,
)
    requires
        t_low <= t_high,
        spec_significant(img1, img2, t_high),
    ensures
        spec_significant(img1, img2, t_low),
{
    if img1.width == img2.width && img1.height == img2.height {
        let n = img1.pixel_count();
        assert(t_low * 765 * n <= t_high * 765 * n) by (nonlinear_arith)
            requires n >= 0, t_low <= t_high;
    }
}

} // verus!
