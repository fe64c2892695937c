//! The pixel buffer that captures are compared on.

use vstd::prelude::*;

verus! {

/// A `width` x `height` grid of RGBA samples, four bytes per pixel, rows
/// stored top-down.  This is the canonical form every capture is brought
/// into before it is compared.
#[derive(Clone, Debug)]
pub struct PixelImage {
    pub width: u32,
    pub height: u32,
    pub data: Vec<u8>,
}

impl PixelImage {
    /// The buffer holds exactly four bytes for every pixel of the grid.
    pub open spec fn wf(self) -> bool {
        self.data@.len() == self.width * self.height * 4
    }

    /// Number of pixels in the grid.
    pub open spec fn pixel_count(self) -> int {
        self.width * self.height
    }

    /// Builds an image from a raw RGBA byte buffer, checking that the
    /// buffer length matches the dimensions; mirrors how a raw capture
    /// readback is turned into an image, where a mismatched buffer is a
    /// failed conversion, not a panic.
    pub fn from_raw(width: u32, height: u32, data: Vec<u8>) -> (r: Option<PixelImage>)
        ensures
            match r {
                Some(img) => {
                    &&& img.wf()
                    &&& img.width == width
                    &&& img.height == height
                    &&& img.data@ == data@
                },
                None => data@.len() != width * height * 4,
            },
    {
        proof {
            assert((width as int) * (height as int) * 4 < u128::MAX) by (nonlinear_arith)
                requires
                    width <= u32::MAX,
                    height <= u32::MAX,
            ;
        }
        let byte_count: u128 = (width as u128) * (height as u128) * 4;
        if (data.len() as u128) == byte_count {
            Some(PixelImage { width, height, data })
        } else {
            None
        }
    }
}

/// The byte sequence with the first and third byte of every four-byte
/// group exchanged: the red/blue swap that turns a native BGRA capture
/// into canonical RGBA order.
pub open spec fn swapped_rb(s: Seq<u8>) -> Seq<u8> {
    Seq::new(s.len(), |i: int| if i % 4 == 0 { s[i + 2] } else if i % 4 == 2 { s[i - 2] } else { s[i] })
}

/// Converts a BGRA pixel buffer (the native capture order) to RGBA in
/// place, by swapping the blue and red byte of every pixel.
pub fn bgra_to_rgba(data: &mut Vec<u8>)
    requires
        old(data)@.len() % 4 == 0,
    ensures
        final(data)@ == swapped_rb(old(data)@),
{
    let n = data.len();
    let mut i: usize = 0;
    while i + 3 < n
        invariant
            data@.len() == n,
            n == old(data)@.len(),
            n % 4 == 0,
            i % 4 == 0,
            i <= n,
            forall|j: int| 0 <= j < i ==> data@[j] == swapped_rb(old(data)@)[j],
            forall|j: int| i <= j < n ==> data@[j] == old(data)@[j],
        decreases n - i,
    {
        let b = data[i];
        let r = data[i + 2];
        data.set(i, r);
        data.set(i + 2, b);
        i = i + 4;
    }
    assert(data@ =~= swapped_rb(old(data)@));
}

} // verus!
