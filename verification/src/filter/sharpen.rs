//! Sharpening by weighted sums of neighbours.

use vstd::prelude::*;

use crate::filter;
use crate::filter::blur;
use crate::filter::{apply_to_region, PixelRule};
use crate::image::DecodedImage;
use crate::selection;
use crate::selection::PixelRect;

verus! {

/// The sum of the first `n` of the nine values around a pixel, each times its
/// weight.
pub open spec fn weighted(values: Seq<u8>, kernel: Seq<i32>, n: nat) -> int
    decreases n,
{
    if n == 0 {
        0
    } else {
        weighted(values, kernel, (n - 1) as nat) + values[n - 1] * kernel[n - 1]
    }
}

/// Nine weights, row by row, for a pixel and those around it.
pub struct Kernel {
    pub weights: [i32; 9],
}

impl PixelRule for Kernel {
    open spec fn suits(&self, image: DecodedImage) -> bool {
        true
    }

    open spec fn yields(&self, image: DecodedImage, x: int, y: int, c: int, v: u8) -> bool {
        v == (if c == 3 {
            image.at(x, y, 3) as int
        } else {
            selection::clamp(
                weighted(blur::nine_around(image, x, y, c), self.weights@, 9),
                0,
                255,
            )
        })
    }

    fn value(&self, image: &DecodedImage, x: usize, y: usize, c: usize) -> (v: u8) {
        if c == 3 {
            return image.get(x, y, 3);
        }
        let w: i64 = image.width as i64;
        let h: i64 = image.height as i64;
        let mut sum: i64 = 0;
        let mut k: usize = 0;
        while k < 9
            invariant
                k <= 9,
                image.wf(),
                w == image.width,
                h == image.height,
                image.has(x as int, y as int, c as int),
                sum == weighted(
                    blur::nine_around(*image, x as int, y as int, c as int),
                    self.weights@,
                    k as nat,
                ),
                -0x80_0000_0000 * k <= sum <= 0x80_0000_0000 * k,
            decreases 9 - k,
        {
            let px: i64 = x as i64 + (k % 3) as i64 - 1;
            let py: i64 = y as i64 + (k / 3) as i64 - 1;
            let nx: i64 = if px < 0 {
                0
            } else if px > w - 1 {
                w - 1
            } else {
                px
            };
            let ny: i64 = if py < 0 {
                0
            } else if py > h - 1 {
                h - 1
            } else {
                py
            };
            let v: i64 = image.get(nx as usize, ny as usize, c) as i64;
            let weight: i64 = self.weights[k] as i64;
            proof {
                assert(blur::nine_around(*image, x as int, y as int, c as int)[k as int] == v);
                assert(-0x80_0000_0000 <= v * weight <= 0x80_0000_0000) by (nonlinear_arith)
                    requires
                        0 <= v <= 255,
                        -0x8000_0000 <= weight <= 0x7fff_ffff,
                ;
            }
            sum = sum + v * weight;
            k = k + 1;
        }
        if sum < 0 {
            0
        } else if sum > 255 {
            255
        } else {
            sum as u8
        }
    }
}

/// Replaces each selected colour by the weighted sum of those around it.
pub fn apply_kernel(image: &DecodedImage, region: Option<&PixelRect>, kernel: [i32; 9]) -> (
    r: DecodedImage)
    requires
        image.wf(),
    ensures
        filter::filtered(*image, region, (Kernel { weights: kernel }), r),
{
    apply_to_region(image, region, &Kernel { weights: kernel })
}

/// Five for the pixel and minus one for each of its four neighbours.
pub open spec fn cross_weights() -> Seq<i32> {
    Seq::new(
        9,
        |i: int|
            if i == 4 {
                5i32
            } else if i % 2 == 1 {
                -1i32 as i32
            } else {
                0i32
            },
    )
}

/// Nine for the pixel and minus one for each of the eight around it.
pub open spec fn ring_weights() -> Seq<i32> {
    Seq::new(
        9,
        |i: int|
            if i == 4 {
                9i32
            } else {
                -1i32 as i32
            },
    )
}

/// Sharpens against the four neighbours.
pub fn sharpen(image: &DecodedImage, region: Option<&PixelRect>) -> (r: DecodedImage)
    requires
        image.wf(),
    ensures
        exists|k: Kernel| #[trigger]
            filter::filtered(*image, region, k, r) && k.weights@ == cross_weights(),
{
    let weights: [i32; 9] = [0, -1, 0, -1, 5, -1, 0, -1, 0];
    assert(weights@ =~= cross_weights());
    apply_kernel(image, region, weights)
}

/// Sharpens against all eight neighbours.
pub fn sharpen_strong(image: &DecodedImage, region: Option<&PixelRect>) -> (r: DecodedImage)
    requires
        image.wf(),
    ensures
        exists|k: Kernel| #[trigger]
            filter::filtered(*image, region, k, r) && k.weights@ == ring_weights(),
{
    let weights: [i32; 9] = [-1, -1, -1, -1, 9, -1, -1, -1, -1];
    assert(weights@ =~= ring_weights());
    apply_kernel(image, region, weights)
}

} // verus!
