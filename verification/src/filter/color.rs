//! Filters on single colours.

use vstd::prelude::*;

use crate::filter;
use crate::filter::{apply_to_region, PixelRule};
use crate::image::DecodedImage;
use crate::selection::PixelRect;

verus! {

/// Colours turned over; alpha stays.
pub struct Inverted;

/// The mean of red, green and blue for all three; alpha stays.
pub struct MeanGray;

/// The luminance for red, green and blue; alpha stays.
pub struct Luminance;

/// One colour; alpha stays.
pub struct Filled {
    pub r: u8,
    pub g: u8,
    pub b: u8,
}

/// Colours laid over white by their alpha; opaque.
pub struct OverWhite;

impl PixelRule for Inverted {
    open spec fn suits(&self, image: DecodedImage) -> bool {
        true
    }

    open spec fn yields(&self, image: DecodedImage, x: int, y: int, c: int, v: u8) -> bool {
        v == (if c == 3 {
            image.at(x, y, 3) as int
        } else {
            255 - image.at(x, y, c)
        })
    }

    fn value(&self, image: &DecodedImage, x: usize, y: usize, c: usize) -> (v: u8) {
        let v: u8 = image.get(x, y, c);
        if c == 3 {
            v
        } else {
            255 - v
        }
    }
}

impl PixelRule for MeanGray {
    open spec fn suits(&self, image: DecodedImage) -> bool {
        true
    }

    open spec fn yields(&self, image: DecodedImage, x: int, y: int, c: int, v: u8) -> bool {
        v == (if c == 3 {
            image.at(x, y, 3) as int
        } else {
            (image.at(x, y, 0) + image.at(x, y, 1) + image.at(x, y, 2)) / 3
        })
    }

    fn value(&self, image: &DecodedImage, x: usize, y: usize, c: usize) -> (v: u8) {
        if c == 3 {
            image.get(x, y, 3)
        } else {
            let sum: u16 = image.get(x, y, 0) as u16 + image.get(x, y, 1) as u16 + image.get(
                x,
                y,
                2,
            ) as u16;
            (sum / 3) as u8
        }
    }
}

/// The smallest power of two that leaves a number below `2^24` when divided out.
pub open spec fn coarseness(n: int) -> int
    decreases n,
{
    if n < 0x100_0000 {
        1
    } else {
        2 * coarseness(n / 2)
    }
}

/// A number kept to 24 binary digits, as single precision does: to the nearest
/// multiple of its coarseness, halves to the even one.
pub open spec fn single_precision(n: int) -> int {
    let u = coarseness(n);
    let q = n / u;
    let rest = n % u;
    if 2 * rest > u || (2 * rest == u && q % 2 == 1) {
        (q + 1) * u
    } else {
        q * u
    }
}

/// The BT.709 weights of red, green and blue in units of `2^-27`.
pub const RED_WEIGHT: u64 = 28534688;

pub const GREEN_WEIGHT: u64 = 95992520;

pub const BLUE_WEIGHT: u64 = 9690520;

/// The luminance of a colour: the weighted sum in single precision, from red on,
/// rounded to the nearest whole number.
pub open spec fn luminance(r: int, g: int, b: int) -> int {
    let rg = single_precision(
        single_precision(RED_WEIGHT * r) + single_precision(GREEN_WEIGHT * g),
    );
    let sum = single_precision(rg + single_precision(BLUE_WEIGHT * b));
    (sum + 0x400_0000) / 0x800_0000
}

proof fn coarseness_bounds(n: int)
    requires
        0 <= n,
    ensures
        1 <= coarseness(n),
        n < 0x100_0000 * coarseness(n),
        n >= 0x100_0000 ==> 0x80_0000 * coarseness(n) <= n,
    decreases n,
{
    if n >= 0x100_0000 {
        coarseness_bounds(n / 2);
    }
}

/// Rounding moves a number by at most half its coarseness.
proof fn single_precision_bounds(n: int)
    requires
        0 <= n < 0x1000_0000_0000,
    ensures
        0 <= single_precision(n) <= 2 * n,
        n - n / 0x100_0000 <= single_precision(n) <= n + n / 0x100_0000,
{
    coarseness_bounds(n);
    let u = coarseness(n);
    let q = n / u;
    let rest = n % u;
    vstd::arithmetic::div_mod::lemma_fundamental_div_mod(n, u);
    assert((q + 1) * u == q * u + u && u * q == q * u) by (nonlinear_arith);
    assert(0 <= q * u) by (nonlinear_arith)
        requires
            0 <= n,
            u >= 1,
            q == n / u,
    ;
    if n < 0x100_0000 {
        assert(u == 1);
    }
}

fn round_single(n: u64) -> (r: u64)
    requires
        n < 0x1000_0000_0000,
    ensures
        r == single_precision(n as int),
        r <= 2 * n,
{
    proof {
        single_precision_bounds(n as int);
        coarseness_bounds(n as int);
    }
    let mut u: u64 = 1;
    let mut rest_n: u64 = n;
    assert(1 * coarseness(n as int) == coarseness(n as int));
    while rest_n >= 0x100_0000
        invariant
            rest_n <= n < 0x1000_0000_0000,
            1 <= u,
            u * coarseness(rest_n as int) == coarseness(n as int),
            n < 0x100_0000 * coarseness(n as int),
            n >= 0x100_0000 ==> 0x80_0000 * coarseness(n as int) <= n,
            rest_n >= 0x100_0000 ==> n >= 0x100_0000,
        decreases rest_n,
    {
        proof {
            let k = coarseness(rest_n as int / 2);
            coarseness_bounds(rest_n as int / 2);
            assert(u * (2 * k) == (2 * u) * k) by (nonlinear_arith);
            assert(2 * u <= (2 * u) * k) by (nonlinear_arith)
                requires
                    k >= 1,
                    u >= 1,
            ;
        }
        u = 2 * u;
        rest_n = rest_n / 2;
    }
    let q: u64 = n / u;
    let rest: u64 = n % u;
    proof {
        assert(u * 1 == u);
        let a = q as int * u as int;
        assert((q + 1) * u == a + u) by (nonlinear_arith)
            requires
                a == q * u,
        ;
        vstd::arithmetic::div_mod::lemma_fundamental_div_mod(n as int, u as int);
        assert(u * q == q * u) by (nonlinear_arith);
    }
    if 2 * rest > u || (2 * rest == u && q % 2 == 1) {
        (q + 1) * u
    } else {
        q * u
    }
}

fn luminance_of(r: u8, g: u8, b: u8) -> (v: u8)
    ensures
        v == luminance(r as int, g as int, b as int),
{
    proof {
        single_precision_bounds(RED_WEIGHT * r);
        single_precision_bounds(GREEN_WEIGHT * g);
        single_precision_bounds(BLUE_WEIGHT * b);
    }
    let red: u64 = round_single(RED_WEIGHT * r as u64);
    let green: u64 = round_single(GREEN_WEIGHT * g as u64);
    let blue: u64 = round_single(BLUE_WEIGHT * b as u64);
    proof {
        single_precision_bounds(red + green);
    }
    let rg: u64 = round_single(red + green);
    proof {
        single_precision_bounds(rg + blue);
    }
    let sum: u64 = round_single(rg + blue);
    ((sum + 0x400_0000) / 0x800_0000) as u8
}

impl PixelRule for Luminance {
    open spec fn suits(&self, image: DecodedImage) -> bool {
        true
    }

    open spec fn yields(&self, image: DecodedImage, x: int, y: int, c: int, v: u8) -> bool {
        v == (if c == 3 {
            image.at(x, y, 3) as int
        } else {
            luminance(
                image.at(x, y, 0) as int,
                image.at(x, y, 1) as int,
                image.at(x, y, 2) as int,
            )
        })
    }

    fn value(&self, image: &DecodedImage, x: usize, y: usize, c: usize) -> (v: u8) {
        if c == 3 {
            image.get(x, y, 3)
        } else {
            luminance_of(image.get(x, y, 0), image.get(x, y, 1), image.get(x, y, 2))
        }
    }
}

impl PixelRule for Filled {
    open spec fn suits(&self, image: DecodedImage) -> bool {
        true
    }

    open spec fn yields(&self, image: DecodedImage, x: int, y: int, c: int, v: u8) -> bool {
        v == (if c == 0 {
            self.r
        } else if c == 1 {
            self.g
        } else if c == 2 {
            self.b
        } else {
            image.at(x, y, 3)
        })
    }

    fn value(&self, image: &DecodedImage, x: usize, y: usize, c: usize) -> (v: u8) {
        if c == 0 {
            self.r
        } else if c == 1 {
            self.g
        } else if c == 2 {
            self.b
        } else {
            image.get(x, y, 3)
        }
    }
}

/// A channel laid over white: the share of alpha from the channel and the rest
/// white, rounded to the nearest whole number.
pub open spec fn over_white(v: int, alpha: int) -> int {
    (2 * (v * alpha + 255 * (255 - alpha)) + 255) / 510
}

impl PixelRule for OverWhite {
    open spec fn suits(&self, image: DecodedImage) -> bool {
        true
    }

    open spec fn yields(&self, image: DecodedImage, x: int, y: int, c: int, v: u8) -> bool {
        v == (if c == 3 {
            255
        } else {
            over_white(image.at(x, y, c) as int, image.at(x, y, 3) as int)
        })
    }

    fn value(&self, image: &DecodedImage, x: usize, y: usize, c: usize) -> (v: u8) {
        if c == 3 {
            255
        } else {
            let v: u32 = image.get(x, y, c) as u32;
            let a: u32 = image.get(x, y, 3) as u32;
            proof {
                assert(0 <= v * a <= 255 * a) by (nonlinear_arith)
                    requires
                        0 <= v <= 255,
                        0 <= a,
                ;
            }
            ((2 * (v * a + 255 * (255 - a)) + 255) / 510) as u8
        }
    }
}

/// A new value for each value of a colour.
#[derive(Debug)]
pub struct ToneCurve {
    pub values: Vec<u8>,
}

impl ToneCurve {
    /// The curve has a value for each byte.
    pub open spec fn wf(&self) -> bool {
        self.values@.len() == 256
    }
}

/// Colours changed by a curve; alpha stays.
pub struct Toned<'a> {
    pub curve: &'a ToneCurve,
}

impl<'a> PixelRule for Toned<'a> {
    open spec fn suits(&self, image: DecodedImage) -> bool {
        self.curve.wf()
    }

    open spec fn yields(&self, image: DecodedImage, x: int, y: int, c: int, v: u8) -> bool {
        v == (if c == 3 {
            image.at(x, y, 3)
        } else {
            self.curve.values@[image.at(x, y, c) as int]
        })
    }

    fn value(&self, image: &DecodedImage, x: usize, y: usize, c: usize) -> (v: u8) {
        let v: u8 = image.get(x, y, c);
        if c == 3 {
            v
        } else {
            self.curve.values[v as usize]
        }
    }
}

/// Changes the colours by a curve.
pub fn apply_curve(image: &DecodedImage, region: Option<&PixelRect>, curve: &ToneCurve) -> (
    r: DecodedImage)
    requires
        image.wf(),
        curve.wf(),
    ensures
        filter::filtered(*image, region, (Toned { curve }), r),
{
    apply_to_region(image, region, &Toned { curve })
}

/// Turns the colours over.
pub fn invert_colors(image: &DecodedImage, region: Option<&PixelRect>) -> (r: DecodedImage)
    requires
        image.wf(),
    ensures
        filter::filtered(*image, region, Inverted, r),
{
    apply_to_region(image, region, &Inverted)
}

/// Makes the colours gray by their mean.
pub fn grayscale_simple(image: &DecodedImage, region: Option<&PixelRect>) -> (r: DecodedImage)
    requires
        image.wf(),
    ensures
        filter::filtered(*image, region, MeanGray, r),
{
    apply_to_region(image, region, &MeanGray)
}

/// Makes the colours gray by their luminance.
pub fn grayscale_strict(image: &DecodedImage, region: Option<&PixelRect>) -> (r: DecodedImage)
    requires
        image.wf(),
    ensures
        filter::filtered(*image, region, Luminance, r),
{
    apply_to_region(image, region, &Luminance)
}

/// Fills the selection with a colour.
pub fn fill(image: &DecodedImage, region: Option<&PixelRect>, r: u8, g: u8, b: u8) -> (
    result: DecodedImage)
    requires
        image.wf(),
    ensures
        filter::filtered(*image, region, (Filled { r, g, b }), result),
{
    apply_to_region(image, region, &Filled { r, g, b })
}

/// Lays the colours over white and makes them opaque.
pub fn apply_alpha(image: &DecodedImage, region: Option<&PixelRect>) -> (r: DecodedImage)
    requires
        image.wf(),
    ensures
        filter::filtered(*image, region, OverWhite, r),
{
    apply_to_region(image, region, &OverWhite)
}

/// The luminance is the sum of the colours with the BT.709 weights 0.2126, 0.7152 and
/// 0.0722, rounded to a whole number.
pub proof fn luminance_is_weighted(r: int, g: int, b: int)
    requires
        0 <= r <= 255,
        0 <= g <= 255,
        0 <= b <= 255,
    ensures
        -5001 <= 10000 * luminance(r, g, b) - (2126 * r + 7152 * g + 722 * b) <= 5001,
{
    single_precision_bounds(RED_WEIGHT * r);
    single_precision_bounds(GREEN_WEIGHT * g);
    single_precision_bounds(BLUE_WEIGHT * b);
    let red = single_precision(RED_WEIGHT * r);
    let green = single_precision(GREEN_WEIGHT * g);
    let blue = single_precision(BLUE_WEIGHT * b);
    single_precision_bounds(red + green);
    let rg = single_precision(red + green);
    single_precision_bounds(rg + blue);
}

} // verus!
