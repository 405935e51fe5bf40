//! Filters and transforms of images.

use vstd::prelude::*;

pub mod blur;
pub mod color;
pub mod laws;
pub mod sharpen;
pub mod squares;
pub mod transform;

use crate::image;
use crate::image::DecodedImage;
use crate::selection;
use crate::selection::PixelRect;

verus! {

/// The columns and rows of the selected part of an image: first column, first
/// row, and those behind the last.
pub fn region_bounds(region: Option<&PixelRect>, width: u32, height: u32) -> (r: (
    i32,
    i32,
    i32,
    i32,
))
    requires
        width <= i32::MAX,
        height <= i32::MAX,
    ensures
        0 <= r.0 <= r.2 <= width,
        0 <= r.1 <= r.3 <= height,
        forall|x: int, y: int|
            0 <= x < width && 0 <= y < height ==> (#[trigger] selected(region, x, y) <==> r.0 <= x
                < r.2 && r.1 <= y < r.3),
        (r.0 as int, r.1 as int, r.2 as int, r.3 as int) == region_box(
            region,
            width as int,
            height as int,
        ),
{
    match region {
        Some(rect) => {
            let c = rect.clamped(width, height);
            let r = (c.x, c.y, c.right(), c.bottom());
            assert forall|x: int, y: int| 0 <= x < width && 0 <= y < height implies (
            #[trigger] selected(region, x, y) <==> r.0 <= x < r.2 && r.1 <= y < r.3) by {
                assert(c.holds(x, y) <==> rect.holds(x, y));
            }
            r
        },
        None => (0, 0, width as i32, height as i32),
    }
}

/// The bounds of the selected part of an image: first column, first row, and
/// those behind the last.
pub open spec fn region_box(region: Option<&PixelRect>, width: int, height: int) -> (
    int,
    int,
    int,
    int,
) {
    match region {
        Some(r) => (
            selection::clamp(r.x as int, 0, width),
            selection::clamp(r.y as int, 0, height),
            selection::span_end(r.x as int, r.width as int, width),
            selection::span_end(r.y as int, r.height as int, height),
        ),
        None => (0, 0, width, height),
    }
}

/// The pixel is selected: it lies in the rectangle, or there is none.
pub open spec fn selected(region: Option<&PixelRect>, x: int, y: int) -> bool {
    match region {
        Some(rect) => rect.holds(x, y),
        None => true,
    }
}

/// A picture that is computed pixel by pixel.
pub trait Picture {
    /// The picture can be computed.
    spec fn ready(&self) -> bool;

    spec fn columns(&self) -> int;

    spec fn rows(&self) -> int;

    /// The value is the one of the pixel's channel.
    spec fn shows(&self, x: int, y: int, c: int, v: u8) -> bool;

    fn compute(&self, x: usize, y: usize, c: usize) -> (v: u8)
        requires
            self.ready(),
            x < self.columns(),
            y < self.rows(),
            c < 4,
        ensures
            self.shows(x as int, y as int, c as int, v),
    ;
}

/// The image shows the picture.
pub open spec fn depicts<P: Picture>(image: DecodedImage, p: P) -> bool {
    &&& image.wf()
    &&& image.width == p.columns()
    &&& image.height == p.rows()
    &&& forall|x: int, y: int, c: int|
        image.has(x, y, c) ==> p.shows(x, y, c, #[trigger] image.at(x, y, c))
}

/// Computes a picture.
#[verifier::rlimit(30)]
pub fn build<P: Picture>(p: &P, width: u32, height: u32) -> (r: DecodedImage)
    requires
        p.ready(),
        p.columns() == width,
        p.rows() == height,
        width <= i32::MAX,
        height <= i32::MAX,
    ensures
        depicts(r, *p),
{
    let w: usize = width as usize;
    let h: usize = height as usize;
    let mut data: Vec<u8> = Vec::new();
    let mut y: usize = 0;
    assert(0 * w == 0);
    while y < h
        invariant
            p.ready(),
            p.columns() == w,
            p.rows() == h,
            y <= h,
            data@.len() == y * w * 4,
            forall|i: int|
                0 <= i < data@.len() ==> p.shows(
                    (i / 4) % (w as int),
                    (i / 4) / (w as int),
                    i % 4,
                    #[trigger] data@[i],
                ),
        decreases h - y,
    {
        let mut x: usize = 0;
        while x < w
            invariant
                p.ready(),
                p.columns() == w,
                p.rows() == h,
                y < h,
                x <= w,
                data@.len() == (y * w + x) * 4,
                forall|i: int|
                    0 <= i < data@.len() ==> p.shows(
                        (i / 4) % (w as int),
                        (i / 4) / (w as int),
                        i % 4,
                        #[trigger] data@[i],
                    ),
            decreases w - x,
        {
            let mut c: usize = 0;
            while c < 4
                invariant
                    p.ready(),
                    p.columns() == w,
                    p.rows() == h,
                    y < h,
                    x < w,
                    c <= 4,
                    data@.len() == image::offset(w as int, x as int, y as int, c as int),
                    forall|i: int|
                        0 <= i < data@.len() ==> p.shows(
                            (i / 4) % (w as int),
                            (i / 4) / (w as int),
                            i % 4,
                            #[trigger] data@[i],
                        ),
                decreases 4 - c,
            {
                proof {
                    image::offset_decodes(w as int, x as int, y as int, c as int);
                }
                let v: u8 = p.compute(x, y, c);
                data.push(v);
                c = c + 1;
            }
            x = x + 1;
        }
        assert((y + 1) * w == y * w + w) by (nonlinear_arith);
        y = y + 1;
    }
    let r = DecodedImage { data, width, height };
    proof {
        assert(h * w * 4 == width * height * 4) by (nonlinear_arith)
            requires
                w == width,
                h == height,
        ;
        assert forall|x: int, y: int, c: int| r.has(x, y, c) implies p.shows(
            x,
            y,
            c,
            #[trigger] r.at(x, y, c),
        ) by {
            image::offset_decodes(w as int, x, y, c);
            image::offset_in_range(w as int, h as int, x, y, c);
        }
    }
    r
}

/// A rule that gives each channel of a selected pixel a new value.
pub trait PixelRule {
    /// The rule can be used on the image.
    spec fn suits(&self, image: DecodedImage) -> bool;

    /// The value is the new one of the pixel's channel.
    spec fn yields(&self, image: DecodedImage, x: int, y: int, c: int, v: u8) -> bool;

    fn value(&self, image: &DecodedImage, x: usize, y: usize, c: usize) -> (v: u8)
        requires
            self.suits(*image),
            image.wf(),
            image.has(x as int, y as int, c as int),
        ensures
            self.yields(*image, x as int, y as int, c as int, v),
    ;
}

/// The result has the image's size; the rule gave the values of the selected
/// pixels, and the others are the image's.
pub open spec fn filtered<R: PixelRule>(
    image: DecodedImage,
    region: Option<&PixelRect>,
    rule: R,
    result: DecodedImage,
) -> bool {
    &&& result.wf()
    &&& result.width == image.width
    &&& result.height == image.height
    &&& forall|x: int, y: int, c: int|
        image.has(x, y, c) ==> if selected(region, x, y) {
            rule.yields(image, x, y, c, #[trigger] result.at(x, y, c))
        } else {
            result.at(x, y, c) == image.at(x, y, c)
        }
}

/// An image with a rule at work in a part of it.
struct Filtered<'a, R: PixelRule> {
    image: &'a DecodedImage,
    rule: &'a R,
    x0: usize,
    y0: usize,
    x1: usize,
    y1: usize,
}

impl<'a, R: PixelRule> Picture for Filtered<'a, R> {
    closed spec fn ready(&self) -> bool {
        self.image.wf() && self.rule.suits(*self.image)
    }

    closed spec fn columns(&self) -> int {
        self.image.width as int
    }

    closed spec fn rows(&self) -> int {
        self.image.height as int
    }

    closed spec fn shows(&self, x: int, y: int, c: int, v: u8) -> bool {
        if self.x0 <= x < self.x1 && self.y0 <= y < self.y1 {
            self.rule.yields(*self.image, x, y, c, v)
        } else {
            v == self.image.at(x, y, c)
        }
    }

    fn compute(&self, x: usize, y: usize, c: usize) -> (v: u8) {
        if self.x0 <= x && x < self.x1 && self.y0 <= y && y < self.y1 {
            self.rule.value(self.image, x, y, c)
        } else {
            self.image.get(x, y, c)
        }
    }
}

/// Applies a rule to the selected pixels of an image.
pub fn apply_to_region<R: PixelRule>(
    image: &DecodedImage,
    region: Option<&PixelRect>,
    rule: &R,
) -> (r: DecodedImage)
    requires
        image.wf(),
        rule.suits(*image),
    ensures
        filtered(*image, region, *rule, r),
{
    let (x0, y0, x1, y1) = region_bounds(region, image.width, image.height);
    let p = Filtered {
        image,
        rule,
        x0: x0 as usize,
        y0: y0 as usize,
        x1: x1 as usize,
        y1: y1 as usize,
    };
    let r = build(&p, image.width, image.height);
    proof {
        assert forall|x: int, y: int, c: int| image.has(x, y, c) implies if selected(
            region,
            x,
            y,
        ) {
            rule.yields(*image, x, y, c, #[trigger] r.at(x, y, c))
        } else {
            r.at(x, y, c) == image.at(x, y, c)
        } by {
            assert(r.has(x, y, c));
            assert(p.shows(x, y, c, r.at(x, y, c)));
        }
    }
    r
}

} // verus!
