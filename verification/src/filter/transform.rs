//! Turning, cropping and resizing images.

use vstd::prelude::*;

use crate::filter;
use crate::filter::{build, Picture};
use crate::image;
use crate::image::DecodedImage;
use crate::selection;
use crate::selection::PixelRect;

verus! {

/// A turn that only moves pixels.
#[derive(Debug, Clone, Copy, PartialEq, Eq, Structural)]
pub enum Turn {
    /// Left and right exchanged.
    Mirror,
    /// Top and bottom exchanged.
    Flip,
    /// A quarter turn clockwise.
    Right,
    /// Half a turn.
    Half,
    /// A quarter turn counterclockwise.
    Left,
}

/// The pixel of a `w` by `h` image that a turn moves to `(x, y)`.
pub open spec fn origin(turn: Turn, w: int, h: int, x: int, y: int) -> (int, int) {
    match turn {
        Turn::Mirror => (w - 1 - x, y),
        Turn::Flip => (x, h - 1 - y),
        Turn::Right => (y, h - 1 - x),
        Turn::Half => (w - 1 - x, h - 1 - y),
        Turn::Left => (w - 1 - y, x),
    }
}

/// The turn exchanges width and height.
pub open spec fn sideways(turn: Turn) -> bool {
    turn == Turn::Right || turn == Turn::Left
}

/// The result is the turned image.
pub open spec fn turned(image: DecodedImage, turn: Turn, result: DecodedImage) -> bool {
    &&& result.wf()
    &&& result.width == (if sideways(turn) {
        image.height
    } else {
        image.width
    })
    &&& result.height == (if sideways(turn) {
        image.width
    } else {
        image.height
    })
    &&& forall|x: int, y: int, c: int|
        result.has(x, y, c) ==> #[trigger] result.at(x, y, c) == ({
            let o = origin(turn, image.width as int, image.height as int, x, y);
            image.at(o.0, o.1, c)
        })
}

struct Turned<'a> {
    image: &'a DecodedImage,
    turn: Turn,
}

impl<'a> Picture for Turned<'a> {
    closed spec fn ready(&self) -> bool {
        self.image.wf()
    }

    closed spec fn columns(&self) -> int {
        if sideways(self.turn) {
            self.image.height as int
        } else {
            self.image.width as int
        }
    }

    closed spec fn rows(&self) -> int {
        if sideways(self.turn) {
            self.image.width as int
        } else {
            self.image.height as int
        }
    }

    closed spec fn shows(&self, x: int, y: int, c: int, v: u8) -> bool {
        let o = origin(self.turn, self.image.width as int, self.image.height as int, x, y);
        v == self.image.at(o.0, o.1, c)
    }

    fn compute(&self, x: usize, y: usize, c: usize) -> (v: u8) {
        let w: usize = self.image.width as usize;
        let h: usize = self.image.height as usize;
        match self.turn {
            Turn::Mirror => self.image.get(w - 1 - x, y, c),
            Turn::Flip => self.image.get(x, h - 1 - y, c),
            Turn::Right => self.image.get(y, h - 1 - x, c),
            Turn::Half => self.image.get(w - 1 - x, h - 1 - y, c),
            Turn::Left => self.image.get(w - 1 - y, x, c),
        }
    }
}

fn turn_image(image: &DecodedImage, turn: Turn) -> (r: DecodedImage)
    requires
        image.wf(),
    ensures
        turned(*image, turn, r),
{
    let p = Turned { image, turn };
    let r = match turn {
        Turn::Right => build(&p, image.height, image.width),
        Turn::Left => build(&p, image.height, image.width),
        _ => build(&p, image.width, image.height),
    };
    assert forall|x: int, y: int, c: int| r.has(x, y, c) implies #[trigger] r.at(x, y, c) == ({
        let o = origin(turn, image.width as int, image.height as int, x, y);
        image.at(o.0, o.1, c)
    }) by {
        assert(p.shows(x, y, c, r.at(x, y, c)));
    }
    r
}

/// Exchanges left and right.
pub fn flip_horizontal(image: &DecodedImage) -> (r: DecodedImage)
    requires
        image.wf(),
    ensures
        turned(*image, Turn::Mirror, r),
{
    turn_image(image, Turn::Mirror)
}

/// Exchanges top and bottom.
pub fn flip_vertical(image: &DecodedImage) -> (r: DecodedImage)
    requires
        image.wf(),
    ensures
        turned(*image, Turn::Flip, r),
{
    turn_image(image, Turn::Flip)
}

/// Turns an image a quarter clockwise.
pub fn rotate_90(image: &DecodedImage) -> (r: DecodedImage)
    requires
        image.wf(),
    ensures
        turned(*image, Turn::Right, r),
{
    turn_image(image, Turn::Right)
}

/// Turns an image by half.
pub fn rotate_180(image: &DecodedImage) -> (r: DecodedImage)
    requires
        image.wf(),
    ensures
        turned(*image, Turn::Half, r),
{
    turn_image(image, Turn::Half)
}

/// Turns an image a quarter counterclockwise.
pub fn rotate_270(image: &DecodedImage) -> (r: DecodedImage)
    requires
        image.wf(),
    ensures
        turned(*image, Turn::Left, r),
{
    turn_image(image, Turn::Left)
}

/// The result is the part of the image from `(x0, y0)` on, in the given size.
pub open spec fn cut_out(
    image: DecodedImage,
    x0: int,
    y0: int,
    width: int,
    height: int,
    result: DecodedImage,
) -> bool {
    &&& result.wf()
    &&& result.width == width
    &&& result.height == height
    &&& forall|x: int, y: int, c: int|
        result.has(x, y, c) ==> #[trigger] result.at(x, y, c) == image.at(x0 + x, y0 + y, c)
}

struct CutOut<'a> {
    image: &'a DecodedImage,
    rect: PixelRect,
}

impl<'a> Picture for CutOut<'a> {
    closed spec fn ready(&self) -> bool {
        self.image.wf() && self.rect.inside(self.image.width as int, self.image.height as int)
    }

    closed spec fn columns(&self) -> int {
        self.rect.width as int
    }

    closed spec fn rows(&self) -> int {
        self.rect.height as int
    }

    closed spec fn shows(&self, x: int, y: int, c: int, v: u8) -> bool {
        v == self.image.at(self.rect.x + x, self.rect.y + y, c)
    }

    fn compute(&self, x: usize, y: usize, c: usize) -> (v: u8) {
        self.image.get(self.rect.x as usize + x, self.rect.y as usize + y, c)
    }
}

/// The result is the part of the image in the rectangle, or the image where none
/// of it lies there.
pub open spec fn cropped(image: DecodedImage, rect: PixelRect, result: DecodedImage) -> bool {
    let (x0, y0, x1, y1) = filter::region_box(
        Some(&rect),
        image.width as int,
        image.height as int,
    );
    if x1 > x0 && y1 > y0 {
        cut_out(image, x0, y0, x1 - x0, y1 - y0, result)
    } else {
        image::same_image(image, result)
    }
}

/// Cuts a rectangle out of an image; where none of it lies in the image, the
/// image stays as it is.
pub fn crop(image: &DecodedImage, rect: &PixelRect) -> (r: DecodedImage)
    requires
        image.wf(),
    ensures
        cropped(*image, *rect, r),
        r.wf(),
{
    let c = rect.clamped(image.width, image.height);
    if !c.is_valid() {
        return image.duplicate();
    }
    let p = CutOut { image, rect: c };
    let r = build(&p, c.width as u32, c.height as u32);
    assert forall|x: int, y: int, k: int| r.has(x, y, k) implies #[trigger] r.at(x, y, k)
        == image.at(c.x + x, c.y + y, k) by {
        assert(p.shows(x, y, k, r.at(x, y, k)));
    }
    r
}

/// `fast_image_resize::Resizer::resize` with a Lanczos filter on pixels of four
/// bytes. Claimed: the result has the bytes of the new size; an image that has
/// the new size already is copied, and one without pixels gives zeros. Which
/// pixels come out otherwise rests on the machine's sine function and is not
/// claimed.
#[verifier::external_body]
fn resize_pixels(data: &Vec<u8>, width: u32, height: u32, new_width: u32, new_height: u32) -> (
    r: Vec<u8>)
    requires
        data@.len() == width * height * 4,
        0 < new_width,
        0 < new_height,
        new_width * new_height * 4 <= isize::MAX,
    ensures
        r@.len() == new_width * new_height * 4,
        width == new_width && height == new_height ==> r@ == data@,
        width == 0 || height == 0 ==> forall|i: int| 0 <= i < r@.len() ==> #[trigger] r@[i] == 0,
{
    let four = fast_image_resize::PixelType::U8x4;
    let src = fast_image_resize::images::ImageRef::new(width, height, data, four);
    let mut dst = fast_image_resize::images::Image::new(new_width, new_height, four);
    let lanczos = fast_image_resize::ResizeAlg::Convolution(
        fast_image_resize::FilterType::Lanczos3,
    );
    let options = fast_image_resize::ResizeOptions::new().resize_alg(lanczos);
    let mut resizer = fast_image_resize::Resizer::new();
    resizer.resize(&src.expect("source"), &mut dst, &options).expect("resize");
    dst.into_vec()
}

/// Changes the size of an image. A size of zero leaves the image as it is.
pub fn resize(image: &DecodedImage, new_width: u32, new_height: u32) -> (r: DecodedImage)
    requires
        image.wf(),
        new_width <= i32::MAX,
        new_height <= i32::MAX,
        new_width * new_height * 4 <= isize::MAX,
    ensures
        r.wf(),
        new_width == 0 || new_height == 0 || (new_width == image.width && new_height
            == image.height) ==> image::same_image(*image, r),
        new_width > 0 && new_height > 0 ==> r.width == new_width && r.height == new_height,
        new_width > 0 && new_height > 0 && (image.width == 0 || image.height == 0)
            ==> forall|i: int| 0 <= i < r.data@.len() ==> #[trigger] r.data@[i] == 0,
{
    if new_width == 0 || new_height == 0 {
        return image.duplicate();
    }
    let data = resize_pixels(&image.data, image.width, image.height, new_width, new_height);
    with_pixels(data, new_width, new_height)
}

/// An image of the given size from its pixels.
pub fn with_pixels(data: Vec<u8>, width: u32, height: u32) -> (r: DecodedImage)
    requires
        data@.len() == width * height * 4,
        width <= i32::MAX,
        height <= i32::MAX,
    ensures
        r.wf(),
        r.data == data,
        r.width == width,
        r.height == height,
{
    DecodedImage { data, width, height }
}

/// Mirroring an image twice gives the image back.
pub proof fn mirror_twice(a: DecodedImage, b: DecodedImage, c: DecodedImage)
    requires
        a.wf(),
        turned(a, Turn::Mirror, b),
        turned(b, Turn::Mirror, c),
    ensures
        image::same_image(a, c),
{
    undone(a, Turn::Mirror, b, Turn::Mirror, c);
}

/// Flipping an image twice gives the image back.
pub proof fn flip_twice(a: DecodedImage, b: DecodedImage, c: DecodedImage)
    requires
        a.wf(),
        turned(a, Turn::Flip, b),
        turned(b, Turn::Flip, c),
    ensures
        image::same_image(a, c),
{
    undone(a, Turn::Flip, b, Turn::Flip, c);
}

/// Two half turns give the image back.
pub proof fn half_twice(a: DecodedImage, b: DecodedImage, c: DecodedImage)
    requires
        a.wf(),
        turned(a, Turn::Half, b),
        turned(b, Turn::Half, c),
    ensures
        image::same_image(a, c),
{
    undone(a, Turn::Half, b, Turn::Half, c);
}

/// A quarter turn and one the other way give the image back.
pub proof fn quarter_and_back(a: DecodedImage, b: DecodedImage, c: DecodedImage)
    requires
        a.wf(),
        (turned(a, Turn::Right, b) && turned(b, Turn::Left, c)) || (turned(a, Turn::Left, b)
            && turned(b, Turn::Right, c)),
    ensures
        image::same_image(a, c),
{
    if turned(a, Turn::Right, b) && turned(b, Turn::Left, c) {
        undone(a, Turn::Right, b, Turn::Left, c);
    } else {
        undone(a, Turn::Left, b, Turn::Right, c);
    }
}

/// The second turn moves every pixel back.
pub open spec fn undoes(t: Turn, u: Turn) -> bool {
    match t {
        Turn::Right => u == Turn::Left,
        Turn::Left => u == Turn::Right,
        _ => u == t,
    }
}

proof fn undone(a: DecodedImage, t: Turn, b: DecodedImage, u: Turn, c: DecodedImage)
    requires
        a.wf(),
        undoes(t, u),
        turned(a, t, b),
        turned(b, u, c),
    ensures
        image::same_image(a, c),
{
    assert forall|x: int, y: int, k: int| #[trigger] a.has(x, y, k) implies a.at(x, y, k) == c.at(
        x,
        y,
        k,
    ) by {
        let o = origin(u, b.width as int, b.height as int, x, y);
        assert(c.has(x, y, k));
        assert(c.at(x, y, k) == b.at(o.0, o.1, k));
        assert(b.has(o.0, o.1, k));
    }
    image::pixels_decide(a, c);
}

/// Two quarter turns the same way are half a turn, and so are mirroring and
/// flipping.
pub proof fn half_turns(
    a: DecodedImage,
    b: DecodedImage,
    c: DecodedImage,
    d: DecodedImage,
    t: Turn,
    u: Turn,
)
    requires
        a.wf(),
        (t == u && sideways(t)) || (t == Turn::Mirror && u == Turn::Flip) || (t == Turn::Flip && u
            == Turn::Mirror),
        turned(a, t, b),
        turned(b, u, c),
        turned(a, Turn::Half, d),
    ensures
        image::same_image(c, d),
{
    assert forall|x: int, y: int, k: int| #[trigger] c.has(x, y, k) implies c.at(x, y, k) == d.at(
        x,
        y,
        k,
    ) by {
        let o = origin(u, b.width as int, b.height as int, x, y);
        assert(c.at(x, y, k) == b.at(o.0, o.1, k));
        assert(b.has(o.0, o.1, k));
        assert(d.has(x, y, k));
    }
    image::pixels_decide(c, d);
}

/// How many quarter turns clockwise a turn is; none for one that mirrors.
pub open spec fn quarters(t: Turn) -> Option<int> {
    match t {
        Turn::Right => Some(1),
        Turn::Half => Some(2),
        Turn::Left => Some(3),
        _ => None,
    }
}

/// Quarter turns add up: two turns one after the other are the turn by as many
/// quarters as both together, four of which are none.
pub proof fn quarters_add_up(
    a: DecodedImage,
    t: Turn,
    b: DecodedImage,
    u: Turn,
    c: DecodedImage,
)
    requires
        a.wf(),
        quarters(t) is Some,
        quarters(u) is Some,
        turned(a, t, b),
        turned(b, u, c),
    ensures
        (quarters(t)->0 + quarters(u)->0) % 4 == 0 ==> image::same_image(a, c),
        forall|v: Turn, d: DecodedImage|
            quarters(v) is Some && (quarters(t)->0 + quarters(u)->0) % 4 == quarters(v)->0
                && #[trigger] turned(a, v, d) ==> image::same_image(c, d),
{
    if (quarters(t)->0 + quarters(u)->0) % 4 == 0 {
        undone(a, t, b, u, c);
    }
    assert forall|v: Turn, d: DecodedImage|
        quarters(v) is Some && (quarters(t)->0 + quarters(u)->0) % 4 == quarters(v)->0
            && #[trigger] turned(a, v, d) implies image::same_image(c, d) by {
        assert forall|x: int, y: int, k: int| #[trigger] c.has(x, y, k) implies c.at(x, y, k)
            == d.at(x, y, k) by {
            let o = origin(u, b.width as int, b.height as int, x, y);
            assert(c.at(x, y, k) == b.at(o.0, o.1, k));
            assert(b.has(o.0, o.1, k));
            assert(d.has(x, y, k));
        }
        image::pixels_decide(c, d);
    }
}

/// Cropping keeps the pixels of the rectangle that lie in the image, in their places to
/// each other, and nothing else.
pub proof fn crop_keeps_rectangle(
    a: DecodedImage,
    rect: PixelRect,
    b: DecodedImage,
    x: int,
    y: int,
    c: int,
)
    requires
        a.wf(),
        cropped(a, rect, b),
        a.has(x, y, c),
        rect.holds(x, y),
    ensures
        ({
            let left: int = if rect.x < 0 {
                0
            } else {
                rect.x as int
            };
            let top: int = if rect.y < 0 {
                0
            } else {
                rect.y as int
            };
            let right: int = if rect.x + rect.width > a.width {
                a.width as int
            } else {
                rect.x + rect.width
            };
            let bottom: int = if rect.y + rect.height > a.height {
                a.height as int
            } else {
                rect.y + rect.height
            };
            &&& b.width == right - left
            &&& b.height == bottom - top
            &&& b.at(x - left, y - top, c) == a.at(x, y, c)
        }),
{
    let (x0, y0, x1, y1) = filter::region_box(Some(&rect), a.width as int, a.height as int);
    assert(b.has(x - x0, y - y0, c));
}

/// Cropping to a rectangle outside the image leaves the image as it is.
pub proof fn crop_outside_changes_nothing(a: DecodedImage, rect: PixelRect, b: DecodedImage)
    requires
        cropped(a, rect, b),
        forall|x: int, y: int| 0 <= x < a.width && 0 <= y < a.height ==> !#[trigger] rect.holds(x, y),
    ensures
        image::same_image(a, b),
{
    let (x0, y0, x1, y1) = filter::region_box(Some(&rect), a.width as int, a.height as int);
    if x1 > x0 && y1 > y0 {
        assert(rect.holds(x0, y0));
    }
}

} // verus!
