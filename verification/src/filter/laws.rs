//! What holds of filters on every image.

use vstd::prelude::*;

use super::blur;
use super::blur::{BoxMean, Middle, Unsharp};
use super::color;
use super::color::{Filled, Inverted, Luminance, MeanGray, OverWhite, Toned};
use super::sharpen;
use super::sharpen::Kernel;
use super::PixelRule;
use crate::filter;
use crate::image;
use crate::image::DecodedImage;
use crate::persistent_filter::FilterOperation;
use crate::selection;
use crate::selection::PixelRect;
use crate::window::action::PlainFilter;
use crate::window::edit;

verus! {

/// A filter leaves the pixels outside the region as they are.
pub proof fn outside_stays<R: PixelRule>(
    image: DecodedImage,
    region: Option<&PixelRect>,
    rule: R,
    result: DecodedImage,
    x: int,
    y: int,
    c: int,
)
    requires
        filter::filtered(image, region, rule, result),
        image.has(x, y, c),
        !filter::selected(region, x, y),
    ensures
        result.at(x, y, c) == image.at(x, y, c),
{
}

/// Inverting the colours twice gives the image back.
pub proof fn inverted_twice(
    a: DecodedImage,
    region: Option<&PixelRect>,
    b: DecodedImage,
    c: DecodedImage,
)
    requires
        a.wf(),
        filter::filtered(a, region, Inverted, b),
        filter::filtered(b, region, Inverted, c),
    ensures
        image::same_image(a, c),
{
    assert forall|x: int, y: int, k: int| a.has(x, y, k) implies a.at(x, y, k) == c.at(
        x,
        y,
        k,
    ) by {
        assert(b.has(x, y, k));
        if filter::selected(region, x, y) {
            assert(Inverted.yields(a, x, y, k, b.at(x, y, k)));
            assert(Inverted.yields(b, x, y, k, c.at(x, y, k)));
        }
    }
    image::pixels_decide(a, c);
}

/// A grey image stays as it is when it is made grey.
pub proof fn grey_twice(
    a: DecodedImage,
    region: Option<&PixelRect>,
    b: DecodedImage,
    c: DecodedImage,
)
    requires
        a.wf(),
        filter::filtered(a, region, MeanGray, b),
        filter::filtered(b, region, MeanGray, c),
    ensures
        image::same_image(b, c),
{
    assert forall|x: int, y: int, k: int| b.has(x, y, k) implies b.at(x, y, k) == c.at(
        x,
        y,
        k,
    ) by {
        if filter::selected(region, x, y) {
            assert(a.has(x, y, k) && a.has(x, y, 0) && a.has(x, y, 1) && a.has(x, y, 2));
            assert(MeanGray.yields(a, x, y, 0, b.at(x, y, 0)));
            assert(MeanGray.yields(a, x, y, 1, b.at(x, y, 1)));
            assert(MeanGray.yields(a, x, y, 2, b.at(x, y, 2)));
            assert(MeanGray.yields(a, x, y, k, b.at(x, y, k)));
            assert(MeanGray.yields(b, x, y, k, c.at(x, y, k)));
        } else {
            assert(a.has(x, y, k));
        }
    }
    image::pixels_decide(b, c);
}

/// Laying an image over white makes it opaque, and an opaque image stays as it
/// is.
pub proof fn opaque_after_alpha(a: DecodedImage, b: DecodedImage, c: DecodedImage)
    requires
        a.wf(),
        filter::filtered(a, None, OverWhite, b),
        filter::filtered(b, None, OverWhite, c),
    ensures
        forall|x: int, y: int| a.has(x, y, 3) ==> #[trigger] b.at(x, y, 3) == 255,
        image::same_image(b, c),
{
    assert forall|x: int, y: int| a.has(x, y, 3) implies #[trigger] b.at(x, y, 3) == 255 by {
        assert(OverWhite.yields(a, x, y, 3, b.at(x, y, 3)));
    }
    assert forall|x: int, y: int, k: int| b.has(x, y, k) implies b.at(x, y, k) == c.at(
        x,
        y,
        k,
    ) by {
        assert(a.has(x, y, 3));
        assert(b.at(x, y, 3) == 255);
        assert(OverWhite.yields(b, x, y, k, c.at(x, y, k)));
    }
    image::pixels_decide(b, c);
}

/// All pixels of the image are alike.
pub open spec fn is_plain(image: DecodedImage) -> bool {
    forall|x: int, y: int, c: int|
        image.has(x, y, c) ==> #[trigger] image.at(x, y, c) == image.at(0, 0, c)
}

proof fn near_is_plain(image: DecodedImage, x: int, y: int, c: int)
    requires
        is_plain(image),
        image.width > 0,
        image.height > 0,
        0 <= c < 4,
    ensures
        blur::near(image, x, y, c) == image.at(0, 0, c),
{
    let u = selection::clamp(x, 0, image.width - 1);
    let v = selection::clamp(y, 0, image.height - 1);
    assert(image.has(u, v, c));
}

proof fn even_row(image: DecodedImage, x: int, y: int, cols: nat, c: int, v: int)
    requires
        forall|i: int| x <= i < x + cols ==> #[trigger] blur::near(image, i, y, c) == v,
    ensures
        blur::row_sum(image, x, y, cols, c) == cols * v,
    decreases cols,
{
    if cols > 0 {
        even_row(image, x, y, (cols - 1) as nat, c, v);
        assert(blur::near(image, x + cols - 1, y, c) == v);
        assert(cols * v == (cols - 1) * v + v) by (nonlinear_arith);
    } else {
        assert(0 * v == 0) by (nonlinear_arith);
    }
}

proof fn even_area(image: DecodedImage, x: int, y: int, cols: nat, rows: nat, c: int, v: int)
    requires
        forall|i: int, j: int|
            x <= i < x + cols && y <= j < y + rows ==> #[trigger] blur::near(image, i, j, c) == v,
    ensures
        blur::area_sum(image, x, y, cols, rows, c) == (cols * rows) * v,
    decreases rows,
{
    if rows > 0 {
        even_area(image, x, y, cols, (rows - 1) as nat, c, v);
        even_row(image, x, y + rows - 1, cols, c, v);
        assert((cols * rows) * v == (cols * (rows - 1)) * v + cols * v) by (nonlinear_arith);
    } else {
        assert((cols * 0) * v == 0) by (nonlinear_arith);
    }
}

proof fn plain_area(image: DecodedImage, x: int, y: int, cols: nat, rows: nat, c: int)
    requires
        is_plain(image),
        image.width > 0,
        image.height > 0,
        0 <= c < 4,
    ensures
        blur::area_sum(image, x, y, cols, rows, c) == (cols * rows) * image.at(0, 0, c),
{
    let v = image.at(0, 0, c) as int;
    assert forall|i: int, j: int|
        x <= i < x + cols && y <= j < y + rows implies #[trigger] blur::near(image, i, j, c) == v by {
        near_is_plain(image, i, j, c);
    }
    even_area(image, x, y, cols, rows, c, v);
}

/// Blurring an image whose pixels are all alike changes nothing.
pub proof fn blur_keeps_plain(
    a: DecodedImage,
    region: Option<&PixelRect>,
    radius: i32,
    b: DecodedImage,
)
    requires
        a.wf(),
        is_plain(a),
        radius >= 0,
        filter::filtered(a, region, (BoxMean { radius }), b),
    ensures
        image::same_image(a, b),
{
    let n = 2 * radius as int + 1;
    assert forall|x: int, y: int, k: int| a.has(x, y, k) implies a.at(x, y, k) == b.at(
        x,
        y,
        k,
    ) by {
        if filter::selected(region, x, y) {
            assert((BoxMean { radius }).yields(a, x, y, k, b.at(x, y, k)));
            plain_area(a, x - radius, y - radius, blur::side(radius as int), blur::side(
                radius as int,
            ), k);
            let v = a.at(0, 0, k) as int;
            assert(((n * n) * v) / (n * n) == v) by (nonlinear_arith)
                requires
                    n >= 1,
            ;
        }
    }
    image::pixels_decide(a, b);
}

/// A soft blur of an image whose pixels are all alike changes nothing.
pub proof fn soft_blur_keeps_plain(
    a: DecodedImage,
    region: Option<&PixelRect>,
    radius: i32,
    b: DecodedImage,
)
    requires
        a.wf(),
        is_plain(a),
        radius >= 0,
        blur::twice_blurred(a, region, radius, b),
    ensures
        image::same_image(a, b),
{
    let p = choose|p: DecodedImage| #[trigger]
        filter::filtered(a, region, (BoxMean { radius }), p) && filter::filtered(
            p,
            region,
            (BoxMean { radius }),
            b,
        );
    blur_keeps_plain(a, region, radius, p);
    same_is_plain(a, p);
    blur_keeps_plain(p, region, radius, b);
}

proof fn same_is_plain(a: DecodedImage, b: DecodedImage)
    requires
        is_plain(a),
        image::same_image(a, b),
    ensures
        is_plain(b),
{
    assert forall|x: int, y: int, c: int| b.has(x, y, c) implies #[trigger] b.at(x, y, c)
        == b.at(0, 0, c) by {
        assert(a.has(x, y, c));
        assert(a.at(x, y, c) == a.at(0, 0, c));
    }
}

proof fn plain_nine(image: DecodedImage, x: int, y: int, c: int)
    requires
        is_plain(image),
        image.width > 0,
        image.height > 0,
        0 <= c < 4,
    ensures
        forall|i: int|
            0 <= i < 9 ==> #[trigger] blur::nine_around(image, x, y, c)[i] == image.at(0, 0, c),
{
    assert forall|i: int| 0 <= i < 9 implies #[trigger] blur::nine_around(image, x, y, c)[i]
        == image.at(0, 0, c) by {
        near_is_plain(image, x + i % 3 - 1, y + i / 3 - 1, c);
    }
}

/// The median of an image whose pixels are all alike changes nothing.
pub proof fn median_keeps_plain(a: DecodedImage, region: Option<&PixelRect>, b: DecodedImage)
    requires
        a.wf(),
        is_plain(a),
        filter::filtered(a, region, Middle, b),
    ensures
        image::same_image(a, b),
{
    assert forall|x: int, y: int, k: int| a.has(x, y, k) implies a.at(x, y, k) == b.at(
        x,
        y,
        k,
    ) by {
        if filter::selected(region, x, y) && k != 3 {
            assert(Middle.yields(a, x, y, k, b.at(x, y, k)));
            plain_nine(a, x, y, k);
            let nine = blur::nine_around(a, x, y, k);
            let v = a.at(0, 0, k) as int;
            let m = b.at(x, y, k) as int;
            reveal_with_fuel(blur::count_up_to, 10);
            assert(nine[0] == v && nine[1] == v && nine[2] == v && nine[3] == v && nine[4] == v
                && nine[5] == v && nine[6] == v && nine[7] == v && nine[8] == v);
        } else if filter::selected(region, x, y) {
            assert(Middle.yields(a, x, y, k, b.at(x, y, k)));
        }
    }
    image::pixels_decide(a, b);
}

/// Sharpening an image whose pixels are all alike changes nothing.
pub proof fn sharpening_keeps_plain(
    a: DecodedImage,
    region: Option<&PixelRect>,
    kernel: Kernel,
    b: DecodedImage,
)
    requires
        a.wf(),
        is_plain(a),
        kernel.weights@ == sharpen::cross_weights() || kernel.weights@
            == sharpen::ring_weights(),
        filter::filtered(a, region, kernel, b),
    ensures
        image::same_image(a, b),
{
    assert forall|x: int, y: int, k: int| a.has(x, y, k) implies a.at(x, y, k) == b.at(
        x,
        y,
        k,
    ) by {
        if filter::selected(region, x, y) {
            assert(kernel.yields(a, x, y, k, b.at(x, y, k)));
            if k != 3 {
                plain_nine(a, x, y, k);
                let nine = blur::nine_around(a, x, y, k);
                let w = kernel.weights@;
                let v = a.at(0, 0, k);
                reveal_with_fuel(sharpen::weighted, 10);
                assert(nine[0] == v && nine[1] == v && nine[2] == v && nine[3] == v && nine[4]
                    == v && nine[5] == v && nine[6] == v && nine[7] == v && nine[8] == v);
                assert(w[0] + w[1] + w[2] + w[3] + w[4] + w[5] + w[6] + w[7] + w[8] == 1);
                assert(v * w[0] + v * w[1] + v * w[2] + v * w[3] + v * w[4] + v * w[5] + v * w[6]
                    + v * w[7] + v * w[8] == v) by (nonlinear_arith)
                    requires
                        w[0] + w[1] + w[2] + w[3] + w[4] + w[5] + w[6] + w[7] + w[8] == 1,
                ;
            }
        }
    }
    image::pixels_decide(a, b);
}

/// Sharpening against a blurred copy changes nothing where all pixels are alike.
pub proof fn unsharp_keeps_plain(
    a: DecodedImage,
    region: Option<&PixelRect>,
    radius: i32,
    blurred: DecodedImage,
    b: DecodedImage,
)
    requires
        a.wf(),
        is_plain(a),
        radius >= 0,
        blur::twice_blurred(a, region, radius, blurred),
        filter::filtered(a, region, (Unsharp { blurred }), b),
    ensures
        image::same_image(a, b),
{
    soft_blur_keeps_plain(a, region, radius, blurred);
    assert forall|x: int, y: int, k: int| a.has(x, y, k) implies a.at(x, y, k) == b.at(
        x,
        y,
        k,
    ) by {
        if filter::selected(region, x, y) {
            assert((Unsharp { blurred }).yields(a, x, y, k, b.at(x, y, k)));
        }
    }
    image::pixels_decide(a, b);
}

proof fn area_of_one(image: DecodedImage, x: int, y: int, c: int)
    ensures
        blur::area_sum(image, x, y, 1, 1, c) == blur::near(image, x, y, c),
{
    reveal_with_fuel(blur::area_sum, 2);
    reveal_with_fuel(blur::row_sum, 2);
}

/// A mosaic of single pixels is the image.
pub proof fn mosaic_of_pixels(a: DecodedImage, region: Option<&PixelRect>, b: DecodedImage)
    requires
        a.wf(),
        blur::in_blocks(a, region, 1, b),
    ensures
        image::same_image(a, b),
{
    let bounds = filter::region_box(region, a.width as int, a.height as int);
    assert forall|x: int, y: int, k: int| a.has(x, y, k) implies a.at(x, y, k) == b.at(
        x,
        y,
        k,
    ) by {
        if filter::selected(region, x, y) && k != 3 {
            assert(bounds.0 <= x < bounds.2 && bounds.1 <= y < bounds.3);
            assert(blur::block_start(x, bounds.0, 1) == x);
            assert(blur::block_start(y, bounds.1, 1) == y);
            area_of_one(a, x, y, k);
            assert(blur::near(a, x, y, k) == a.at(x, y, k));
            assert(blur::block_len(x, bounds.2, 1) == 1 && blur::block_len(y, bounds.3, 1) == 1);
            assert(b.at(x, y, k) == blur::mosaic_value(a, bounds, 1, x, y, k));
            let v = blur::area_sum(a, x, y, 1, 1, k);
            assert(v / (1int * 1int) == v);
            assert(blur::block_mean(a, x, y, bounds.2, bounds.3, 1, k) == a.at(x, y, k));
        } else {
            assert(b.at(x, y, k) == if filter::selected(region, x, y) {
                blur::mosaic_value(a, bounds, 1, x, y, k)
            } else {
                a.at(x, y, k) as int
            });
        }
    }
    image::pixels_decide(a, b);
}

/// A place of a block leads to the block's own beginning.
pub proof fn block_holds(place: int, start: int, end: int, block: int, i: int)
    requires
        start <= place < end,
        0 < block,
        blur::block_start(place, start, block) <= i < blur::block_start(place, start, block)
            + blur::block_len(blur::block_start(place, start, block), end, block),
    ensures
        start <= i < end,
        blur::block_start(i, start, block) == blur::block_start(place, start, block),
{
    let q = (place - start) / block;
    vstd::arithmetic::div_mod::lemma_div_pos_is_pos(place - start, block);
    assert(q * block >= 0) by (nonlinear_arith)
        requires
            q >= 0,
            block > 0,
    ;
    let r = i - start - q * block;
    vstd::arithmetic::div_mod::lemma_fundamental_div_mod_converse(i - start, block, q, r);
}

/// The block that holds a place is not empty.
pub proof fn block_is_filled(place: int, start: int, end: int, block: int)
    requires
        start <= place < end,
        0 < block,
    ensures
        0 < blur::block_len(blur::block_start(place, start, block), end, block),
{
    vstd::arithmetic::div_mod::lemma_fundamental_div_mod(place - start, block);
    vstd::arithmetic::div_mod::lemma_mod_bound(place - start, block);
    let q = (place - start) / block;
    assert(q * block == block * q) by (nonlinear_arith);
}

/// Making a mosaic of a mosaic changes nothing.
pub proof fn mosaic_twice(
    a: DecodedImage,
    region: Option<&PixelRect>,
    block_size: int,
    b: DecodedImage,
    c: DecodedImage,
)
    requires
        a.wf(),
        blur::in_blocks(a, region, block_size, b),
        blur::in_blocks(b, region, block_size, c),
    ensures
        image::same_image(b, c),
{
    assert forall|x: int, y: int, k: int| #[trigger] b.has(x, y, k) implies b.at(x, y, k) == c.at(
        x,
        y,
        k,
    ) by {
        assert(a.has(x, y, k));
        if filter::selected(region, x, y) && k != 3 {
            even_block(a, region, block_size, b, x, y, k);
        }
    }
    image::pixels_decide(b, c);
}

proof fn even_block(
    a: DecodedImage,
    region: Option<&PixelRect>,
    block_size: int,
    b: DecodedImage,
    x: int,
    y: int,
    k: int,
)
    requires
        a.wf(),
        blur::in_blocks(a, region, block_size, b),
        a.has(x, y, k),
        filter::selected(region, x, y),
        k != 3,
    ensures
        blur::mosaic_value(
            b,
            filter::region_box(region, a.width as int, a.height as int),
            if block_size < 1 {
                1
            } else {
                block_size
            },
            x,
            y,
            k,
        ) == b.at(x, y, k),
{
    let bounds = filter::region_box(region, a.width as int, a.height as int);
    let block = if block_size < 1 {
        1
    } else {
        block_size
    };
    assert(bounds.0 <= x < bounds.2 && bounds.1 <= y < bounds.3);
    let (left, top) = (
        blur::block_start(x, bounds.0, block),
        blur::block_start(y, bounds.1, block),
    );
    let (cols, rows) = (
        blur::block_len(left, bounds.2, block),
        blur::block_len(top, bounds.3, block),
    );
    let v = b.at(x, y, k) as int;
    block_is_filled(x, bounds.0, bounds.2, block);
    block_is_filled(y, bounds.1, bounds.3, block);
    assert forall|i: int, j: int|
        left <= i < left + cols && top <= j < top + rows implies #[trigger] blur::near(b, i, j, k)
        == v by {
        block_holds(x, bounds.0, bounds.2, block, i);
        block_holds(y, bounds.1, bounds.3, block, j);
        assert(a.has(i, j, k));
        assert(filter::selected(region, i, j));
        assert(b.at(i, j, k) == blur::mosaic_value(a, bounds, block, i, j, k));
    }
    even_area(b, left, top, cols as nat, rows as nat, k, v);
    assert(cols * rows > 0) by (nonlinear_arith)
        requires
            cols > 0,
            rows > 0,
    ;
    vstd::arithmetic::div_mod::lemma_div_multiples_vanish(v, cols * rows);
}

/// Inverting a colour gives what it lacks of the brightest.
pub proof fn inverted_is_the_rest(
    a: DecodedImage,
    region: Option<&PixelRect>,
    b: DecodedImage,
    x: int,
    y: int,
    c: int,
)
    requires
        edit::plain_makes(PlainFilter::InvertColors, a, region, b),
        a.has(x, y, c),
        c < 3,
        filter::selected(region, x, y),
    ensures
        a.at(x, y, c) + b.at(x, y, c) == 255,
{
    assert(Inverted.yields(a, x, y, c, b.at(x, y, c)));
}

/// The simple grey of a pixel is the same in red, green and blue: a third of their sum,
/// rounded down.
pub proof fn grey_is_a_third(
    a: DecodedImage,
    region: Option<&PixelRect>,
    b: DecodedImage,
    x: int,
    y: int,
    c: int,
)
    requires
        edit::plain_makes(PlainFilter::GrayscaleSimple, a, region, b),
        a.has(x, y, c),
        c < 3,
        filter::selected(region, x, y),
    ensures
        ({
            let sum = a.at(x, y, 0) + a.at(x, y, 1) + a.at(x, y, 2);
            3 * b.at(x, y, c) <= sum < 3 * b.at(x, y, c) + 3
        }),
{
    assert(MeanGray.yields(a, x, y, c, b.at(x, y, c)));
}

/// The strict grey of a pixel is the same in red, green and blue: their sum with the
/// BT.709 weights, rounded to a whole number.
pub proof fn strict_grey_is_weighted(
    a: DecodedImage,
    region: Option<&PixelRect>,
    b: DecodedImage,
    x: int,
    y: int,
    c: int,
)
    requires
        edit::plain_makes(PlainFilter::GrayscaleStrict, a, region, b),
        a.has(x, y, c),
        c < 3,
        filter::selected(region, x, y),
    ensures
        ({
            let sum = 2126 * a.at(x, y, 0) + 7152 * a.at(x, y, 1) + 722 * a.at(x, y, 2);
            -5001 <= 10000 * b.at(x, y, c) - sum <= 5001
        }),
        forall|k: int| 0 <= k < 3 ==> #[trigger] b.at(x, y, k) == b.at(x, y, c),
{
    assert(Luminance.yields(a, x, y, c, b.at(x, y, c)));
    color::luminance_is_weighted(
        a.at(x, y, 0) as int,
        a.at(x, y, 1) as int,
        a.at(x, y, 2) as int,
    );
    assert forall|k: int| 0 <= k < 3 implies #[trigger] b.at(x, y, k) == b.at(x, y, c) by {
        assert(a.has(x, y, k));
        assert(Luminance.yields(a, x, y, k, b.at(x, y, k)));
    }
}

/// Laying a pixel over white mixes its colours with white by its opacity, to the nearest
/// whole number, and makes it opaque: a clear pixel becomes white, an opaque one stays.
pub proof fn alpha_mixes_with_white(
    a: DecodedImage,
    region: Option<&PixelRect>,
    b: DecodedImage,
    x: int,
    y: int,
    c: int,
)
    requires
        edit::plain_makes(PlainFilter::ApplyAlpha, a, region, b),
        a.has(x, y, c),
        filter::selected(region, x, y),
    ensures
        c == 3 ==> b.at(x, y, c) == 255,
        c < 3 ==> ({
            let (v, alpha) = (a.at(x, y, c) as int, a.at(x, y, 3) as int);
            let mixed = alpha * v + (255 - alpha) * 255;
            -255 <= 2 * (255 * b.at(x, y, c) - mixed) <= 255
        }),
        c < 3 && a.at(x, y, 3) == 0 ==> b.at(x, y, c) == 255,
        c < 3 && a.at(x, y, 3) == 255 ==> b.at(x, y, c) == a.at(x, y, c),
{
    assert(a.has(x, y, 3));
    assert(OverWhite.yields(a, x, y, c, b.at(x, y, c)));
    let (v, alpha) = (a.at(x, y, c) as int, a.at(x, y, 3) as int);
    assert(alpha * v == v * alpha) by (nonlinear_arith);
    assert(0 <= v * alpha <= 255 * alpha) by (nonlinear_arith)
        requires
            0 <= v <= 255,
            0 <= alpha,
    ;
    assert(alpha == 0 ==> v * alpha == 0) by (nonlinear_arith);
    assert(alpha == 255 ==> v * alpha == 255 * v) by (nonlinear_arith);
}

/// Filling gives every selected pixel the colour and leaves its opacity.
pub proof fn filled_shows_colour(
    a: DecodedImage,
    region: Option<&PixelRect>,
    rule: Filled,
    b: DecodedImage,
    x: int,
    y: int,
)
    requires
        filter::filtered(a, region, rule, b),
        a.has(x, y, 0),
        filter::selected(region, x, y),
    ensures
        b.at(x, y, 0) == rule.r,
        b.at(x, y, 1) == rule.g,
        b.at(x, y, 2) == rule.b,
        b.at(x, y, 3) == a.at(x, y, 3),
{
    assert(a.has(x, y, 1) && a.has(x, y, 2) && a.has(x, y, 3));
    assert(rule.yields(a, x, y, 0, b.at(x, y, 0)));
    assert(rule.yields(a, x, y, 1, b.at(x, y, 1)));
    assert(rule.yields(a, x, y, 2, b.at(x, y, 2)));
    assert(rule.yields(a, x, y, 3, b.at(x, y, 3)));
}

/// Sharpening against a blurred copy doubles how far a colour is from its blurred value,
/// within the range of a colour.
pub proof fn unsharp_doubles_distance(
    a: DecodedImage,
    region: Option<&PixelRect>,
    blurred: DecodedImage,
    b: DecodedImage,
    x: int,
    y: int,
    c: int,
)
    requires
        filter::filtered(a, region, (Unsharp { blurred }), b),
        a.has(x, y, c),
        c < 3,
        filter::selected(region, x, y),
    ensures
        ({
            let far = a.at(x, y, c) - blurred.at(x, y, c);
            let sum = blurred.at(x, y, c) + 2 * far;
            &&& 0 <= sum <= 255 ==> b.at(x, y, c) == sum
            &&& sum < 0 ==> b.at(x, y, c) == 0
            &&& sum > 255 ==> b.at(x, y, c) == 255
        }),
{
    assert((Unsharp { blurred }).yields(a, x, y, c, b.at(x, y, c)));
}

/// A soft blur is a blur of a blur.
pub proof fn soft_blur_is_two_blurs(
    a: DecodedImage,
    region: Option<&PixelRect>,
    radius: i32,
    once: DecodedImage,
    twice: DecodedImage,
    soft: DecodedImage,
)
    requires
        a.wf(),
        filter::filtered(a, region, (BoxMean { radius }), once),
        filter::filtered(once, region, (BoxMean { radius }), twice),
        blur::twice_blurred(a, region, radius, soft),
    ensures
        image::same_image(twice, soft),
{
    let p = choose|p: DecodedImage| #[trigger]
        filter::filtered(a, region, (BoxMean { radius }), p) && filter::filtered(
            p,
            region,
            (BoxMean { radius }),
            soft,
        );
    blurs_agree(a, region, radius, once, p);
    assert(p =~= p && p.data@ == once.data@);
    assert forall|x: int, y: int, k: int| #[trigger] twice.has(x, y, k) implies twice.at(x, y, k)
        == soft.at(x, y, k) by {
        assert(once.has(x, y, k) && p.has(x, y, k));
        assert(once.at(x, y, k) == p.at(x, y, k));
        if filter::selected(region, x, y) {
            assert((BoxMean { radius }).yields(once, x, y, k, twice.at(x, y, k)));
            assert((BoxMean { radius }).yields(p, x, y, k, soft.at(x, y, k)));
            let r = radius as int;
            same_area(once, p, x - r, y - r, blur::side(r), blur::side(r), k);
        }
    }
    image::pixels_decide(twice, soft);
}

proof fn blurs_agree(
    a: DecodedImage,
    region: Option<&PixelRect>,
    radius: i32,
    b: DecodedImage,
    c: DecodedImage,
)
    requires
        filter::filtered(a, region, (BoxMean { radius }), b),
        filter::filtered(a, region, (BoxMean { radius }), c),
    ensures
        image::same_image(b, c),
{
    assert forall|x: int, y: int, k: int| #[trigger] b.has(x, y, k) implies b.at(x, y, k) == c.at(
        x,
        y,
        k,
    ) by {
        assert(a.has(x, y, k));
        if filter::selected(region, x, y) {
            assert((BoxMean { radius }).yields(a, x, y, k, b.at(x, y, k)));
            assert((BoxMean { radius }).yields(a, x, y, k, c.at(x, y, k)));
        }
    }
    image::pixels_decide(b, c);
}

proof fn same_row(a: DecodedImage, b: DecodedImage, x: int, y: int, cols: nat, c: int)
    requires
        image::same_image(a, b),
    ensures
        blur::row_sum(a, x, y, cols, c) == blur::row_sum(b, x, y, cols, c),
    decreases cols,
{
    if cols > 0 {
        same_row(a, b, x, y, (cols - 1) as nat, c);
    }
}

proof fn same_area(
    a: DecodedImage,
    b: DecodedImage,
    x: int,
    y: int,
    cols: nat,
    rows: nat,
    c: int,
)
    requires
        image::same_image(a, b),
    ensures
        blur::area_sum(a, x, y, cols, rows, c) == blur::area_sum(b, x, y, cols, rows, c),
    decreases rows,
{
    if rows > 0 {
        same_area(a, b, x, y, cols, (rows - 1) as nat, c);
        same_row(a, b, x, y + rows - 1, cols, c);
    }
}

/// A soft blur for every image has a radius of one at least: a smaller one counts as one,
/// and any other as it is.
pub proof fn radius_is_one_at_least(radius: i32, a: DecodedImage, b: DecodedImage)
    ensures
        radius <= 1 ==> (FilterOperation::GaussianBlur { radius }).makes(a, b) == (
        FilterOperation::GaussianBlur { radius: 1 }).makes(a, b),
        radius >= 1 ==> (FilterOperation::GaussianBlur { radius }).makes(a, b)
            == blur::twice_blurred(a, None, radius, b),
{
}

/// The sharpening with a radius doubles how far a colour is from its soft blur of that
/// radius, within the range of a colour.
pub proof fn unsharp_goes_by_soft_blur(
    radius: i32,
    a: DecodedImage,
    soft: DecodedImage,
    b: DecodedImage,
    x: int,
    y: int,
    c: int,
)
    requires
        a.wf(),
        (FilterOperation::GaussianBlur { radius }).makes(a, soft),
        (FilterOperation::UnsharpMask { radius }).makes(a, b),
        a.has(x, y, c),
        c < 3,
    ensures
        ({
            let sum = 2 * a.at(x, y, c) - soft.at(x, y, c);
            &&& 0 <= sum <= 255 ==> b.at(x, y, c) == sum
            &&& sum < 0 ==> b.at(x, y, c) == 0
            &&& sum > 255 ==> b.at(x, y, c) == 255
        }),
{
    let r = blur::box_radius(radius);
    let blurred = choose|blurred: DecodedImage| #[trigger]
        blur::twice_blurred(a, None, r, blurred) && filter::filtered(
            a,
            None,
            (Unsharp { blurred }),
            b,
        );
    let once = choose|once: DecodedImage| #[trigger]
        filter::filtered(a, None, (BoxMean { radius: r }), once) && filter::filtered(
            once,
            None,
            (BoxMean { radius: r }),
            blurred,
        );
    soft_blur_is_two_blurs(a, None, r, once, blurred, soft);
    assert(blurred.at(x, y, c) == soft.at(x, y, c));
    unsharp_doubles_distance(a, None, blurred, b, x, y, c);
}

/// A curve gives every selected colour the value that the curve has for it, and leaves the
/// opacity.
pub proof fn curve_gives_colours(
    a: DecodedImage,
    region: Option<&PixelRect>,
    rule: Toned,
    b: DecodedImage,
    x: int,
    y: int,
    c: int,
)
    requires
        filter::filtered(a, region, rule, b),
        a.has(x, y, c),
        filter::selected(region, x, y),
    ensures
        c < 3 ==> b.at(x, y, c) == rule.curve.values@[a.at(x, y, c) as int],
        c == 3 ==> b.at(x, y, c) == a.at(x, y, c),
{
    assert(rule.yields(a, x, y, c, b.at(x, y, c)));
}

/// A mosaic and a soft blur leave the opacity of every pixel, and the pixels that are not
/// selected.
pub proof fn the_rest_is_kept(
    a: DecodedImage,
    region: Option<&PixelRect>,
    block: int,
    radius: i32,
    tiled: DecodedImage,
    soft: DecodedImage,
    x: int,
    y: int,
    c: int,
)
    requires
        a.has(x, y, c),
        blur::in_blocks(a, region, block, tiled),
        blur::twice_blurred(a, region, radius, soft),
        c == 3 || !filter::selected(region, x, y),
    ensures
        tiled.at(x, y, c) == a.at(x, y, c),
        soft.at(x, y, c) == a.at(x, y, c),
{
    let rule = BoxMean { radius };
    let once = choose|once: DecodedImage| #[trigger]
        filter::filtered(a, region, rule, once) && filter::filtered(once, region, rule, soft);
    assert(once.has(x, y, c));
    if filter::selected(region, x, y) {
        assert(rule.yields(a, x, y, c, once.at(x, y, c)));
        assert(rule.yields(once, x, y, c, soft.at(x, y, c)));
    }
    assert(tiled.at(x, y, c) == a.at(x, y, c));
}

} // verus!
