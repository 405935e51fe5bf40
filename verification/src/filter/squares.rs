//! What holds of filters that look at the pixels around.

use vstd::prelude::*;

use super::blur;
use super::blur::{BoxMean, Middle};
use super::sharpen;
use super::sharpen::Kernel;
use super::transform;
use super::transform::Turn;
use super::PixelRule;
use crate::filter;
use crate::image;
use crate::image::DecodedImage;
use crate::persistent_filter::FilterOperation;
use crate::selection;
use crate::selection::PixelRect;
use crate::window::action::PlainFilter;
use crate::window::edit;

verus! {

/// The sum of the first `n` values.
spec fn sum(f: spec_fn(int) -> int, n: nat) -> int
    decreases n,
{
    if n == 0 {
        0
    } else {
        sum(f, (n - 1) as nat) + f(n - 1)
    }
}

/// The sum over the columns and rows of a table.
spec fn table_sum(f: spec_fn(int, int) -> int, cols: nat, rows: nat) -> int {
    sum(|j: int| sum(|i: int| f(i, j), cols), rows)
}

proof fn sum_same(f: spec_fn(int) -> int, g: spec_fn(int) -> int, n: nat)
    requires
        forall|i: int| 0 <= i < n ==> #[trigger] f(i) == g(i),
    ensures
        sum(f, n) == sum(g, n),
    decreases n,
{
    if n > 0 {
        sum_same(f, g, (n - 1) as nat);
        assert(f(n - 1) == g(n - 1));
    }
}

proof fn sum_added(f: spec_fn(int) -> int, g: spec_fn(int) -> int, n: nat)
    ensures
        sum(|i: int| f(i) + g(i), n) == sum(f, n) + sum(g, n),
    decreases n,
{
    if n > 0 {
        sum_added(f, g, (n - 1) as nat);
    }
}

proof fn sum_from_first(f: spec_fn(int) -> int, n: nat)
    requires
        n > 0,
    ensures
        sum(f, n) == f(0) + sum(|i: int| f(i + 1), (n - 1) as nat),
    decreases n,
{
    if n > 1 {
        sum_from_first(f, (n - 1) as nat);
    } else {
        reveal_with_fuel(sum, 2);
    }
}

proof fn sum_reversed(f: spec_fn(int) -> int, n: nat)
    ensures
        sum(|i: int| f(n - 1 - i), n) == sum(f, n),
    decreases n,
{
    if n > 0 {
        let m = (n - 1) as nat;
        let next = |i: int| f(i + 1);
        sum_from_first(f, n);
        sum_reversed(next, m);
        sum_same(|i: int| f(n - 1 - i), |i: int| next(m - 1 - i), m);
    }
}

proof fn sum_of_none(n: nat)
    ensures
        sum(|i: int| 0, n) == 0,
    decreases n,
{
    if n > 0 {
        sum_of_none((n - 1) as nat);
    }
}

/// What is no smaller anywhere, and larger by `d` at one place, has a sum larger by
/// `d` at least.
proof fn sum_gains(f: spec_fn(int) -> int, g: spec_fn(int) -> int, n: nat, k: int, d: int)
    requires
        forall|i: int| 0 <= i < n ==> #[trigger] f(i) <= g(i),
        0 <= k < n,
        f(k) + d <= g(k),
    ensures
        sum(f, n) + d <= sum(g, n),
    decreases n,
{
    assert(f(n - 1) <= g(n - 1));
    if k < n - 1 {
        sum_gains(f, g, (n - 1) as nat, k, d);
    } else {
        sum_grows(f, g, (n - 1) as nat);
    }
}

proof fn sum_grows(f: spec_fn(int) -> int, g: spec_fn(int) -> int, n: nat)
    requires
        forall|i: int| 0 <= i < n ==> #[trigger] f(i) <= g(i),
    ensures
        sum(f, n) <= sum(g, n),
    decreases n,
{
    if n > 0 {
        assert(f(n - 1) <= g(n - 1));
        sum_grows(f, g, (n - 1) as nat);
    }
}

proof fn sum_of_alike(n: nat, v: int)
    ensures
        sum(|i: int| v, n) == n * v,
    decreases n,
{
    if n > 0 {
        sum_of_alike((n - 1) as nat, v);
        assert((n - 1) * v + v == n * v) by (nonlinear_arith);
    } else {
        assert(0 * v == 0) by (nonlinear_arith);
    }
}

proof fn table_same(
    f: spec_fn(int, int) -> int,
    g: spec_fn(int, int) -> int,
    cols: nat,
    rows: nat,
)
    requires
        forall|i: int, j: int| 0 <= i < cols && 0 <= j < rows ==> #[trigger] f(i, j) == g(i, j),
    ensures
        table_sum(f, cols, rows) == table_sum(g, cols, rows),
{
    let a = |j: int| sum(|i: int| f(i, j), cols);
    let b = |j: int| sum(|i: int| g(i, j), cols);
    assert forall|j: int| 0 <= j < rows implies #[trigger] a(j) == b(j) by {
        sum_same(|i: int| f(i, j), |i: int| g(i, j), cols);
    }
    sum_same(a, b, rows);
}

proof fn table_swapped(f: spec_fn(int, int) -> int, cols: nat, rows: nat)
    ensures
        table_sum(f, cols, rows) == table_sum(|i: int, j: int| f(j, i), rows, cols),
    decreases rows,
{
    let turned = |i: int, j: int| f(j, i);
    let whole = |j: int| sum(|i: int| turned(i, j), rows);
    if rows == 0 {
        sum_of_none(cols);
        sum_same(whole, |i: int| 0, cols);
    } else {
        let less = (rows - 1) as nat;
        table_swapped(f, cols, less);
        let part = |j: int| sum(|i: int| turned(i, j), less);
        let last = |j: int| f(j, rows - 1);
        sum_added(part, last, cols);
        sum_same(whole, |j: int| part(j) + last(j), cols);
    }
}

proof fn table_mirrored(f: spec_fn(int, int) -> int, cols: nat, rows: nat)
    ensures
        table_sum(|i: int, j: int| f(cols - 1 - i, j), cols, rows) == table_sum(f, cols, rows),
{
    let m = |i: int, j: int| f(cols - 1 - i, j);
    let a = |j: int| sum(|i: int| m(i, j), cols);
    let b = |j: int| sum(|i: int| f(i, j), cols);
    assert forall|j: int| 0 <= j < rows implies #[trigger] a(j) == b(j) by {
        let row = |i: int| f(i, j);
        sum_reversed(row, cols);
        sum_same(|i: int| m(i, j), |i: int| row(cols - 1 - i), cols);
        sum_same(row, |i: int| f(i, j), cols);
    }
    sum_same(a, b, rows);
}

proof fn table_flipped(f: spec_fn(int, int) -> int, cols: nat, rows: nat)
    ensures
        table_sum(|i: int, j: int| f(i, rows - 1 - j), cols, rows) == table_sum(f, cols, rows),
{
    let b = |j: int| sum(|i: int| f(i, j), cols);
    let flipped = |i: int, j: int| f(i, rows - 1 - j);
    let a = |j: int| sum(|i: int| flipped(i, j), cols);
    sum_reversed(b, rows);
    assert forall|j: int| 0 <= j < rows implies #[trigger] a(j) == b(rows - 1 - j) by {
        sum_same(|i: int| flipped(i, j), |i: int| f(i, rows - 1 - j), cols);
    }
    sum_same(a, |j: int| b(rows - 1 - j), rows);
}

proof fn table_gains(
    f: spec_fn(int, int) -> int,
    g: spec_fn(int, int) -> int,
    cols: nat,
    rows: nat,
    i: int,
    j: int,
    d: int,
)
    requires
        forall|u: int, v: int| 0 <= u < cols && 0 <= v < rows ==> #[trigger] f(u, v) <= g(u, v),
        0 <= i < cols,
        0 <= j < rows,
        f(i, j) + d <= g(i, j),
    ensures
        table_sum(f, cols, rows) + d <= table_sum(g, cols, rows),
{
    let a = |v: int| sum(|u: int| f(u, v), cols);
    let b = |v: int| sum(|u: int| g(u, v), cols);
    assert forall|v: int| 0 <= v < rows implies #[trigger] a(v) <= b(v) by {
        sum_grows(|u: int| f(u, v), |u: int| g(u, v), cols);
    }
    sum_gains(|u: int| f(u, j), |u: int| g(u, j), cols, i, d);
    sum_gains(a, b, rows, j, d);
}

proof fn table_of_alike(cols: nat, rows: nat, v: int)
    ensures
        table_sum(|i: int, j: int| v, cols, rows) == (cols * rows) * v,
{
    let one = |i: int, j: int| v;
    let row = |j: int| sum(|i: int| one(i, j), cols);
    assert forall|j: int| 0 <= j < rows implies #[trigger] row(j) == cols * v by {
        sum_of_alike(cols, v);
        sum_same(|i: int| one(i, j), |i: int| v, cols);
    }
    sum_same(row, |j: int| cols * v, rows);
    sum_of_alike(rows, cols * v);
    assert(rows * (cols * v) == (cols * rows) * v) by (nonlinear_arith);
}

/// The values of a channel in the square of the radius around a pixel.
spec fn square(image: DecodedImage, x: int, y: int, r: int, c: int) -> spec_fn(int, int) -> int {
    |i: int, j: int| blur::near(image, x - r + i, y - r + j, c) as int
}

proof fn row_is_sum(image: DecodedImage, x: int, y: int, cols: nat, c: int)
    ensures
        blur::row_sum(image, x, y, cols, c) == sum(
            |i: int| blur::near(image, x + i, y, c) as int,
            cols,
        ),
    decreases cols,
{
    if cols > 0 {
        row_is_sum(image, x, y, (cols - 1) as nat, c);
    }
}

proof fn area_is_sum(image: DecodedImage, x: int, y: int, cols: nat, rows: nat, c: int)
    ensures
        blur::area_sum(image, x, y, cols, rows, c) == table_sum(
            |i: int, j: int| blur::near(image, x + i, y + j, c) as int,
            cols,
            rows,
        ),
    decreases rows,
{
    if rows > 0 {
        let f = |i: int, j: int| blur::near(image, x + i, y + j, c) as int;
        area_is_sum(image, x, y, cols, (rows - 1) as nat, c);
        row_is_sum(image, x, y + rows - 1, cols, c);
        sum_same(
            |i: int| blur::near(image, x + i, y + rows - 1, c) as int,
            |i: int| f(i, rows - 1),
            cols,
        );
    }
}

/// The side of a square of the radius.
spec fn side(r: int) -> nat {
    (2 * r + 1) as nat
}

/// A blurred colour is the mean over the square, rounded down.
proof fn blurred_value(
    a: DecodedImage,
    region: Option<&PixelRect>,
    radius: i32,
    b: DecodedImage,
    x: int,
    y: int,
    c: int,
)
    requires
        radius >= 0,
        filter::filtered(a, region, (BoxMean { radius }), b),
        a.has(x, y, c),
        filter::selected(region, x, y),
        c != 3,
    ensures
        b.at(x, y, c) == table_sum(
            square(a, x, y, radius as int, c),
            side(radius as int),
            side(radius as int),
        ) / (side(radius as int) as int * side(radius as int) as int),
{
    let r = radius as int;
    assert((BoxMean { radius }).yields(a, x, y, c, b.at(x, y, c)));
    area_is_sum(a, x - r, y - r, side(r), side(r), c);
    table_same(
        |i: int, j: int| blur::near(a, x - r + i, y - r + j, c) as int,
        square(a, x, y, r, c),
        side(r),
        side(r),
    );
}

proof fn quotient_gains(s: int, t: int, q: int, g: int)
    requires
        q > 0,
        s + g * q <= t,
    ensures
        s / q + g <= t / q,
{
    vstd::arithmetic::div_mod::lemma_hoist_over_denominator(s, g, q as nat);
    vstd::arithmetic::div_mod::lemma_div_is_ordered(s + g * q, t, q);
    assert(g * q == q * g) by (nonlinear_arith);
}

/// Turning an image and looking at a place near it is looking at the place that the
/// turn moves there.
proof fn near_turned(a: DecodedImage, t: Turn, b: DecodedImage, x: int, y: int, c: int)
    requires
        a.wf(),
        transform::turned(a, t, b),
        a.width > 0,
        a.height > 0,
        0 <= c < 4,
    ensures
        blur::near(b, x, y, c) == ({
            let o = transform::origin(t, a.width as int, a.height as int, x, y);
            blur::near(a, o.0, o.1, c)
        }),
{
    let u = selection::clamp(x, 0, b.width - 1);
    let v = selection::clamp(y, 0, b.height - 1);
    assert(b.has(u, v, c));
    assert(b.at(u, v, c) == ({
        let o = transform::origin(t, a.width as int, a.height as int, u, v);
        a.at(o.0, o.1, c)
    }));
}

/// Turning an image and blurring it comes to the same as blurring and turning it:
/// no direction is preferred.
pub proof fn blur_turns_along(
    a: DecodedImage,
    t: Turn,
    turned: DecodedImage,
    radius: i32,
    turned_blurred: DecodedImage,
    blurred: DecodedImage,
    blurred_turned: DecodedImage,
)
    requires
        a.wf(),
        radius >= 0,
        transform::turned(a, t, turned),
        filter::filtered(turned, None, (BoxMean { radius }), turned_blurred),
        filter::filtered(a, None, (BoxMean { radius }), blurred),
        transform::turned(blurred, t, blurred_turned),
    ensures
        image::same_image(turned_blurred, blurred_turned),
{
    assert forall|x: int, y: int, k: int| #[trigger]
        turned_blurred.has(x, y, k) implies turned_blurred.at(x, y, k) == blurred_turned.at(
        x,
        y,
        k,
    ) by {
        let o = transform::origin(t, a.width as int, a.height as int, x, y);
        assert(blurred_turned.has(x, y, k));
        assert(blurred_turned.at(x, y, k) == blurred.at(o.0, o.1, k));
        assert(a.has(o.0, o.1, k));
        assert(turned.has(x, y, k));
        if k == 3 {
            assert((BoxMean { radius }).yields(turned, x, y, k, turned_blurred.at(x, y, k)));
            assert((BoxMean { radius }).yields(a, o.0, o.1, k, blurred.at(o.0, o.1, k)));
            assert(turned.at(x, y, k) == a.at(o.0, o.1, k));
        } else {
            blurred_value(turned, None, radius, turned_blurred, x, y, k);
            blurred_value(a, None, radius, blurred, o.0, o.1, k);
            square_turned(a, t, turned, radius as int, x, y, k);
        }
    }
    image::pixels_decide(turned_blurred, blurred_turned);
}

proof fn square_turned(
    a: DecodedImage,
    t: Turn,
    b: DecodedImage,
    r: int,
    x: int,
    y: int,
    c: int,
)
    requires
        a.wf(),
        r >= 0,
        transform::turned(a, t, b),
        a.width > 0,
        a.height > 0,
        0 <= c < 4,
    ensures
        ({
            let o = transform::origin(t, a.width as int, a.height as int, x, y);
            table_sum(square(b, x, y, r, c), side(r), side(r)) == table_sum(
                square(a, o.0, o.1, r, c),
                side(r),
                side(r),
            )
        }),
{
    let n = side(r);
    let o = transform::origin(t, a.width as int, a.height as int, x, y);
    let f = square(b, x, y, r, c);
    let g = square(a, o.0, o.1, r, c);
    assert forall|i: int, j: int| 0 <= i < n && 0 <= j < n implies #[trigger] f(i, j) == (match t {
        Turn::Mirror => g(n - 1 - i, j),
        Turn::Flip => g(i, n - 1 - j),
        Turn::Half => g(n - 1 - i, n - 1 - j),
        Turn::Right => g(j, n - 1 - i),
        Turn::Left => g(n - 1 - j, i),
    }) by {
        near_turned(a, t, b, x - r + i, y - r + j, c);
    }
    match t {
        Turn::Mirror => {
            table_mirrored(g, n, n);
            table_same(f, |i: int, j: int| g(n - 1 - i, j), n, n);
        },
        Turn::Flip => {
            table_flipped(g, n, n);
            table_same(f, |i: int, j: int| g(i, n - 1 - j), n, n);
        },
        Turn::Half => {
            let h = |i: int, j: int| g(i, n - 1 - j);
            table_flipped(g, n, n);
            table_mirrored(h, n, n);
            table_same(f, |i: int, j: int| h(n - 1 - i, j), n, n);
        },
        Turn::Right => {
            let h = |i: int, j: int| g(i, n - 1 - j);
            table_flipped(g, n, n);
            table_swapped(h, n, n);
            table_same(f, |i: int, j: int| h(j, i), n, n);
        },
        Turn::Left => {
            let h = |i: int, j: int| g(n - 1 - i, j);
            table_mirrored(g, n, n);
            table_swapped(h, n, n);
            table_same(f, |i: int, j: int| h(j, i), n, n);
        },
    }
}

/// The colour at a place; beyond an edge, that of the nearest place in the image.
pub open spec fn beside(image: DecodedImage, x: int, y: int, c: int) -> int {
    image.at(
        if x < 0 {
            0
        } else if x >= image.width {
            image.width - 1
        } else {
            x
        },
        if y < 0 {
            0
        } else if y >= image.height {
            image.height - 1
        } else {
            y
        },
        c,
    ) as int
}

/// A blurred colour follows the colours in the square of the radius around it, and no
/// others. Where none of them is lower in a second image, neither is the result; where
/// one of them, anywhere in the square, is higher by `gain` times the number of places
/// in the square, the result is higher by `gain` at least.
pub proof fn blur_follows_its_square(
    a: DecodedImage,
    a2: DecodedImage,
    region: Option<&PixelRect>,
    radius: i32,
    b: DecodedImage,
    b2: DecodedImage,
    x: int,
    y: int,
    c: int,
    u: int,
    v: int,
    gain: int,
)
    requires
        radius >= 0,
        a2.width == a.width,
        a2.height == a.height,
        filter::filtered(a, region, (BoxMean { radius }), b),
        filter::filtered(a2, region, (BoxMean { radius }), b2),
        a.has(x, y, c),
        filter::selected(region, x, y),
        c < 3,
        forall|i: int, j: int|
            x - radius <= i <= x + radius && y - radius <= j <= y + radius ==> #[trigger] beside(
                a,
                i,
                j,
                c,
            ) <= beside(a2, i, j, c),
        x - radius <= u <= x + radius,
        y - radius <= v <= y + radius,
        beside(a, u, v, c) + gain * ((2 * radius + 1) * (2 * radius + 1)) <= beside(a2, u, v, c),
    ensures
        b.at(x, y, c) + gain <= b2.at(x, y, c),
{
    let r = radius as int;
    let n = side(r);
    blurred_value(a, region, radius, b, x, y, c);
    blurred_value(a2, region, radius, b2, x, y, c);
    let f = square(a, x, y, r, c);
    let g = square(a2, x, y, r, c);
    assert forall|i: int, j: int| 0 <= i < n && 0 <= j < n implies #[trigger] f(i, j) <= g(i, j) by {
        assert(beside(a, x - r + i, y - r + j, c) <= beside(a2, x - r + i, y - r + j, c));
    }
    let d = gain * (n as int * n as int);
    assert(f(u - x + r, v - y + r) == beside(a, u, v, c));
    assert(g(u - x + r, v - y + r) == beside(a2, u, v, c));
    table_gains(f, g, n, n, u - x + r, v - y + r, d);
    assert(n as int * n as int > 0) by (nonlinear_arith)
        requires
            n >= 1,
    ;
    quotient_gains(table_sum(f, n, n), table_sum(g, n, n), n as int * n as int, gain);
}

/// A blurred colour lies between the lowest and the highest of its square.
pub proof fn blur_stays_between(
    a: DecodedImage,
    region: Option<&PixelRect>,
    radius: i32,
    b: DecodedImage,
    x: int,
    y: int,
    c: int,
    low: int,
    high: int,
)
    requires
        radius >= 0,
        filter::filtered(a, region, (BoxMean { radius }), b),
        a.has(x, y, c),
        filter::selected(region, x, y),
        c < 3,
        forall|i: int, j: int|
            x - radius <= i <= x + radius && y - radius <= j <= y + radius ==> low
                <= #[trigger] beside(a, i, j, c) <= high,
    ensures
        low <= b.at(x, y, c) <= high,
{
    let r = radius as int;
    let n = side(r);
    let q = n as int * n as int;
    blurred_value(a, region, radius, b, x, y, c);
    let f = square(a, x, y, r, c);
    assert forall|i: int, j: int| 0 <= i < n && 0 <= j < n implies low <= #[trigger] f(i, j)
        <= high by {
        assert(low <= beside(a, x - r + i, y - r + j, c) <= high);
    }
    table_of_alike(n, n, low);
    table_of_alike(n, n, high);
    assert(f(0, 0) + 0 <= high);
    table_gains(|i: int, j: int| low, f, n, n, 0, 0, 0);
    table_gains(f, |i: int, j: int| high, n, n, 0, 0, 0);
    assert(q > 0) by (nonlinear_arith)
        requires
            n >= 1,
            q == n as int * n as int,
    ;
    let t = table_sum(f, n, n);
    vstd::arithmetic::div_mod::lemma_div_is_ordered(q * low, t, q);
    vstd::arithmetic::div_mod::lemma_div_is_ordered(t, q * high, q);
    assert(q * low == low * q && q * high == high * q) by (nonlinear_arith);
    vstd::arithmetic::div_mod::lemma_div_multiples_vanish(low, q);
    vstd::arithmetic::div_mod::lemma_div_multiples_vanish(high, q);
}

/// The plain blur looks one place around and the strong one two: each follows the
/// colours that near, as a blur of that radius does.
pub proof fn blurs_by_strength(
    kind: PlainFilter,
    a: DecodedImage,
    a2: DecodedImage,
    region: Option<&PixelRect>,
    b: DecodedImage,
    b2: DecodedImage,
    x: int,
    y: int,
    c: int,
    u: int,
    v: int,
    gain: int,
)
    requires
        kind == PlainFilter::Blur || kind == PlainFilter::BlurStrong,
        a2.width == a.width,
        a2.height == a.height,
        edit::plain_makes(kind, a, region, b),
        edit::plain_makes(kind, a2, region, b2),
        a.has(x, y, c),
        filter::selected(region, x, y),
        c < 3,
        forall|i: int, j: int|
            kind == PlainFilter::Blur && -1 <= i - x <= 1 && -1 <= j - y <= 1
                ==> #[trigger] beside(a, i, j, c) <= beside(a2, i, j, c),
        forall|i: int, j: int|
            kind == PlainFilter::BlurStrong && -2 <= i - x <= 2 && -2 <= j - y <= 2
                ==> #[trigger] beside(a, i, j, c) <= beside(a2, i, j, c),
        kind == PlainFilter::Blur ==> -1 <= u - x <= 1 && -1 <= v - y <= 1 && beside(a, u, v, c) + 9
            * gain <= beside(a2, u, v, c),
        kind == PlainFilter::BlurStrong ==> -2 <= u - x <= 2 && -2 <= v - y <= 2 && beside(
            a,
            u,
            v,
            c,
        ) + 25 * gain <= beside(a2, u, v, c),
    ensures
        b.at(x, y, c) + gain <= b2.at(x, y, c),
{
    if kind == PlainFilter::Blur {
        assert(gain * ((2 * 1 + 1) * (2 * 1 + 1)) == 9 * gain) by (nonlinear_arith);
        blur_follows_its_square(a, a2, region, 1, b, b2, x, y, c, u, v, gain);
    } else {
        assert(gain * ((2 * 2 + 1) * (2 * 2 + 1)) == 25 * gain) by (nonlinear_arith);
        blur_follows_its_square(a, a2, region, 2, b, b2, x, y, c, u, v, gain);
    }
}

/// A weighted sum of nine, place by place.
proof fn nine_weighted(a: DecodedImage, w: Seq<i32>, x: int, y: int, c: int)
    requires
        a.width > 0,
        a.height > 0,
    ensures
        sharpen::weighted(blur::nine_around(a, x, y, c), w, 9) == beside(a, x - 1, y - 1, c) * w[0]
            + beside(a, x, y - 1, c) * w[1] + beside(a, x + 1, y - 1, c) * w[2] + beside(
            a,
            x - 1,
            y,
            c,
        ) * w[3] + beside(a, x, y, c) * w[4] + beside(a, x + 1, y, c) * w[5] + beside(
            a,
            x - 1,
            y + 1,
            c,
        ) * w[6] + beside(a, x, y + 1, c) * w[7] + beside(a, x + 1, y + 1, c) * w[8],
{
    let nine = blur::nine_around(a, x, y, c);
    assert(nine[0] == beside(a, x - 1, y - 1, c));
    assert(nine[1] == beside(a, x, y - 1, c));
    assert(nine[2] == beside(a, x + 1, y - 1, c));
    assert(nine[3] == beside(a, x - 1, y, c));
    assert(nine[4] == beside(a, x, y, c));
    assert(nine[5] == beside(a, x + 1, y, c));
    assert(nine[6] == beside(a, x - 1, y + 1, c));
    assert(nine[7] == beside(a, x, y + 1, c));
    assert(nine[8] == beside(a, x + 1, y + 1, c));
    reveal_with_fuel(sharpen::weighted, 10);
}

/// Sharpening adds to a colour how far it is above each of its four neighbours, within
/// the range of a colour.
pub proof fn sharpening_lifts_off_four(
    a: DecodedImage,
    region: Option<&PixelRect>,
    b: DecodedImage,
    x: int,
    y: int,
    c: int,
)
    requires
        edit::plain_makes(PlainFilter::Sharpen, a, region, b),
        a.has(x, y, c),
        filter::selected(region, x, y),
        c < 3,
    ensures
        ({
            let p = a.at(x, y, c) as int;
            let above = (p - beside(a, x - 1, y, c)) + (p - beside(a, x + 1, y, c)) + (p - beside(
                a,
                x,
                y - 1,
                c,
            )) + (p - beside(a, x, y + 1, c));
            &&& 0 <= p + above <= 255 ==> b.at(x, y, c) == p + above
            &&& p + above < 0 ==> b.at(x, y, c) == 0
            &&& p + above > 255 ==> b.at(x, y, c) == 255
        }),
{
    let k = choose|k: Kernel| #[trigger]
        filter::filtered(a, region, k, b) && k.weights@ == sharpen::cross_weights();
    assert(k.yields(a, x, y, c, b.at(x, y, c)));
    let w = k.weights@;
    assert(w[0] == 0 && w[1] == -1 && w[2] == 0 && w[3] == -1 && w[4] == 5 && w[5] == -1 && w[6] == 0 && w[7] == -1 && w[8] == 0);
    nine_weighted(a, w, x, y, c);
}

/// Strong sharpening adds to a colour how far it is above each of the eight around it,
/// within the range of a colour.
pub proof fn sharpening_lifts_off_eight(
    a: DecodedImage,
    region: Option<&PixelRect>,
    b: DecodedImage,
    x: int,
    y: int,
    c: int,
)
    requires
        edit::plain_makes(PlainFilter::SharpenStrong, a, region, b),
        a.has(x, y, c),
        filter::selected(region, x, y),
        c < 3,
    ensures
        ({
            let p = a.at(x, y, c) as int;
            let above = (p - beside(a, x - 1, y, c)) + (p - beside(a, x + 1, y, c)) + (p - beside(
                a,
                x,
                y - 1,
                c,
            )) + (p - beside(a, x, y + 1, c)) + (p - beside(a, x - 1, y - 1, c)) + (p - beside(
                a,
                x + 1,
                y - 1,
                c,
            )) + (p - beside(a, x - 1, y + 1, c)) + (p - beside(a, x + 1, y + 1, c));
            &&& 0 <= p + above <= 255 ==> b.at(x, y, c) == p + above
            &&& p + above < 0 ==> b.at(x, y, c) == 0
            &&& p + above > 255 ==> b.at(x, y, c) == 255
        }),
{
    let k = choose|k: Kernel| #[trigger]
        filter::filtered(a, region, k, b) && k.weights@ == sharpen::ring_weights();
    assert(k.yields(a, x, y, c, b.at(x, y, c)));
    let w = k.weights@;
    assert(w[0] == -1 && w[1] == -1 && w[2] == -1 && w[3] == -1 && w[4] == 9 && w[5] == -1 && w[6] == -1 && w[7] == -1 && w[8] == -1);
    nine_weighted(a, w, x, y, c);
}

/// The places of the three by three square around a pixel whose colour meets the
/// condition.
pub open spec fn places_around(
    image: DecodedImage,
    x: int,
    y: int,
    c: int,
    meets: spec_fn(int) -> bool,
) -> Set<(int, int)> {
    set![
        (-1int, -1int), (0int, -1int), (1int, -1int),
        (-1int, 0int), (0int, 0int), (1int, 0int),
        (-1int, 1int), (0int, 1int), (1int, 1int),
    ].filter(|p: (int, int)| meets(beside(image, x + p.0, y + p.1, c)))
}

spec fn place_at(i: int) -> (int, int) {
    (i % 3 - 1, i / 3 - 1)
}

/// The first `n` places whose values are at most `v`, or are not.
spec fn counted_places(values: Seq<u8>, v: int, n: nat, below: bool) -> Set<(int, int)>
    decreases n,
{
    if n == 0 {
        Set::empty()
    } else {
        let rest = counted_places(values, v, (n - 1) as nat, below);
        if (values[n - 1] <= v) == below {
            rest.insert(place_at(n - 1))
        } else {
            rest
        }
    }
}

proof fn counted_places_hold(values: Seq<u8>, v: int, n: nat, below: bool)
    requires
        n <= 9,
    ensures
        forall|p: (int, int)| #[trigger]
            counted_places(values, v, n, below).contains(p) <==> exists|i: int|
                0 <= i < n && place_at(i) == p && (#[trigger] values[i] <= v) == below,
        counted_places(values, v, n, below).finite(),
        counted_places(values, v, n, below).len() == (if below {
            blur::count_up_to(values, v, n) as int
        } else {
            n - blur::count_up_to(values, v, n)
        }),
    decreases n,
{
    if n > 0 {
        counted_places_hold(values, v, (n - 1) as nat, below);
        let rest = counted_places(values, v, (n - 1) as nat, below);
        assert(!rest.contains(place_at(n - 1))) by {
            assert forall|i: int| 0 <= i < n - 1 implies #[trigger] place_at(i) != place_at(n - 1) by {}
        }
        assert forall|p: (int, int)| #[trigger]
            counted_places(values, v, n, below).contains(p) <==> exists|i: int|
                0 <= i < n && place_at(i) == p && (#[trigger] values[i] <= v) == below by {
            if counted_places(values, v, n, below).contains(p) {
                if rest.contains(p) {
                    let i = choose|i: int|
                        0 <= i < n - 1 && place_at(i) == p && (#[trigger] values[i] <= v) == below;
                    assert(0 <= i < n && place_at(i) == p && (values[i] <= v) == below);
                } else {
                    assert(place_at(n - 1) == p && (values[n - 1] <= v) == below);
                }
            }
        }
    }
}

proof fn places_are_counted(
    image: DecodedImage,
    x: int,
    y: int,
    c: int,
    v: int,
    below: bool,
    meets: spec_fn(int) -> bool,
)
    requires
        forall|w: int| #[trigger] meets(w) <==> (w <= v) == below,
    ensures
        places_around(image, x, y, c, meets).len() == (if below {
            blur::count_up_to(blur::nine_around(image, x, y, c), v, 9) as int
        } else {
            9 - blur::count_up_to(blur::nine_around(image, x, y, c), v, 9)
        }),
{
    let values = blur::nine_around(image, x, y, c);
    counted_places_hold(values, v, 9, below);
    let found = counted_places(values, v, 9, below);
    assert forall|p: (int, int)| #[trigger]
        places_around(image, x, y, c, meets).contains(p) <==> found.contains(p) by {
        let i = p.0 + 1 + 3 * (p.1 + 1);
        if places_around(image, x, y, c, meets).contains(p) {
            assert(0 <= i < 9 && place_at(i) == p);
            assert(values[i] == beside(image, x + p.0, y + p.1, c));
            assert((values[i] <= v) == below);
        }
        if found.contains(p) {
            let k = choose|k: int|
                0 <= k < 9 && place_at(k) == p && (#[trigger] values[k] <= v) == below;
            assert(values[k] == beside(image, x + p.0, y + p.1, c));
        }
    }
    assert(places_around(image, x, y, c, meets) =~= found);
}

/// The median of a pixel is a colour that five of the nine around it reach at most, and
/// five at least.
pub proof fn median_parts_nine(
    a: DecodedImage,
    region: Option<&PixelRect>,
    b: DecodedImage,
    x: int,
    y: int,
    c: int,
)
    requires
        edit::plain_makes(PlainFilter::MedianFilter, a, region, b),
        a.has(x, y, c),
        filter::selected(region, x, y),
        c < 3,
    ensures
        places_around(a, x, y, c, |w: int| w <= b.at(x, y, c)).len() >= 5,
        places_around(a, x, y, c, |w: int| w >= b.at(x, y, c)).len() >= 5,
{
    let m = b.at(x, y, c) as int;
    assert(Middle.yields(a, x, y, c, b.at(x, y, c)));
    places_are_counted(a, x, y, c, m, true, |w: int| w <= b.at(x, y, c));
    places_are_counted(a, x, y, c, m - 1, false, |w: int| w >= b.at(x, y, c));
}

/// A filter for every image does what the edit of the same name does to a whole image.
pub proof fn filters_for_all_are_edits(op: FilterOperation, a: DecodedImage, b: DecodedImage)
    ensures
        op is Blur ==> op.makes(a, b) == edit::plain_makes(PlainFilter::Blur, a, None, b),
        op is BlurStrong ==> op.makes(a, b) == edit::plain_makes(
            PlainFilter::BlurStrong,
            a,
            None,
            b,
        ),
        op is Sharpen ==> op.makes(a, b) == edit::plain_makes(PlainFilter::Sharpen, a, None, b),
        op is SharpenStrong ==> op.makes(a, b) == edit::plain_makes(
            PlainFilter::SharpenStrong,
            a,
            None,
            b,
        ),
        op is MedianFilter ==> op.makes(a, b) == edit::plain_makes(
            PlainFilter::MedianFilter,
            a,
            None,
            b,
        ),
        op is InvertColors ==> op.makes(a, b) == edit::plain_makes(
            PlainFilter::InvertColors,
            a,
            None,
            b,
        ),
        op is GrayscaleSimple ==> op.makes(a, b) == edit::plain_makes(
            PlainFilter::GrayscaleSimple,
            a,
            None,
            b,
        ),
        op is GrayscaleStrict ==> op.makes(a, b) == edit::plain_makes(
            PlainFilter::GrayscaleStrict,
            a,
            None,
            b,
        ),
        op is ApplyAlpha ==> op.makes(a, b) == edit::plain_makes(
            PlainFilter::ApplyAlpha,
            a,
            None,
            b,
        ),
        op is FlipHorizontal ==> op.makes(a, b) == transform::turned(a, Turn::Mirror, b),
        op is FlipVertical ==> op.makes(a, b) == transform::turned(a, Turn::Flip, b),
        op is Rotate180 ==> op.makes(a, b) == transform::turned(a, Turn::Half, b),
        op is Rotate90CW ==> op.makes(a, b) == transform::turned(a, Turn::Right, b),
        op is Rotate90CCW ==> op.makes(a, b) == transform::turned(a, Turn::Left, b),
{
}

/// The pixel is the first of the selection in the image.
pub open spec fn is_corner(image: DecodedImage, region: Option<&PixelRect>, x: int, y: int) -> bool {
    &&& image.has(x, y, 0)
    &&& filter::selected(region, x, y)
    &&& x == 0 || !filter::selected(region, x - 1, y)
    &&& y == 0 || !filter::selected(region, x, y - 1)
}

/// Two selected pixels lie in one block, counted from the first pixel of the selection.
pub open spec fn in_one_block(
    corner: (int, int),
    block: int,
    p: (int, int),
    q: (int, int),
) -> bool {
    (p.0 - corner.0) / block == (q.0 - corner.0) / block && (p.1 - corner.1) / block == (q.1
        - corner.1) / block
}

proof fn corner_is_box(image: DecodedImage, region: Option<&PixelRect>, x: int, y: int)
    requires
        image.wf(),
        is_corner(image, region, x, y),
    ensures
        ({
            let bounds = filter::region_box(region, image.width as int, image.height as int);
            bounds.0 == x && bounds.1 == y
        }),
{
}

/// A mosaic shows each of its blocks in one colour.
pub proof fn mosaic_blocks_are_even(
    a: DecodedImage,
    region: Option<&PixelRect>,
    block: int,
    b: DecodedImage,
    corner: (int, int),
    p: (int, int),
    q: (int, int),
    c: int,
)
    requires
        a.wf(),
        1 <= block,
        blur::in_blocks(a, region, block, b),
        is_corner(a, region, corner.0, corner.1),
        a.has(p.0, p.1, c) && filter::selected(region, p.0, p.1),
        a.has(q.0, q.1, c) && filter::selected(region, q.0, q.1),
        c < 3,
        in_one_block(corner, block, p, q),
    ensures
        b.at(p.0, p.1, c) == b.at(q.0, q.1, c),
{
    corner_is_box(a, region, corner.0, corner.1);
    let bounds = filter::region_box(region, a.width as int, a.height as int);
    assert(b.at(p.0, p.1, c) == blur::mosaic_value(a, bounds, block, p.0, p.1, c));
    assert(b.at(q.0, q.1, c) == blur::mosaic_value(a, bounds, block, q.0, q.1, c));
}

/// The colours of the block that holds a pixel.
spec fn block_table(
    image: DecodedImage,
    bounds: (int, int, int, int),
    block: int,
    x: int,
    y: int,
    c: int,
) -> spec_fn(int, int) -> int {
    let (left, top) = (
        blur::block_start(x, bounds.0, block),
        blur::block_start(y, bounds.1, block),
    );
    |i: int, j: int| blur::near(image, left + i, top + j, c) as int
}

/// Every place of a block's table is a selected pixel of the block.
proof fn block_places(
    a: DecodedImage,
    region: Option<&PixelRect>,
    block: int,
    corner: (int, int),
    p: (int, int),
    i: int,
    j: int,
)
    requires
        a.wf(),
        1 <= block,
        is_corner(a, region, corner.0, corner.1),
        a.has(p.0, p.1, 0) && filter::selected(region, p.0, p.1),
        ({
            let bounds = filter::region_box(region, a.width as int, a.height as int);
            let left = blur::block_start(p.0, bounds.0, block);
            let top = blur::block_start(p.1, bounds.1, block);
            0 <= i < blur::block_len(left, bounds.2, block) && 0 <= j < blur::block_len(
                top,
                bounds.3,
                block,
            )
        }),
    ensures
        ({
            let q = (
                blur::block_start(p.0, corner.0, block) + i,
                blur::block_start(p.1, corner.1, block) + j,
            );
            &&& a.has(q.0, q.1, 0)
            &&& filter::selected(region, q.0, q.1)
            &&& in_one_block(corner, block, p, q)
        }),
{
    corner_is_box(a, region, corner.0, corner.1);
    let bounds = filter::region_box(region, a.width as int, a.height as int);
    assert(bounds.0 <= p.0 < bounds.2 && bounds.1 <= p.1 < bounds.3);
    let x = blur::block_start(p.0, bounds.0, block) + i;
    let y = blur::block_start(p.1, bounds.1, block) + j;
    filter::laws::block_holds(p.0, bounds.0, bounds.2, block, x);
    filter::laws::block_holds(p.1, bounds.1, bounds.3, block, y);
    let (m, n) = ((x - corner.0) / block, (p.0 - corner.0) / block);
    assert(m * block == n * block ==> m == n) by (nonlinear_arith)
        requires
            block >= 1,
    ;
    let (m2, n2) = ((y - corner.1) / block, (p.1 - corner.1) / block);
    assert(m2 * block == n2 * block ==> m2 == n2) by (nonlinear_arith)
        requires
            block >= 1,
    ;
}

/// The colour of a mosaic's block lies between the lowest and the highest in the block.
pub proof fn mosaic_stays_between(
    a: DecodedImage,
    region: Option<&PixelRect>,
    block: int,
    b: DecodedImage,
    corner: (int, int),
    p: (int, int),
    c: int,
    low: int,
    high: int,
)
    requires
        a.wf(),
        1 <= block,
        blur::in_blocks(a, region, block, b),
        is_corner(a, region, corner.0, corner.1),
        a.has(p.0, p.1, c) && filter::selected(region, p.0, p.1),
        c < 3,
        forall|x: int, y: int|
            a.has(x, y, c) && filter::selected(region, x, y) && in_one_block(
                corner,
                block,
                p,
                (x, y),
            ) ==> low <= #[trigger] a.at(x, y, c) <= high,
    ensures
        low <= b.at(p.0, p.1, c) <= high,
{
    corner_is_box(a, region, corner.0, corner.1);
    let bounds = filter::region_box(region, a.width as int, a.height as int);
    let (left, top) = (
        blur::block_start(p.0, bounds.0, block),
        blur::block_start(p.1, bounds.1, block),
    );
    let (cols, rows) = (
        blur::block_len(left, bounds.2, block),
        blur::block_len(top, bounds.3, block),
    );
    assert(bounds.0 <= p.0 < bounds.2 && bounds.1 <= p.1 < bounds.3);
    filter::laws::block_is_filled(p.0, bounds.0, bounds.2, block);
    filter::laws::block_is_filled(p.1, bounds.1, bounds.3, block);
    let f = block_table(a, bounds, block, p.0, p.1, c);
    assert forall|i: int, j: int| 0 <= i < cols && 0 <= j < rows implies low <= #[trigger] f(i, j)
        <= high by {
        block_places(a, region, block, corner, p, i, j);
        assert(f(i, j) == a.at(left + i, top + j, c));
    }
    assert(b.at(p.0, p.1, c) == blur::mosaic_value(a, bounds, block, p.0, p.1, c));
    let (m, n) = (cols as nat, rows as nat);
    area_is_sum(a, left, top, m, n, c);
    table_same(f, |i: int, j: int| blur::near(a, left + i, top + j, c) as int, m, n);
    let q = cols * rows;
    table_of_alike(m, n, low);
    table_of_alike(m, n, high);
    assert(f(0, 0) + 0 <= high);
    table_gains(|i: int, j: int| low, f, m, n, 0, 0, 0);
    table_gains(f, |i: int, j: int| high, m, n, 0, 0, 0);
    assert(q > 0) by (nonlinear_arith)
        requires
            cols > 0,
            rows > 0,
            q == cols * rows,
    ;
    let t = table_sum(f, m, n);
    vstd::arithmetic::div_mod::lemma_div_is_ordered(q * low, t, q);
    vstd::arithmetic::div_mod::lemma_div_is_ordered(t, q * high, q);
    assert(q * low == low * q && q * high == high * q) by (nonlinear_arith);
    vstd::arithmetic::div_mod::lemma_div_multiples_vanish(low, q);
    vstd::arithmetic::div_mod::lemma_div_multiples_vanish(high, q);
}

/// The colour of a mosaic's block follows every pixel of the block: where none of them is
/// lower in a second image, neither is the result, and where one is higher by `gain` times
/// the places of a block, the result is higher by `gain` at least.
pub proof fn mosaic_follows_its_block(
    a: DecodedImage,
    a2: DecodedImage,
    region: Option<&PixelRect>,
    block: int,
    b: DecodedImage,
    b2: DecodedImage,
    corner: (int, int),
    p: (int, int),
    q: (int, int),
    c: int,
    gain: int,
)
    requires
        a.wf(),
        a2.wf(),
        a2.width == a.width,
        a2.height == a.height,
        1 <= block,
        0 <= gain,
        blur::in_blocks(a, region, block, b),
        blur::in_blocks(a2, region, block, b2),
        is_corner(a, region, corner.0, corner.1),
        a.has(p.0, p.1, c) && filter::selected(region, p.0, p.1),
        a.has(q.0, q.1, c) && filter::selected(region, q.0, q.1),
        c < 3,
        in_one_block(corner, block, p, q),
        forall|x: int, y: int|
            a.has(x, y, c) && filter::selected(region, x, y) && in_one_block(
                corner,
                block,
                p,
                (x, y),
            ) ==> #[trigger] a.at(x, y, c) <= a2.at(x, y, c),
        a.at(q.0, q.1, c) + gain * (block * block) <= a2.at(q.0, q.1, c),
    ensures
        b.at(p.0, p.1, c) + gain <= b2.at(p.0, p.1, c),
{
    corner_is_box(a, region, corner.0, corner.1);
    let bounds = filter::region_box(region, a.width as int, a.height as int);
    let (left, top) = (
        blur::block_start(p.0, bounds.0, block),
        blur::block_start(p.1, bounds.1, block),
    );
    let (cols, rows) = (
        blur::block_len(left, bounds.2, block),
        blur::block_len(top, bounds.3, block),
    );
    assert(bounds.0 <= p.0 < bounds.2 && bounds.1 <= p.1 < bounds.3);
    assert(bounds.0 <= q.0 < bounds.2 && bounds.1 <= q.1 < bounds.3);
    filter::laws::block_is_filled(p.0, bounds.0, bounds.2, block);
    filter::laws::block_is_filled(p.1, bounds.1, bounds.3, block);
    let f = block_table(a, bounds, block, p.0, p.1, c);
    let g = block_table(a2, bounds, block, p.0, p.1, c);
    assert forall|i: int, j: int| 0 <= i < cols && 0 <= j < rows implies #[trigger] f(i, j) <= g(
        i,
        j,
    ) by {
        block_places(a, region, block, corner, p, i, j);
        assert(f(i, j) == a.at(left + i, top + j, c));
        assert(g(i, j) == a2.at(left + i, top + j, c));
    }
    assert(b.at(p.0, p.1, c) == blur::mosaic_value(a, bounds, block, p.0, p.1, c));
    assert(b2.at(p.0, p.1, c) == blur::mosaic_value(a2, bounds, block, p.0, p.1, c));
    let (m, n) = (cols as nat, rows as nat);
    area_is_sum(a, left, top, m, n, c);
    area_is_sum(a2, left, top, m, n, c);
    table_same(f, |i: int, j: int| blur::near(a, left + i, top + j, c) as int, m, n);
    table_same(g, |i: int, j: int| blur::near(a2, left + i, top + j, c) as int, m, n);
    let area = cols * rows;
    assert(0 < area <= block * block) by (nonlinear_arith)
        requires
            0 < cols <= block,
            0 < rows <= block,
            area == cols * rows,
    ;
    assert(gain * area <= gain * (block * block)) by (nonlinear_arith)
        requires
            0 <= gain,
            area <= block * block,
    ;
    let (i, j) = (q.0 - left, q.1 - top);
    vstd::arithmetic::div_mod::lemma_fundamental_div_mod(q.0 - bounds.0, block);
    vstd::arithmetic::div_mod::lemma_fundamental_div_mod(q.1 - bounds.1, block);
    vstd::arithmetic::div_mod::lemma_mod_bound(q.0 - bounds.0, block);
    vstd::arithmetic::div_mod::lemma_mod_bound(q.1 - bounds.1, block);
    let (u, v) = ((q.0 - bounds.0) / block, (q.1 - bounds.1) / block);
    assert(u * block == block * u && v * block == block * v) by (nonlinear_arith);
    assert(0 <= i < cols && 0 <= j < rows);
    assert(f(i, j) == a.at(q.0, q.1, c));
    assert(g(i, j) == a2.at(q.0, q.1, c));
    table_gains(f, g, m, n, i, j, gain * area);
    quotient_gains(table_sum(f, m, n), table_sum(g, m, n), area, gain);
}

} // verus!
