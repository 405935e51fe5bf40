//! Blurs, the median and the mosaic.

use vstd::prelude::*;

use crate::filter;
use crate::filter::{apply_to_region, region_bounds, PixelRule};
use crate::image;
use crate::image::DecodedImage;
use crate::selection;
use crate::selection::PixelRect;

verus! {

/// A channel of the pixel of the image that lies nearest to a place.
pub open spec fn near(image: DecodedImage, x: int, y: int, c: int) -> u8 {
    image.at(
        selection::clamp(x, 0, image.width - 1),
        selection::clamp(y, 0, image.height - 1),
        c,
    )
}

/// The sum of a channel over `cols` places of a row, from `x` on.
pub open spec fn row_sum(image: DecodedImage, x: int, y: int, cols: nat, c: int) -> int
    decreases cols,
{
    if cols == 0 {
        0
    } else {
        row_sum(image, x, y, (cols - 1) as nat, c) + near(image, x + cols - 1, y, c)
    }
}

/// The sum of a channel over an area whose first place is `(x, y)`.
pub open spec fn area_sum(
    image: DecodedImage,
    x: int,
    y: int,
    cols: nat,
    rows: nat,
    c: int,
) -> int
    decreases rows,
{
    if rows == 0 {
        0
    } else {
        area_sum(image, x, y, cols, (rows - 1) as nat, c) + row_sum(
            image,
            x,
            y + rows - 1,
            cols,
            c,
        )
    }
}

fn nearest(image: &DecodedImage, x: i64, y: i64, c: usize) -> (v: u8)
    requires
        image.wf(),
        image.width > 0,
        image.height > 0,
        c < 4,
    ensures
        v == near(*image, x as int, y as int, c as int),
{
    let w: i64 = image.width as i64;
    let h: i64 = image.height as i64;
    let nx: i64 = if x < 0 {
        0
    } else if x > w - 1 {
        w - 1
    } else {
        x
    };
    let ny: i64 = if y < 0 {
        0
    } else if y > h - 1 {
        h - 1
    } else {
        y
    };
    image.get(nx as usize, ny as usize, c)
}

proof fn row_sum_bound(image: DecodedImage, x: int, y: int, cols: nat, c: int)
    ensures
        0 <= row_sum(image, x, y, cols, c) <= 255 * cols,
    decreases cols,
{
    if cols > 0 {
        row_sum_bound(image, x, y, (cols - 1) as nat, c);
    }
}

proof fn area_sum_bound(image: DecodedImage, x: int, y: int, cols: nat, rows: nat, c: int)
    ensures
        0 <= area_sum(image, x, y, cols, rows, c) <= 255 * (cols * rows),
    decreases rows,
{
    if rows > 0 {
        area_sum_bound(image, x, y, cols, (rows - 1) as nat, c);
        row_sum_bound(image, x, y + rows - 1, cols, c);
        assert(cols * rows == cols * (rows - 1) + cols) by (nonlinear_arith);
    } else {
        assert(cols * rows == 0) by (nonlinear_arith)
            requires
                rows == 0,
        ;
    }
}

/// The mean of values up to 255 is up to 255.
proof fn mean_is_byte(sum: int, count: int)
    requires
        0 <= sum <= 255 * count,
        0 < count,
    ensures
        0 <= sum / count <= 255,
{
    assert(0 <= sum / count <= 255) by (nonlinear_arith)
        requires
            0 <= sum <= 255 * count,
            0 < count,
    ;
}

/// The largest extent of an area.
pub const MAX_SIDE: u64 = 0x1_0000_0000;

fn area_total(image: &DecodedImage, x: i64, y: i64, cols: u64, rows: u64, c: usize) -> (r: u128)
    requires
        image.wf(),
        image.width > 0,
        image.height > 0,
        c < 4,
        -MAX_SIDE <= x <= MAX_SIDE,
        -MAX_SIDE <= y <= MAX_SIDE,
        cols <= MAX_SIDE,
        rows <= MAX_SIDE,
    ensures
        r == area_sum(*image, x as int, y as int, cols as nat, rows as nat, c as int),
{
    let mut total: u128 = 0;
    let mut j: u64 = 0;
    while j < rows
        invariant
            j <= rows <= MAX_SIDE,
            image.wf(),
            image.width > 0,
            image.height > 0,
            c < 4,
            -MAX_SIDE <= x <= MAX_SIDE,
            -MAX_SIDE <= y <= MAX_SIDE,
            cols <= MAX_SIDE,
            total == area_sum(*image, x as int, y as int, cols as nat, j as nat, c as int),
        decreases rows - j,
    {
        proof {
            area_sum_bound(*image, x as int, y as int, cols as nat, j as nat, c as int);
            assert(cols * j <= MAX_SIDE * MAX_SIDE) by (nonlinear_arith)
                requires
                    0 <= cols <= MAX_SIDE,
                    0 <= j <= MAX_SIDE,
            ;
            assert(MAX_SIDE * MAX_SIDE == 0x1_0000_0000_0000_0000) by (nonlinear_arith);
        }
        let mut line: u128 = 0;
        let mut i: u64 = 0;
        while i < cols
            invariant
                i <= cols <= MAX_SIDE,
                j < rows <= MAX_SIDE,
                image.wf(),
                image.width > 0,
                image.height > 0,
                c < 4,
                -MAX_SIDE <= x <= MAX_SIDE,
                -MAX_SIDE <= y <= MAX_SIDE,
                line == row_sum(*image, x as int, y + j, i as nat, c as int),
            decreases cols - i,
        {
            proof {
                row_sum_bound(*image, x as int, y + j, i as nat, c as int);
            }
            line = line + nearest(image, x + i as i64, y + j as i64, c) as u128;
            i = i + 1;
        }
        proof {
            row_sum_bound(*image, x as int, y + j, cols as nat, c as int);
        }
        total = total + line;
        j = j + 1;
    }
    total
}

/// The mean over the square of `2 * radius + 1` places around a pixel, for each
/// colour; alpha stays. Places outside the image count as its nearest pixel.
pub struct BoxMean {
    pub radius: i32,
}

/// The number of places on each side of the square.
pub open spec fn side(radius: int) -> nat {
    if radius < 0 {
        0
    } else {
        (2 * radius + 1) as nat
    }
}

impl PixelRule for BoxMean {
    open spec fn suits(&self, image: DecodedImage) -> bool {
        true
    }

    open spec fn yields(&self, image: DecodedImage, x: int, y: int, c: int, v: u8) -> bool {
        let r = self.radius as int;
        v == (if c == 3 {
            image.at(x, y, 3) as int
        } else {
            area_sum(image, x - r, y - r, side(r), side(r), c) / ((2 * r + 1) * (2 * r + 1))
        })
    }

    fn value(&self, image: &DecodedImage, x: usize, y: usize, c: usize) -> (v: u8) {
        if c == 3 {
            return image.get(x, y, 3);
        }
        let r: i64 = self.radius as i64;
        let n: i64 = 2 * r + 1;
        let places: u64 = if r < 0 {
            0
        } else {
            n as u64
        };
        let sum: u128 = if r < 0 {
            0
        } else {
            area_total(image, x as i64 - r, y as i64 - r, places, places, c)
        };
        proof {
            area_sum_bound(*image, x - r, y - r, places as nat, places as nat, c as int);
            assert(0 < n * n <= 0x1_0000_0000 * 0x1_0000_0000) by (nonlinear_arith)
                requires
                    n != 0,
                    -0x1_0000_0000 <= n <= 0x1_0000_0000,
            ;
            assert(r >= 0 ==> places * places == n * n);
            mean_is_byte(sum as int, n * n);
        }
        let square: i128 = n as i128 * n as i128;
        (sum / square as u128) as u8
    }
}

/// Blurs the selection by the mean over squares of the given radius.
pub fn box_blur(image: &DecodedImage, region: Option<&PixelRect>, radius: i32) -> (r: DecodedImage)
    requires
        image.wf(),
    ensures
        filter::filtered(*image, region, (BoxMean { radius }), r),
{
    apply_to_region(image, region, &BoxMean { radius })
}

/// Blurs over squares of three places a side.
pub fn blur(image: &DecodedImage, region: Option<&PixelRect>) -> (r: DecodedImage)
    requires
        image.wf(),
    ensures
        filter::filtered(*image, region, (BoxMean { radius: 1 }), r),
{
    box_blur(image, region, 1)
}

/// Blurs over squares of five places a side.
pub fn blur_strong(image: &DecodedImage, region: Option<&PixelRect>) -> (r: DecodedImage)
    requires
        image.wf(),
    ensures
        filter::filtered(*image, region, (BoxMean { radius: 2 }), r),
{
    box_blur(image, region, 2)
}

/// The nine values of a channel around a pixel, row by row.
pub open spec fn nine_around(image: DecodedImage, x: int, y: int, c: int) -> Seq<u8> {
    Seq::new(9, |i: int| near(image, x + i % 3 - 1, y + i / 3 - 1, c))
}

/// How many of the first `n` values are at most `v`.
pub open spec fn count_up_to(values: Seq<u8>, v: int, n: nat) -> nat
    decreases n,
{
    if n == 0 {
        0
    } else {
        count_up_to(values, v, (n - 1) as nat) + if values[n - 1] <= v {
            1nat
        } else {
            0nat
        }
    }
}

/// The value in the middle of nine: at least five are not above it, at most four
/// are below it.
pub open spec fn is_middle(values: Seq<u8>, v: int) -> bool {
    count_up_to(values, v, 9) >= 5 && count_up_to(values, v - 1, 9) <= 4
}

proof fn count_bound(values: Seq<u8>, v: int, n: nat)
    ensures
        count_up_to(values, v, n) <= n,
        v < 0 ==> count_up_to(values, v, n) == 0,
        v >= 255 ==> count_up_to(values, v, n) == n,
    decreases n,
{
    if n > 0 {
        count_bound(values, v, (n - 1) as nat);
    }
}

/// A count that grows from one value to the next has met the next.
proof fn count_grows(values: Seq<u8>, v: int, n: nat)
    requires
        n <= values.len(),
        count_up_to(values, v, n) > count_up_to(values, v - 1, n),
    ensures
        exists|i: int| 0 <= i < n && #[trigger] values[i] == v,
    decreases n,
{
    if values[n - 1] != v {
        count_grows(values, v, (n - 1) as nat);
    }
}

proof fn middle_from(values: Seq<u8>, v: int)
    requires
        values.len() == 9,
        count_up_to(values, v, 9) >= 5,
    ensures
        exists|i: int| 0 <= i < 9 && is_middle(values, #[trigger] values[i] as int),
    decreases v + 1,
{
    count_bound(values, v, 9);
    if count_up_to(values, v - 1, 9) <= 4 {
        count_grows(values, v, 9);
        let i = choose|i: int| 0 <= i < 9 && #[trigger] values[i] == v;
        assert(is_middle(values, values[i] as int));
    } else {
        middle_from(values, v - 1);
    }
}

/// No two numbers are in the middle.
pub proof fn middle_is_one(values: Seq<u8>, a: int, b: int)
    requires
        is_middle(values, a),
        is_middle(values, b),
    ensures
        a == b,
{
    if a < b {
        count_monotone(values, a, b - 1, 9);
    } else if b < a {
        count_monotone(values, b, a - 1, 9);
    }
}

proof fn count_monotone(values: Seq<u8>, a: int, b: int, n: nat)
    requires
        a <= b,
    ensures
        count_up_to(values, a, n) <= count_up_to(values, b, n),
    decreases n,
{
    if n > 0 {
        count_monotone(values, a, b, (n - 1) as nat);
    }
}

fn counted(values: &Vec<u8>, v: i32) -> (r: usize)
    requires
        values@.len() == 9,
    ensures
        r == count_up_to(values@, v as int, 9),
{
    let mut n: usize = 0;
    let mut i: usize = 0;
    while i < 9
        invariant
            n <= i <= 9,
            values@.len() == 9,
            n == count_up_to(values@, v as int, i as nat),
        decreases 9 - i,
    {
        if values[i] as i32 <= v {
            n = n + 1;
        }
        i = i + 1;
    }
    n
}

/// The middle of the nine values around a pixel, for each colour; alpha stays.
pub struct Middle;

impl PixelRule for Middle {
    open spec fn suits(&self, image: DecodedImage) -> bool {
        true
    }

    open spec fn yields(&self, image: DecodedImage, x: int, y: int, c: int, v: u8) -> bool {
        if c == 3 {
            v == image.at(x, y, 3)
        } else {
            is_middle(nine_around(image, x, y, c), v as int)
        }
    }

    fn value(&self, image: &DecodedImage, x: usize, y: usize, c: usize) -> (v: u8) {
        if c == 3 {
            return image.get(x, y, 3);
        }
        let mut values: Vec<u8> = Vec::new();
        let mut k: usize = 0;
        while k < 9
            invariant
                k <= 9,
                image.wf(),
                image.has(x as int, y as int, c as int),
                values@ == nine_around(*image, x as int, y as int, c as int).take(k as int),
            decreases 9 - k,
        {
            let v: u8 = nearest(
                image,
                x as i64 + (k % 3) as i64 - 1,
                y as i64 + (k / 3) as i64 - 1,
                c,
            );
            values.push(v);
            k = k + 1;
            assert(values@ =~= nine_around(*image, x as int, y as int, c as int).take(k as int));
        }
        assert(values@ =~= nine_around(*image, x as int, y as int, c as int));
        proof {
            count_bound(values@, 255, 9);
            middle_from(values@, 255);
        }
        let mut i: usize = 0;
        while i < 8
            invariant
                i <= 8,
                values@.len() == 9,
                values@ == nine_around(*image, x as int, y as int, c as int),
                exists|j: int| i <= j < 9 && is_middle(values@, #[trigger] values@[j] as int),
                c != 3,
            decreases 8 - i,
        {
            let v: u8 = values[i];
            if counted(&values, v as i32) >= 5 && counted(&values, v as i32 - 1) <= 4 {
                return v;
            }
            i = i + 1;
        }
        values[8]
    }
}

/// Puts each selected colour in the middle of those around it.
pub fn median_filter(image: &DecodedImage, region: Option<&PixelRect>) -> (r: DecodedImage)
    requires
        image.wf(),
    ensures
        filter::filtered(*image, region, Middle, r),
{
    apply_to_region(image, region, &Middle)
}

/// Where the block that holds a place begins, in steps of `block` from `start`.
pub open spec fn block_start(place: int, start: int, block: int) -> int {
    start + ((place - start) / block) * block
}

/// The length of a block, which ends at `end` at the latest.
pub open spec fn block_len(at: int, end: int, block: int) -> int {
    if at + block <= end {
        block
    } else {
        end - at
    }
}

/// The mean of a channel over the block that begins at `(x, y)`.
pub open spec fn block_mean(
    image: DecodedImage,
    x: int,
    y: int,
    x1: int,
    y1: int,
    block: int,
    c: int,
) -> int {
    let cols = block_len(x, x1, block);
    let rows = block_len(y, y1, block);
    area_sum(image, x, y, cols as nat, rows as nat, c) / (cols * rows)
}

/// The blocks of a selection and the means of their colours, row by row.
pub struct Blocks {
    pub x0: usize,
    pub y0: usize,
    pub x1: usize,
    pub y1: usize,
    pub block: usize,
    pub across: usize,
    pub down: usize,
    pub means: Vec<u8>,
}

/// The mean over the block that holds the pixel, for each colour; alpha stays.
/// The blocks are counted from the first pixel of the selection.
pub open spec fn mosaic_value(
    image: DecodedImage,
    bounds: (int, int, int, int),
    block: int,
    x: int,
    y: int,
    c: int,
) -> int {
    if c == 3 {
        image.at(x, y, 3) as int
    } else {
        block_mean(
            image,
            block_start(x, bounds.0, block),
            block_start(y, bounds.1, block),
            bounds.2,
            bounds.3,
            block,
            c,
        )
    }
}

impl Blocks {
    /// The place in the table of a block's mean.
    pub open spec fn slot(&self, i: int, j: int, c: int) -> int {
        (j * self.across + i) * 3 + c
    }

    pub open spec fn filled(&self, image: DecodedImage) -> bool {
        &&& self.means@.len() == self.across * self.down * 3
        &&& forall|i: int, j: int, c: int|
            0 <= i < self.across && 0 <= j < self.down && 0 <= c < 3
                ==> #[trigger] self.means@[self.slot(i, j, c)] == block_mean(
                image,
                self.x0 + i * self.block,
                self.y0 + j * self.block,
                self.x1 as int,
                self.y1 as int,
                self.block as int,
                c,
            )
    }
}

impl PixelRule for Blocks {
    open spec fn suits(&self, image: DecodedImage) -> bool {
        &&& self.block > 0
        &&& self.x0 <= self.x1
        &&& self.y0 <= self.y1
        &&& self.across * self.block >= self.x1 - self.x0
        &&& self.down * self.block >= self.y1 - self.y0
        &&& self.filled(image)
    }

    open spec fn yields(&self, image: DecodedImage, x: int, y: int, c: int, v: u8) -> bool {
        self.x0 <= x < self.x1 && self.y0 <= y < self.y1 ==> v == mosaic_value(
            image,
            (self.x0 as int, self.y0 as int, self.x1 as int, self.y1 as int),
            self.block as int,
            x,
            y,
            c,
        )
    }

    fn value(&self, image: &DecodedImage, x: usize, y: usize, c: usize) -> (v: u8) {
        if c == 3 || x < self.x0 || x >= self.x1 || y < self.y0 || y >= self.y1 {
            return image.get(x, y, c);
        }
        let i: usize = (x - self.x0) / self.block;
        let j: usize = (y - self.y0) / self.block;
        proof {
            quotient_below(x - self.x0, self.block as int, self.across as int);
            quotient_below(y - self.y0, self.block as int, self.down as int);
            slot_in_range(self.across as int, self.down as int, i as int, j as int, c as int);
            assert(self.means.len() == self.means@.len());
            assert(self.means@[self.slot(i as int, j as int, c as int)] == block_mean(
                *image,
                self.x0 + i * self.block,
                self.y0 + j * self.block,
                self.x1 as int,
                self.y1 as int,
                self.block as int,
                c as int,
            ));
        }
        self.means[(j * self.across + i) * 3 + c]
    }
}

proof fn quotient_below(n: int, d: int, count: int)
    requires
        0 <= n < count * d,
        0 < d,
    ensures
        0 <= n / d < count,
{
    assert(0 <= n / d < count) by (nonlinear_arith)
        requires
            0 <= n < count * d,
            0 < d,
    ;
}

proof fn slot_in_range(across: int, down: int, i: int, j: int, c: int)
    requires
        0 <= i < across,
        0 <= j < down,
        0 <= c < 3,
    ensures
        0 <= j * across,
        0 <= j * across + i < across * down,
        0 <= (j * across + i) * 3 + c < across * down * 3,
{
    assert(0 <= j * across && j * across + i < across * down) by (nonlinear_arith)
        requires
            0 <= i < across,
            0 <= j < down,
    ;
}

/// The number of blocks that cover a length.
fn blocks_over(len: usize, block: usize) -> (n: usize)
    requires
        0 < block,
        len <= i32::MAX,
    ensures
        n * block >= len,
        n <= len,
        n > 0 ==> (n - 1) * block < len,
{
    let q: usize = len / block;
    let rest: usize = len % block;
    proof {
        vstd::arithmetic::div_mod::lemma_fundamental_div_mod(len as int, block as int);
        assert(block * q == q * block) by (nonlinear_arith);
        assert((q + 1) * block == q * block + block && (q - 1) * block == q * block - block)
            by (nonlinear_arith);
        assert(q <= q * block) by (nonlinear_arith)
            requires
                block >= 1,
                q >= 0,
        ;
    }
    if rest == 0 {
        q
    } else {
        q + 1
    }
}

/// The means of the blocks of a selection.
#[verifier::rlimit(40)]
fn measure_blocks(
    image: &DecodedImage,
    x0: usize,
    y0: usize,
    x1: usize,
    y1: usize,
    block: usize,
) -> (r: Blocks)
    requires
        image.wf(),
        x0 <= x1 <= image.width,
        y0 <= y1 <= image.height,
        0 < block <= u32::MAX,
    ensures
        r.suits(*image),
        r.x0 == x0,
        r.y0 == y0,
        r.x1 == x1,
        r.y1 == y1,
        r.block == block,
{
    let across: usize = blocks_over(x1 - x0, block);
    let down: usize = blocks_over(y1 - y0, block);
    let mut r = Blocks { x0, y0, x1, y1, block, across, down, means: Vec::new() };
    let mut j: usize = 0;
    assert(0 * across * 3 == 0);
    while j < down
        invariant
            image.wf(),
            x0 <= x1 <= image.width,
            y0 <= y1 <= image.height,
            0 < block <= u32::MAX,
            j <= down,
            across * block >= x1 - x0,
            across > 0 ==> (across - 1) * block < x1 - x0,
            down * block >= y1 - y0,
            down > 0 ==> (down - 1) * block < y1 - y0,
            r.x0 == x0,
            r.y0 == y0,
            r.x1 == x1,
            r.y1 == y1,
            r.block == block,
            r.across == across,
            r.down == down,
            r.means@.len() == j * across * 3,
            forall|a: int, b: int, c: int|
                0 <= a < across && 0 <= b < j && 0 <= c < 3 ==> #[trigger] r.means@[r.slot(
                    a,
                    b,
                    c,
                )] == block_mean(
                    *image,
                    x0 + a * block,
                    y0 + b * block,
                    x1 as int,
                    y1 as int,
                    block as int,
                    c,
                ),
        decreases down - j,
    {
        let mut i: usize = 0;
        proof {
            assert(j * block <= (down - 1) * block) by (nonlinear_arith)
                requires
                    0 <= j <= down - 1,
                    block > 0,
            ;
        }
        let y: usize = y0 + j * block;
        let rows: usize = if block <= y1 - y {
            block
        } else {
            y1 - y
        };
        while i < across
            invariant
                image.wf(),
                x0 <= x1 <= image.width,
                y0 <= y1 <= image.height,
                0 < block <= u32::MAX,
                j < down,
                i <= across,
                y == y0 + j * block,
                y < y1,
                rows == block_len(y as int, y1 as int, block as int),
                across > 0 ==> (across - 1) * block < x1 - x0,
                r.x0 == x0,
                r.y0 == y0,
                r.x1 == x1,
                r.y1 == y1,
                r.block == block,
                r.across == across,
                r.down == down,
                r.means@.len() == (j * across + i) * 3,
                forall|a: int, b: int, c: int|
                    0 <= a < across && 0 <= b <= j && 0 <= c < 3 && (b < j || a < i)
                        ==> #[trigger] r.means@[r.slot(a, b, c)] == block_mean(
                        *image,
                        x0 + a * block,
                        y0 + b * block,
                        x1 as int,
                        y1 as int,
                        block as int,
                        c,
                    ),
            decreases across - i,
        {
            proof {
                assert(i * block <= (across - 1) * block) by (nonlinear_arith)
                    requires
                        0 <= i <= across - 1,
                        block > 0,
                ;
            }
            let x: usize = x0 + i * block;
            let cols: usize = if block <= x1 - x {
                block
            } else {
                x1 - x
            };
            let ghost start = r;
            let ghost done = r.means@;
            let mut c: usize = 0;
            while c < 3
                invariant
                    image.wf(),
                    x1 <= image.width,
                    y1 <= image.height,
                    c <= 3,
                    x == x0 + i * block,
                    y == y0 + j * block,
                    x < x1,
                    y < y1,
                    0 < block,
                    rows == block_len(y as int, y1 as int, block as int),
                    cols == block_len(x as int, x1 as int, block as int),
                    r.x0 == x0,
                    r.y0 == y0,
                    r.x1 == x1,
                    r.y1 == y1,
                    r.block == block,
                    r.across == across,
                    r.down == down,
                    r.means@.len() == done.len() + c,
                    r.means@.take(done.len() as int) == done,
                    forall|k: int|
                        0 <= k < c ==> #[trigger] r.means@[done.len() + k] == block_mean(
                            *image,
                            x as int,
                            y as int,
                            x1 as int,
                            y1 as int,
                            block as int,
                            k,
                        ),
                decreases 3 - c,
            {
                let ghost before = r.means@;
                let sum: u128 = area_total(
                    image,
                    x as i64,
                    y as i64,
                    cols as u64,
                    rows as u64,
                    c,
                );
                proof {
                    area_sum_bound(
                        *image,
                        x as int,
                        y as int,
                        cols as nat,
                        rows as nat,
                        c as int,
                    );
                    assert(0 < cols * rows <= 0x8000_0000 * 0x8000_0000) by (nonlinear_arith)
                        requires
                            0 < cols <= 0x8000_0000,
                            0 < rows <= 0x8000_0000,
                    ;
                    mean_is_byte(sum as int, cols * rows);
                }
                let mean: u8 = (sum / (cols as u128 * rows as u128)) as u8;
                r.means.push(mean);
                proof {
                    assert(r.means@.take(done.len() as int) =~= before.take(done.len() as int));
                }
                c = c + 1;
            }
            proof {
                assert forall|a: int, b: int, c: int|
                    0 <= a < across && 0 <= b <= j && 0 <= c < 3 && (b < j || a < i
                        + 1) implies #[trigger] r.means@[r.slot(a, b, c)] == block_mean(
                    *image,
                    x0 + a * block,
                    y0 + b * block,
                    x1 as int,
                    y1 as int,
                    block as int,
                    c,
                ) by {
                    if b < j || a < i {
                        assert(b * across + a < j * across + i) by (nonlinear_arith)
                            requires
                                0 <= a < across,
                                0 <= b <= j,
                                b < j || a < i,
                                0 <= i,
                        ;
                        slot_in_range(across as int, down as int, a, b, c);
                        let s = r.slot(a, b, c);
                        assert(s == start.slot(a, b, c));
                        assert(start.means@[start.slot(a, b, c)] == block_mean(
                            *image,
                            x0 + a * block,
                            y0 + b * block,
                            x1 as int,
                            y1 as int,
                            block as int,
                            c,
                        ));
                        assert(done[s] == r.means@.take(done.len() as int)[s]);
                    } else {
                        assert(a == i && b == j);
                        assert(r.slot(a, b, c) == done.len() + c);
                        assert(r.means@[done.len() + c] == block_mean(
                            *image,
                            x as int,
                            y as int,
                            x1 as int,
                            y1 as int,
                            block as int,
                            c,
                        ));
                    }
                }
            }
            i = i + 1;
        }
        assert((j + 1) * across == j * across + across) by (nonlinear_arith);
        j = j + 1;
    }
    assert(down * across * 3 == across * down * 3) by (nonlinear_arith);
    r
}

/// The selection shows blocks of one colour: the mean of each block. A block of
/// zero places counts as one of one place.
pub open spec fn in_blocks(
    image: DecodedImage,
    region: Option<&PixelRect>,
    block_size: int,
    result: DecodedImage,
) -> bool {
    let bounds = filter::region_box(region, image.width as int, image.height as int);
    let block = if block_size < 1 {
        1
    } else {
        block_size
    };
    &&& result.wf()
    &&& result.width == image.width
    &&& result.height == image.height
    &&& forall|x: int, y: int, c: int|
        image.has(x, y, c) ==> #[trigger] result.at(x, y, c) == (if filter::selected(
            region,
            x,
            y,
        ) {
            mosaic_value(image, bounds, block, x, y, c)
        } else {
            image.at(x, y, c) as int
        })
}

/// Shows the selection in blocks of one colour.
pub fn mosaic(image: &DecodedImage, region: Option<&PixelRect>, block_size: u32) -> (
    r: DecodedImage)
    requires
        image.wf(),
    ensures
        in_blocks(*image, region, block_size as int, r),
{
    let block: usize = if block_size < 1 {
        1
    } else {
        block_size as usize
    };
    let (x0, y0, x1, y1) = region_bounds(region, image.width, image.height);
    let rule = measure_blocks(
        image,
        x0 as usize,
        y0 as usize,
        x1 as usize,
        y1 as usize,
        block,
    );
    let r = apply_to_region(image, region, &rule);
    proof {
        assert forall|x: int, y: int, c: int| image.has(x, y, c) implies #[trigger] r.at(x, y, c)
            == (if filter::selected(region, x, y) {
            mosaic_value(
                *image,
                filter::region_box(region, image.width as int, image.height as int),
                block as int,
                x,
                y,
                c,
            )
        } else {
            image.at(x, y, c) as int
        }) by {
            if filter::selected(region, x, y) {
                assert(rule.yields(*image, x, y, c, r.at(x, y, c)));
            }
        }
    }
    r
}

/// Two box blurs, one after the other.
pub open spec fn twice_blurred(
    image: DecodedImage,
    region: Option<&PixelRect>,
    radius: i32,
    result: DecodedImage,
) -> bool {
    exists|a: DecodedImage| #[trigger]
        filter::filtered(image, region, (BoxMean { radius }), a) && filter::filtered(
            a,
            region,
            (BoxMean { radius }),
            result,
        )
}

/// The radius of the box blurs: one at least.
pub open spec fn box_radius(radius: i32) -> i32 {
    if radius < 1 {
        1
    } else {
        radius
    }
}

/// An approximate Gaussian blur: two box blurs of the radius, which is one at
/// least.
pub fn gaussian_blur(image: &DecodedImage, region: Option<&PixelRect>, radius: i32) -> (
    r: DecodedImage)
    requires
        image.wf(),
    ensures
        twice_blurred(*image, region, box_radius(radius), r),
        r.wf(),
        r.width == image.width,
        r.height == image.height,
{
    let n: i32 = if radius < 1 {
        1
    } else {
        radius
    };
    let a = box_blur(image, region, n);
    box_blur(&a, region, n)
}

/// A colour moved away from its blurred value by their difference; alpha stays.
pub struct Unsharp {
    pub blurred: DecodedImage,
}

impl PixelRule for Unsharp {
    open spec fn suits(&self, image: DecodedImage) -> bool {
        self.blurred.wf() && self.blurred.width == image.width && self.blurred.height
            == image.height
    }

    open spec fn yields(&self, image: DecodedImage, x: int, y: int, c: int, v: u8) -> bool {
        v == (if c == 3 {
            image.at(x, y, 3) as int
        } else {
            selection::clamp(2 * image.at(x, y, c) - self.blurred.at(x, y, c), 0, 255)
        })
    }

    fn value(&self, image: &DecodedImage, x: usize, y: usize, c: usize) -> (v: u8) {
        if c == 3 {
            return image.get(x, y, 3);
        }
        let a: i32 = image.get(x, y, c) as i32;
        let b: i32 = self.blurred.get(x, y, c) as i32;
        let v: i32 = a + (a - b);
        if v < 0 {
            0
        } else if v > 255 {
            255
        } else {
            v as u8
        }
    }
}

/// Sharpens the selection by its difference from a Gaussian blur.
pub fn unsharp_mask(image: &DecodedImage, region: Option<&PixelRect>, radius: i32) -> (
    r: DecodedImage)
    requires
        image.wf(),
    ensures
        exists|blurred: DecodedImage| #[trigger]
            twice_blurred(*image, region, box_radius(radius), blurred) && filter::filtered(
                *image,
                region,
                (Unsharp { blurred }),
                r,
            ),
{
    let blurred = gaussian_blur(image, region, radius);
    let rule = Unsharp { blurred };
    apply_to_region(image, region, &rule)
}

} // verus!
