//! Decoded images and the decoders that make them.

pub mod exif_reader;
pub mod susie;

use vstd::prelude::*;

use crate::text::join2;

verus! {

/// A decoded image: four bytes for each pixel, row by row.
pub struct DecodedImage {
    pub data: Vec<u8>,
    pub width: u32,
    pub height: u32,
}

/// Where a channel of a pixel lies in an image's data.
pub open spec fn offset(width: int, x: int, y: int, c: int) -> int {
    (y * width + x) * 4 + c
}

/// A pixel's channel lies in the data.
pub proof fn offset_in_range(width: int, height: int, x: int, y: int, c: int)
    requires
        0 <= x < width,
        0 <= y < height,
        0 <= c < 4,
    ensures
        0 <= y * width + x < width * height,
        0 <= offset(width, x, y, c) < width * height * 4,
        0 <= y * width,
{
    assert(0 <= y * width && y * width + x < width * height) by (nonlinear_arith)
        requires
            0 <= x < width,
            0 <= y < height,
    ;
}

/// A place in the data belongs to one channel of one pixel.
pub proof fn offset_decodes(width: int, x: int, y: int, c: int)
    requires
        0 <= x < width,
        0 <= y,
        0 <= c < 4,
    ensures
        offset(width, x, y, c) % 4 == c,
        (offset(width, x, y, c) / 4) % width == x,
        (offset(width, x, y, c) / 4) / width == y,
{
    let p = y * width + x;
    let i = offset(width, x, y, c);
    assert(0 <= p) by (nonlinear_arith)
        requires
            p == y * width + x,
            0 <= y,
            0 <= x < width,
    ;
    vstd::arithmetic::div_mod::lemma_fundamental_div_mod_converse(i, 4, p, c);
    vstd::arithmetic::div_mod::lemma_fundamental_div_mod_converse(p, width, y, x);
}

impl DecodedImage {
    /// The data holds the pixels of the size; coordinates are `i32`.
    pub open spec fn wf(&self) -> bool {
        &&& self.data@.len() == self.width * self.height * 4
        &&& self.width <= i32::MAX
        &&& self.height <= i32::MAX
    }

    /// A channel of a pixel: red, green, blue, alpha.
    pub open spec fn at(&self, x: int, y: int, c: int) -> u8 {
        self.data@[offset(self.width as int, x, y, c)]
    }

    /// The pixel lies in the image and has the channel.
    pub open spec fn has(&self, x: int, y: int, c: int) -> bool {
        0 <= x < self.width && 0 <= y < self.height && 0 <= c < 4
    }

    /// A channel of a pixel.
    pub fn get(&self, x: usize, y: usize, c: usize) -> (v: u8)
        requires
            self.wf(),
            self.has(x as int, y as int, c as int),
        ensures
            v == self.at(x as int, y as int, c as int),
    {
        proof {
            offset_in_range(
                self.width as int,
                self.height as int,
                x as int,
                y as int,
                c as int,
            );
            assert(self.data.len() == self.data@.len());
        }
        self.data[(y * self.width as usize + x) * 4 + c]
    }

    /// The bytes that the image's data takes.
    pub fn memory_size(&self) -> (r: usize)
        ensures
            r == self.data@.len(),
    {
        self.data.len()
    }

    /// The same image once more.
    pub fn duplicate(&self) -> (r: DecodedImage)
        ensures
            same_image(*self, r),
    {
        let mut data: Vec<u8> = Vec::new();
        let mut i: usize = 0;
        while i < self.data.len()
            invariant
                i <= self.data@.len(),
                data@ == self.data@.take(i as int),
            decreases self.data.len() - i,
        {
            data.push(self.data[i]);
            assert(self.data@.take(i + 1) =~= self.data@.take(i as int).push(
                self.data@[i as int],
            ));
            i = i + 1;
        }
        assert(self.data@.take(self.data@.len() as int) =~= self.data@);
        DecodedImage { data, width: self.width, height: self.height }
    }
}

/// Two images have the same size and the same pixels.
pub open spec fn same_image(a: DecodedImage, b: DecodedImage) -> bool {
    a.width == b.width && a.height == b.height && a.data@ == b.data@
}

/// Images of one size that agree at every pixel are the same.
pub proof fn pixels_decide(a: DecodedImage, b: DecodedImage)
    requires
        a.wf(),
        b.wf(),
        a.width == b.width,
        a.height == b.height,
        forall|x: int, y: int, c: int| #[trigger] a.has(x, y, c) ==> a.at(x, y, c) == b.at(x, y, c),
    ensures
        same_image(a, b),
{
    let w = a.width as int;
    let h = a.height as int;
    assert forall|i: int| 0 <= i < a.data@.len() implies a.data@[i] == b.data@[i] by {
        let p = i / 4;
        let c = i % 4;
        assert(w > 0 && 0 <= p < w * h) by (nonlinear_arith)
            requires
                0 <= i < w * h * 4,
                p == i / 4,
                w >= 0,
                h >= 0,
        ;
        let x = p % w;
        let y = p / w;
        vstd::arithmetic::div_mod::lemma_fundamental_div_mod(p, w);
        assert(0 <= y < h) by (nonlinear_arith)
            requires
                p == w * y + x,
                0 <= x < w,
                0 <= p < w * h,
        ;
        assert(w * y == y * w) by (nonlinear_arith);
        assert(a.has(x, y, c));
    }
    assert(a.data@ =~= b.data@);
}

/// What is known of an image without its pixels.
#[derive(Debug)]
pub struct ImageMetadata {
    pub width: u32,
    pub height: u32,
    pub format: String,
    pub comments: Vec<String>,
    /// Names and values of the camera's notes.
    pub exif: Vec<(String, String)>,
}

/// Why an image could not be decoded.
#[derive(Debug)]
pub struct DecodeError {
    pub message: String,
}

/// A decoder of one or more image formats.
pub trait ImageDecoder {
    /// The extensions of the formats, in lower case with their dots.
    fn supported_extensions(&self) -> Vec<String>;

    /// Whether the bytes are of one of the formats.
    fn can_decode(&self, data: &[u8], filename_hint: &str) -> bool;

    fn decode(&self, data: &[u8], filename_hint: &str) -> Result<DecodedImage, DecodeError>;

    fn metadata(&self, data: &[u8], filename_hint: &str) -> Result<ImageMetadata, DecodeError>;
}

/// Decoders that are tried one after the other.
pub struct DecoderChain<D: ImageDecoder> {
    pub decoders: Vec<D>,
}

/// The message where no decoder takes the bytes.
pub open spec fn no_decoder(filename_hint: Seq<char>) -> Seq<char> {
    "対応するデコーダがありません: "@ + filename_hint
}

/// A decoder may tell of the bytes that it can decode them, or that it cannot.
pub open spec fn tells<D: ImageDecoder>(d: D, data: &[u8], hint: &str, can: bool) -> bool {
    call_ensures(D::can_decode, (&d, data, hint), can)
}

/// A decoder may give the image for the bytes, or the error.
pub open spec fn gives_image<D: ImageDecoder>(
    d: D,
    data: &[u8],
    hint: &str,
    r: Result<DecodedImage, DecodeError>,
) -> bool {
    call_ensures(D::decode, (&d, data, hint), r)
}

/// A decoder may give the metadata for the bytes, or the error.
pub open spec fn gives_metadata<D: ImageDecoder>(
    d: D,
    data: &[u8],
    hint: &str,
    r: Result<ImageMetadata, DecodeError>,
) -> bool {
    call_ensures(D::metadata, (&d, data, hint), r)
}

/// The decoder leaves the bytes to the next one: it cannot decode them, or fails.
pub open spec fn passes_on<D: ImageDecoder, T>(
    d: D,
    data: &[u8],
    hint: &str,
    gives: spec_fn(D, Result<T, DecodeError>) -> bool,
) -> bool {
    tells(d, data, hint, false) || (tells(d, data, hint, true) && exists|e: DecodeError|
        #[trigger] gives(d, Err(e)))
}

/// The outcome is that of a decoder which says that it can decode the bytes; all
/// before it have left them to the next one.
pub open spec fn answered_at<D: ImageDecoder, T>(
    decoders: Seq<D>,
    data: &[u8],
    hint: &str,
    gives: spec_fn(D, Result<T, DecodeError>) -> bool,
    r: Result<T, DecodeError>,
    i: int,
) -> bool {
    &&& 0 <= i < decoders.len()
    &&& tells(decoders[i], data, hint, true)
    &&& gives(decoders[i], r)
    &&& forall|k: int| 0 <= k < i ==> passes_on(#[trigger] decoders[k], data, hint, gives)
}

/// The outcome of asking the decoders in order: the first success; else the last
/// error, all after it being unable to decode the bytes; else that there is no
/// decoder for them.
pub open spec fn chain_outcome<D: ImageDecoder, T>(
    decoders: Seq<D>,
    data: &[u8],
    hint: &str,
    gives: spec_fn(D, Result<T, DecodeError>) -> bool,
    r: Result<T, DecodeError>,
) -> bool {
    match r {
        Ok(_) => exists|i: int| #[trigger] answered_at(decoders, data, hint, gives, r, i),
        Err(e) => {
            ||| exists|i: int|
                #[trigger] answered_at(decoders, data, hint, gives, r, i) && forall|k: int|
                    i < k < decoders.len() ==> tells(#[trigger] decoders[k], data, hint, false)
            ||| e.message@ == no_decoder(hint@) && forall|k: int|
                0 <= k < decoders.len() ==> tells(#[trigger] decoders[k], data, hint, false)
        },
    }
}

impl<D: ImageDecoder> DecoderChain<D> {
    pub fn new(decoders: Vec<D>) -> (r: Self)
        ensures
            r.decoders == decoders,
    {
        DecoderChain { decoders }
    }

    /// The metadata from the first decoder that gives it.
    pub fn metadata(&self, data: &[u8], filename_hint: &str) -> (r: Result<
        ImageMetadata,
        DecodeError,
    >)
        ensures
            chain_outcome(
                self.decoders@,
                data,
                filename_hint,
                |d: D, a: Result<ImageMetadata, DecodeError>|
                    gives_metadata(d, data, filename_hint, a),
                r,
            ),
    {
        let ghost all = self.decoders@;
        let ghost gives = |d: D, a: Result<ImageMetadata, DecodeError>|
            gives_metadata(d, data, filename_hint, a);
        let mut last: Option<DecodeError> = None;
        let ghost mut last_at: int = -1;
        let mut i: usize = 0;
        while i < self.decoders.len()
            invariant
                i <= all.len(),
                all == self.decoders@,
                gives == (|d: D, a: Result<ImageMetadata, DecodeError>|
                    gives_metadata(d, data, filename_hint, a)),
                forall|k: int|
                    0 <= k < i ==> passes_on(#[trigger] all[k], data, filename_hint, gives),
                match last {
                    Some(e) => last_at < i && answered_at(
                        all,
                        data,
                        filename_hint,
                        gives,
                        Err(e),
                        last_at,
                    ),
                    None => last_at == -1,
                },
                forall|k: int|
                    last_at < k < i ==> tells(#[trigger] all[k], data, filename_hint, false),
            decreases self.decoders.len() - i,
        {
            if self.decoders[i].can_decode(data, filename_hint) {
                let answer = self.decoders[i].metadata(data, filename_hint);
                assert(gives(all[i as int], answer));
                assert(answered_at(all, data, filename_hint, gives, answer, i as int));
                match answer {
                    Ok(found) => {
                        return Ok(found);
                    },
                    Err(e) => {
                        last = Some(e);
                        proof {
                            last_at = i as int;
                        }
                    },
                }
            }
            i = i + 1;
        }
        match last {
            Some(e) => Err(e),
            None => Err(
                DecodeError { message: join2("対応するデコーダがありません: ", filename_hint) },
            ),
        }
    }

    /// The image from the first decoder that decodes it.
    pub fn decode(&self, data: &[u8], filename_hint: &str) -> (r: Result<
        DecodedImage,
        DecodeError,
    >)
        ensures
            chain_outcome(
                self.decoders@,
                data,
                filename_hint,
                |d: D, a: Result<DecodedImage, DecodeError>|
                    gives_image(d, data, filename_hint, a),
                r,
            ),
    {
        let ghost all = self.decoders@;
        let ghost gives = |d: D, a: Result<DecodedImage, DecodeError>|
            gives_image(d, data, filename_hint, a);
        let mut last: Option<DecodeError> = None;
        let ghost mut last_at: int = -1;
        let mut i: usize = 0;
        while i < self.decoders.len()
            invariant
                i <= all.len(),
                all == self.decoders@,
                gives == (|d: D, a: Result<DecodedImage, DecodeError>|
                    gives_image(d, data, filename_hint, a)),
                forall|k: int|
                    0 <= k < i ==> passes_on(#[trigger] all[k], data, filename_hint, gives),
                match last {
                    Some(e) => last_at < i && answered_at(
                        all,
                        data,
                        filename_hint,
                        gives,
                        Err(e),
                        last_at,
                    ),
                    None => last_at == -1,
                },
                forall|k: int|
                    last_at < k < i ==> tells(#[trigger] all[k], data, filename_hint, false),
            decreases self.decoders.len() - i,
        {
            if self.decoders[i].can_decode(data, filename_hint) {
                let answer = self.decoders[i].decode(data, filename_hint);
                assert(gives(all[i as int], answer));
                assert(answered_at(all, data, filename_hint, gives, answer, i as int));
                match answer {
                    Ok(found) => {
                        return Ok(found);
                    },
                    Err(e) => {
                        last = Some(e);
                        proof {
                            last_at = i as int;
                        }
                    },
                }
            }
            i = i + 1;
        }
        match last {
            Some(e) => Err(e),
            None => Err(
                DecodeError { message: join2("対応するデコーダがありません: ", filename_hint) },
            ),
        }
    }
}

} // verus!
