//! Pages of PDF files as images.

use vstd::prelude::*;

use crate::image::DecodedImage;
use crate::text;
use crate::text::{decimal_text, join2, join3};

verus! {

/// Why a page could not be rendered.
#[derive(Debug)]
pub enum PdfError {
    /// The path is no text.
    InvalidPath(String),
    /// There is no such page.
    OutOfRange { page_index: u32, page_count: u32 },
    /// The rendered page is no readable image.
    Unreadable,
}

impl PdfError {
    pub open spec fn spec_message(&self) -> Seq<char> {
        match self {
            PdfError::InvalidPath(path) => "無効なパス: "@ + path@,
            PdfError::OutOfRange { page_index, page_count } => "ページインデックスが範囲外: "@
                + text::decimal(*page_index as nat) + " (総ページ数: "@ + text::decimal(
                *page_count as nat,
            ) + ")"@,
            PdfError::Unreadable => "PNGデコード失敗"@,
        }
    }

    /// The error in words.
    pub fn message(&self) -> (r: String)
        ensures
            r@ == self.spec_message(),
    {
        match self {
            PdfError::InvalidPath(path) => join2("無効なパス: ", path.as_str()),
            PdfError::OutOfRange { page_index, page_count } => {
                let index = decimal_text(*page_index as u64);
                let count = decimal_text(*page_count as u64);
                let head = join3(
                    "ページインデックスが範囲外: ",
                    index.as_str(),
                    " (総ページ数: ",
                );
                join3(head.as_str(), count.as_str(), ")")
            },
            PdfError::Unreadable => "PNGデコード失敗".to_owned(),
        }
    }
}

/// The path to hand to the renderer; the empty path is refused.
pub fn renderable_path(path: &str) -> (r: Result<String, PdfError>)
    ensures
        match r {
            Ok(p) => p@ == path@ && path@.len() > 0,
            Err(e) => {
                &&& path@.len() == 0
                &&& e matches PdfError::InvalidPath(p)
                &&& p@ == path@
            },
        },
{
    if path.unicode_len() == 0 {
        Err(PdfError::InvalidPath(path.to_owned()))
    } else {
        Ok(path.to_owned())
    }
}

/// Whether a file of so many pages has the page.
pub fn check_page(page_index: u32, page_count: u32) -> (r: Result<(), PdfError>)
    ensures
        r is Ok <==> page_index < page_count,
        r matches Err(e) ==> e == (PdfError::OutOfRange { page_index, page_count }),
{
    if page_index >= page_count {
        Err(PdfError::OutOfRange { page_index, page_count })
    } else {
        Ok(())
    }
}

/// The width, height and RGBA bytes that `image` decodes from a PNG file; none
/// where it is none.
pub uninterp spec fn png_pixels(png: Seq<u8>) -> Option<(u32, u32, Seq<u8>)>;

/// `image::load_from_memory_with_format` for PNG, and `into_rgba8`. Claimed: the
/// result depends on the bytes alone.
#[verifier::external_body]
fn decode_png(png: &[u8]) -> (r: Option<(u32, u32, Vec<u8>)>)
    ensures
        png_pixels(png@) == (match r {
            Some(p) => Some((p.0, p.1, p.2@)),
            None => None,
        }),
{
    let picture = ::image::load_from_memory_with_format(png, ::image::ImageFormat::Png).ok()?;
    let rgba = picture.into_rgba8();
    Some((rgba.width(), rgba.height(), rgba.into_raw()))
}

/// The pixels make up an image of that size.
pub open spec fn is_picture(p: (u32, u32, Seq<u8>)) -> bool {
    p.0 <= i32::MAX && p.1 <= i32::MAX && p.2.len() == p.0 * p.1 * 4
}

/// The image of decoded pixels.
pub fn page_of_pixels(pixels: Option<(u32, u32, Vec<u8>)>) -> (r: Result<DecodedImage, PdfError>)
    ensures
        match r {
            Ok(image) => {
                &&& pixels is Some
                &&& image.wf()
                &&& (image.width, image.height, image.data) == pixels->0
            },
            Err(e) => e == PdfError::Unreadable && (pixels matches Some(p) ==> !is_picture(
                (p.0, p.1, p.2@),
            )),
        },
{
    match pixels {
        Some((width, height, data)) => {
            proof {
                assert(0 <= width * height <= u32::MAX * u32::MAX) by (nonlinear_arith)
                    requires
                        0 <= width <= u32::MAX,
                        0 <= height <= u32::MAX,
                ;
            }
            let size: u128 = width as u128 * height as u128 * 4;
            if width <= i32::MAX as u32 && height <= i32::MAX as u32 && data.len() as u128 == size {
                Ok(DecodedImage { data, width, height })
            } else {
                Err(PdfError::Unreadable)
            }
        },
        None => Err(PdfError::Unreadable),
    }
}

/// The image of a page that was rendered as a PNG file.
pub fn page_image(png: &[u8]) -> (r: Result<DecodedImage, PdfError>)
    ensures
        match r {
            Ok(image) => {
                &&& image.wf()
                &&& png_pixels(png@) == Some((image.width, image.height, image.data@))
            },
            Err(e) => e == PdfError::Unreadable && (png_pixels(png@) matches Some(p)
                ==> !is_picture(p)),
        },
{
    page_of_pixels(decode_png(png))
}

} // verus!
