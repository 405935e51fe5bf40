//! Images written in other formats.

use vstd::prelude::*;

use crate::image::DecodedImage;
use crate::text::{join2, join3};

verus! {

/// The formats that images can be written in.
#[derive(Debug, Clone, Copy, PartialEq, Eq, Structural)]
pub enum ExportFormat {
    Png,
    Jpg,
    Bmp,
}

impl ExportFormat {
    pub open spec fn spec_extension(self) -> Seq<char> {
        match self {
            ExportFormat::Png => "png"@,
            ExportFormat::Jpg => "jpg"@,
            ExportFormat::Bmp => "bmp"@,
        }
    }

    /// The extension, without a dot.
    pub fn extension(self) -> (r: &'static str)
        ensures
            r@ == self.spec_extension(),
    {
        match self {
            ExportFormat::Png => "png",
            ExportFormat::Jpg => "jpg",
            ExportFormat::Bmp => "bmp",
        }
    }

    pub open spec fn spec_filter_name(self) -> Seq<char> {
        match self {
            ExportFormat::Png => "PNG画像"@,
            ExportFormat::Jpg => "JPEG画像"@,
            ExportFormat::Bmp => "BMP画像"@,
        }
    }

    pub open spec fn spec_filter(self) -> Seq<char> {
        match self {
            ExportFormat::Png => "*.png"@,
            ExportFormat::Jpg => "*.jpg"@,
            ExportFormat::Bmp => "*.bmp"@,
        }
    }

    /// The format's name in a dialog.
    pub fn filter_name(self) -> (r: &'static str)
        ensures
            r@ == self.spec_filter_name(),
    {
        match self {
            ExportFormat::Png => "PNG画像",
            ExportFormat::Jpg => "JPEG画像",
            ExportFormat::Bmp => "BMP画像",
        }
    }

    /// The pattern of the format's file names in a dialog.
    pub fn filter_spec(self) -> (r: &'static str)
        ensures
            r@ == self.spec_filter(),
    {
        match self {
            ExportFormat::Png => "*.png",
            ExportFormat::Jpg => "*.jpg",
            ExportFormat::Bmp => "*.bmp",
        }
    }
}

/// The name that is offered for a file: the stem with the format's extension.
pub fn export_name(stem: &str, format: ExportFormat) -> (r: String)
    ensures
        r@ == stem@ + "."@ + format.spec_extension(),
{
    join3(stem, ".", format.extension())
}

/// The file's bytes that `image` makes of RGBA bytes, or its error in words.
pub uninterp spec fn file_of(
    width: u32,
    height: u32,
    rgba: Seq<u8>,
    format: ExportFormat,
) -> Result<Seq<u8>, Seq<char>>;

/// `image::DynamicImage::write_to` into memory, of an image made by
/// `RgbaImage::from_raw`. Claimed: the bytes, or the error, depend on the image
/// and the format alone.
#[verifier::external_body]
fn encode(width: u32, height: u32, rgba: &Vec<u8>, format: ExportFormat) -> (r: Result<
    Vec<u8>,
    String,
>)
    requires
        rgba@.len() == width * height * 4,
    ensures
        file_of(width, height, rgba@, format) == (match r {
            Ok(bytes) => Ok::<Seq<u8>, Seq<char>>(bytes@),
            Err(e) => Err(e@),
        }),
{
    let kind = match format {
        ExportFormat::Png => ::image::ImageFormat::Png,
        ExportFormat::Jpg => ::image::ImageFormat::Jpeg,
        ExportFormat::Bmp => ::image::ImageFormat::Bmp,
    };
    let picture = ::image::RgbaImage::from_raw(width, height, rgba.clone())
        .map(::image::DynamicImage::ImageRgba8)
        .ok_or(String::new())?;
    let mut file = std::io::Cursor::new(Vec::new());
    picture.write_to(&mut file, kind).map_err(|e| e.to_string())?;
    Ok(file.into_inner())
}

/// Why an image could not be written.
#[derive(Debug)]
pub struct ExportError {
    pub message: String,
}

/// What an encoder's outcome comes to: its bytes, or its error in words.
pub fn export_outcome(encoded: Result<Vec<u8>, String>) -> (r: Result<Vec<u8>, ExportError>)
    ensures
        match encoded {
            Ok(bytes) => r == Ok::<Vec<u8>, ExportError>(bytes),
            Err(e) => r matches Err(x) && x.message@ == "画像の書き出しに失敗しました: "@
                + e@,
        },
{
    match encoded {
        Ok(bytes) => Ok(bytes),
        Err(e) => Err(
            ExportError { message: join2("画像の書き出しに失敗しました: ", e.as_str()) },
        ),
    }
}

/// The bytes of a file with the image, whatever the file's name will be.
pub fn export_bytes(image: &DecodedImage, format: ExportFormat) -> (r: Result<
    Vec<u8>,
    ExportError,
>)
    requires
        image.wf(),
    ensures
        match file_of(image.width, image.height, image.data@, format) {
            Ok(bytes) => r matches Ok(b) && b@ == bytes,
            Err(e) => r matches Err(x) && x.message@ == "画像の書き出しに失敗しました: "@ + e,
        },
{
    export_outcome(encode(image.width, image.height, &image.data, format))
}

/// A save dialog lists the files with the extension that the format is saved under, and
/// formats are told apart by it.
pub proof fn filter_is_for_extension(a: ExportFormat, b: ExportFormat)
    ensures
        a.spec_filter() == "*."@ + a.spec_extension(),
        a.spec_extension() == b.spec_extension() ==> a == b,
{
    reveal_strlit("*.");
    reveal_strlit("png");
    reveal_strlit("jpg");
    reveal_strlit("bmp");
    reveal_strlit("*.png");
    reveal_strlit("*.jpg");
    reveal_strlit("*.bmp");
    assert(a.spec_filter() =~= "*."@ + a.spec_extension());
    assert("png"@[0] == 'p' && "jpg"@[0] == 'j' && "bmp"@[0] == 'b');
}

} // verus!
