//! Edits of the shown image.

use vstd::prelude::*;

use super::action::PlainFilter;
use super::{AppWindow, Command, WinView};
use crate::document;
use crate::document::types::DocumentEvent;
use crate::document::DocView;
use crate::filter;
use crate::filter::blur;
use crate::filter::blur::{BoxMean, Middle, Unsharp};
use crate::filter::color;
use crate::filter::color::{Filled, Inverted, Luminance, MeanGray, OverWhite, ToneCurve, Toned};
use crate::filter::sharpen;
use crate::filter::sharpen::Kernel;
use crate::filter::transform;
use crate::filter::transform::Turn;
use crate::image::DecodedImage;
use crate::selection::PixelRect;
use crate::text;
use crate::text::{chars_of, parse_number, piece};

verus! {

/// The filter makes the second image of the first, in a region.
pub open spec fn plain_makes(
    kind: PlainFilter,
    a: DecodedImage,
    region: Option<&PixelRect>,
    b: DecodedImage,
) -> bool {
    match kind {
        PlainFilter::InvertColors => filter::filtered(a, region, Inverted, b),
        PlainFilter::GrayscaleSimple => filter::filtered(a, region, MeanGray, b),
        PlainFilter::GrayscaleStrict => filter::filtered(a, region, Luminance, b),
        PlainFilter::ApplyAlpha => filter::filtered(a, region, OverWhite, b),
        PlainFilter::Blur => filter::filtered(a, region, (BoxMean { radius: 1 }), b),
        PlainFilter::BlurStrong => filter::filtered(a, region, (BoxMean { radius: 2 }), b),
        PlainFilter::Sharpen => exists|k: Kernel| #[trigger]
            filter::filtered(a, region, k, b) && k.weights@ == sharpen::cross_weights(),
        PlainFilter::SharpenStrong => exists|k: Kernel| #[trigger]
            filter::filtered(a, region, k, b) && k.weights@ == sharpen::ring_weights(),
        PlainFilter::MedianFilter => filter::filtered(a, region, Middle, b),
    }
}

/// No filter without parameters but the one that lays an image over white changes
/// how opaque a pixel is.
pub proof fn filters_keep_alpha(
    kind: PlainFilter,
    a: DecodedImage,
    region: Option<&PixelRect>,
    b: DecodedImage,
    x: int,
    y: int,
)
    requires
        kind != PlainFilter::ApplyAlpha,
        plain_makes(kind, a, region, b),
        a.has(x, y, 3),
    ensures
        b.at(x, y, 3) == a.at(x, y, 3),
{
    let v = b.at(x, y, 3);
}

/// Applies a filter to a region.
pub fn apply_plain(kind: PlainFilter, image: &DecodedImage, region: Option<&PixelRect>) -> (
    r: DecodedImage)
    requires
        image.wf(),
    ensures
        plain_makes(kind, *image, region, r),
        r.wf(),
{
    match kind {
        PlainFilter::InvertColors => color::invert_colors(image, region),
        PlainFilter::GrayscaleSimple => color::grayscale_simple(image, region),
        PlainFilter::GrayscaleStrict => color::grayscale_strict(image, region),
        PlainFilter::ApplyAlpha => color::apply_alpha(image, region),
        PlainFilter::Blur => blur::blur(image, region),
        PlainFilter::BlurStrong => blur::blur_strong(image, region),
        PlainFilter::Sharpen => sharpen::sharpen(image, region),
        PlainFilter::SharpenStrong => sharpen::sharpen_strong(image, region),
        PlainFilter::MedianFilter => blur::median_filter(image, region),
    }
}

/// Turns an image.
pub fn turn(image: &DecodedImage, how: Turn) -> (r: DecodedImage)
    requires
        image.wf(),
    ensures
        transform::turned(*image, how, r),
{
    match how {
        Turn::Mirror => transform::flip_horizontal(image),
        Turn::Flip => transform::flip_vertical(image),
        Turn::Right => transform::rotate_90(image),
        Turn::Half => transform::rotate_180(image),
        Turn::Left => transform::rotate_270(image),
    }
}

/// The edited image is shown.
pub open spec fn edit_shown(before: DocView, image: DecodedImage, after: DocView) -> bool {
    &&& document::editing::edited(before, after.edit)
    &&& after == document::told(
        (DocView { edit: after.edit, image: Some(image), ..before }),
        DocumentEvent::ImageReady,
    )
}

/// The image after an edit is shown in the window.
pub open spec fn edited(before: WinView, image: DecodedImage, after: WinView) -> bool {
    exists|doc: DocView| #[trigger]
        edit_shown(before.doc, image, doc) && after == super::noted(
            (WinView { doc, ..before }),
            Command::ProcessEvents,
        )
}

/// An unsigned number that a dialog gives; a substitute where it gives none.
pub open spec fn number_or(value: Seq<char>, max: nat, other: nat) -> nat {
    match text::number_in(value, max) {
        Some(n) => n,
        None => other,
    }
}

/// A byte that a dialog gives; a substitute where it gives none.
pub fn byte_or(value: &str, other: u8) -> (r: u8)
    ensures
        r == number_or(value@, 255, other as nat),
{
    match parse_number(&chars_of(value), 255) {
        Some(n) => n as u8,
        None => other,
    }
}

/// A block size that a dialog gives: ten where it gives none, one at least.
pub fn block_size(value: &str) -> (r: u32)
    ensures
        r == ({
            let n = number_or(value@, u32::MAX as nat, 10);
            if n < 1 {
                1
            } else {
                n
            }
        }),
{
    let n: u32 = match parse_number(&chars_of(value), u32::MAX as u64) {
        Some(n) => n as u32,
        None => 10,
    };
    if n < 1 {
        1
    } else {
        n
    }
}

/// The signed number in a text: digits, with a sign before them or none.
pub open spec fn signed_in(s: Seq<char>) -> Option<int> {
    if s.len() > 0 && s[0] == '-' {
        let digits = s.skip(1);
        if digits.len() > 0 && digits[0] != '+' {
            match text::number_in(digits, 0x8000_0000) {
                Some(n) => Some(-(n as int)),
                None => None,
            }
        } else {
            None
        }
    } else {
        match text::number_in(s, 0x7fff_ffff) {
            Some(n) => Some(n as int),
            None => None,
        }
    }
}

/// A signed number that a dialog gives, from -128 to 128; zero where it gives
/// none.
pub fn offset_value(value: &str) -> (r: i32)
    ensures
        r == ({
            let n = match signed_in(value@) {
                Some(n) => n,
                None => 0,
            };
            if n < -128 {
                -128
            } else if n > 128 {
                128
            } else {
                n
            }
        }),
{
    let cs = chars_of(value);
    let n: i64 = if cs.len() > 0 && cs[0] == '-' {
        let digits = piece(&cs, 1, cs.len());
        assert(digits@ =~= cs@.skip(1));
        if digits.len() > 0 && digits[0] != '+' {
            match parse_number(&digits, 0x8000_0000) {
                Some(n) => -(n as i64),
                None => 0,
            }
        } else {
            0
        }
    } else {
        match parse_number(&cs, 0x7fff_ffff) {
            Some(n) => n as i64,
            None => 0,
        }
    };
    if n < -128 {
        -128
    } else if n > 128 {
        128
    } else {
        n as i32
    }
}

impl AppWindow {
    /// Shows an edited image.
    pub fn show_edit(&mut self, image: DecodedImage)
        requires
            old(self).wf(),
            image.wf(),
        ensures
            final(self).wf(),
            edited(old(self)@, image, final(self)@),
    {
        self.document.apply_edit(image);
        let ghost doc = self@.doc;
        assert(edit_shown(old(self)@.doc, image, doc));
        self.note(Command::ProcessEvents);
    }

    /// Fills the selected part with a colour, where there is an image.
    pub fn action_fill(&mut self, red: u8, green: u8, blue: u8)
        requires
            old(self).wf(),
        ensures
            final(self).wf(),
            match old(self)@.doc.image {
                Some(image) => exists|result: DecodedImage| #[trigger]
                    filter::filtered(
                        image,
                        super::region_of(&old(self)@.selection),
                        (Filled { r: red, g: green, b: blue }),
                        result,
                    ) && edited(old(self)@, result, final(self)@),
                None => final(self)@ == old(self)@,
            },
    {
        let region = self.selection;
        let result = match &self.document.current_image {
            Some(image) => color::fill(image, region.as_ref(), red, green, blue),
            None => {
                return;
            },
        };
        self.show_edit(result);
    }

    /// Changes the colours of the selected part by a curve, where there is an
    /// image.
    pub fn action_tone(&mut self, curve: &ToneCurve)
        requires
            old(self).wf(),
            curve.wf(),
        ensures
            final(self).wf(),
            match old(self)@.doc.image {
                Some(image) => exists|result: DecodedImage| #[trigger]
                    filter::filtered(
                        image,
                        super::region_of(&old(self)@.selection),
                        (Toned { curve }),
                        result,
                    ) && edited(old(self)@, result, final(self)@),
                None => final(self)@ == old(self)@,
            },
    {
        let region = self.selection;
        let result = match &self.document.current_image {
            Some(image) => color::apply_curve(image, region.as_ref(), curve),
            None => {
                return;
            },
        };
        self.show_edit(result);
    }

    /// Puts a mosaic on the selected part, where there is an image.
    pub fn action_mosaic(&mut self, size: u32)
        requires
            old(self).wf(),
        ensures
            final(self).wf(),
            match old(self)@.doc.image {
                Some(image) => exists|result: DecodedImage| #[trigger]
                    blur::in_blocks(
                        image,
                        super::region_of(&old(self)@.selection),
                        size as int,
                        result,
                    ) && edited(old(self)@, result, final(self)@),
                None => final(self)@ == old(self)@,
            },
    {
        let region = self.selection;
        let result = match &self.document.current_image {
            Some(image) => blur::mosaic(image, region.as_ref(), size),
            None => {
                return;
            },
        };
        self.show_edit(result);
    }

    /// Blurs the selected part softly, where there is an image.
    pub fn action_gaussian_blur(&mut self, radius: i32)
        requires
            old(self).wf(),
        ensures
            final(self).wf(),
            match old(self)@.doc.image {
                Some(image) => exists|result: DecodedImage| #[trigger]
                    blur::twice_blurred(
                        image,
                        super::region_of(&old(self)@.selection),
                        blur::box_radius(radius),
                        result,
                    ) && edited(old(self)@, result, final(self)@),
                None => final(self)@ == old(self)@,
            },
    {
        let region = self.selection;
        let result = match &self.document.current_image {
            Some(image) => blur::gaussian_blur(image, region.as_ref(), radius),
            None => {
                return;
            },
        };
        self.show_edit(result);
    }

    /// Sharpens the selected part against a blurred copy, where there is an image.
    pub fn action_unsharp_mask(&mut self, radius: i32)
        requires
            old(self).wf(),
        ensures
            final(self).wf(),
            match old(self)@.doc.image {
                Some(image) => exists|blurred: DecodedImage, result: DecodedImage|
                    {
                        &&& #[trigger] blur::twice_blurred(
                            image,
                            super::region_of(&old(self)@.selection),
                            blur::box_radius(radius),
                            blurred,
                        )
                        &&& #[trigger] filter::filtered(
                            image,
                            super::region_of(&old(self)@.selection),
                            (Unsharp { blurred }),
                            result,
                        )
                        &&& edited(old(self)@, result, final(self)@)
                    },
                None => final(self)@ == old(self)@,
            },
    {
        let region = self.selection;
        let result = match &self.document.current_image {
            Some(image) => blur::unsharp_mask(image, region.as_ref(), radius),
            None => {
                return;
            },
        };
        self.show_edit(result);
    }

    /// Shows an image of another size or angle; nothing stays selected.
    pub fn replace_image(&mut self, image: DecodedImage)
        requires
            old(self).wf(),
            image.wf(),
        ensures
            final(self).wf(),
            edited(super::deselected(old(self)@), image, final(self)@),
    {
        self.deselect();
        self.show_edit(image);
    }
}

} // verus!
