//! Filters that are applied to every image that is shown.

use vstd::prelude::*;

use crate::filter;
use crate::filter::blur;
use crate::filter::blur::{BoxMean, Middle, Unsharp};
use crate::filter::color;
use crate::filter::color::{Inverted, Luminance, MeanGray, OverWhite, ToneCurve, Toned};
use crate::filter::sharpen;
use crate::filter::sharpen::Kernel;
use crate::filter::transform;
use crate::filter::transform::Turn;
use crate::image;
use crate::image::DecodedImage;

verus! {

/// One filter. Tone filters carry the curve that they amount to.
#[derive(Debug)]
pub enum FilterOperation {
    FlipHorizontal,
    FlipVertical,
    Rotate180,
    Rotate90CW,
    Rotate90CCW,
    Levels { low: u8, high: u8, curve: ToneCurve },
    Gamma { curve: ToneCurve },
    BrightnessContrast { brightness: i32, contrast: i32, curve: ToneCurve },
    GrayscaleSimple,
    GrayscaleStrict,
    Blur,
    BlurStrong,
    Sharpen,
    SharpenStrong,
    GaussianBlur { radius: i32 },
    UnsharpMask { radius: i32 },
    MedianFilter,
    InvertColors,
    ApplyAlpha,
}

/// The kind of a filter, without its parameters.
#[derive(Debug, Clone, Copy, PartialEq, Eq, Structural)]
pub enum FilterKind {
    FlipHorizontal,
    FlipVertical,
    Rotate180,
    Rotate90CW,
    Rotate90CCW,
    Levels,
    Gamma,
    BrightnessContrast,
    GrayscaleSimple,
    GrayscaleStrict,
    Blur,
    BlurStrong,
    Sharpen,
    SharpenStrong,
    GaussianBlur,
    UnsharpMask,
    MedianFilter,
    InvertColors,
    ApplyAlpha,
}

impl FilterOperation {
    pub open spec fn spec_kind(&self) -> FilterKind {
        match self {
            FilterOperation::FlipHorizontal => FilterKind::FlipHorizontal,
            FilterOperation::FlipVertical => FilterKind::FlipVertical,
            FilterOperation::Rotate180 => FilterKind::Rotate180,
            FilterOperation::Rotate90CW => FilterKind::Rotate90CW,
            FilterOperation::Rotate90CCW => FilterKind::Rotate90CCW,
            FilterOperation::Levels { .. } => FilterKind::Levels,
            FilterOperation::Gamma { .. } => FilterKind::Gamma,
            FilterOperation::BrightnessContrast { .. } => FilterKind::BrightnessContrast,
            FilterOperation::GrayscaleSimple => FilterKind::GrayscaleSimple,
            FilterOperation::GrayscaleStrict => FilterKind::GrayscaleStrict,
            FilterOperation::Blur => FilterKind::Blur,
            FilterOperation::BlurStrong => FilterKind::BlurStrong,
            FilterOperation::Sharpen => FilterKind::Sharpen,
            FilterOperation::SharpenStrong => FilterKind::SharpenStrong,
            FilterOperation::GaussianBlur { .. } => FilterKind::GaussianBlur,
            FilterOperation::UnsharpMask { .. } => FilterKind::UnsharpMask,
            FilterOperation::MedianFilter => FilterKind::MedianFilter,
            FilterOperation::InvertColors => FilterKind::InvertColors,
            FilterOperation::ApplyAlpha => FilterKind::ApplyAlpha,
        }
    }

    /// The kind of the filter.
    pub fn kind(&self) -> (r: FilterKind)
        ensures
            r == self.spec_kind(),
    {
        match self {
            FilterOperation::FlipHorizontal => FilterKind::FlipHorizontal,
            FilterOperation::FlipVertical => FilterKind::FlipVertical,
            FilterOperation::Rotate180 => FilterKind::Rotate180,
            FilterOperation::Rotate90CW => FilterKind::Rotate90CW,
            FilterOperation::Rotate90CCW => FilterKind::Rotate90CCW,
            FilterOperation::Levels { .. } => FilterKind::Levels,
            FilterOperation::Gamma { .. } => FilterKind::Gamma,
            FilterOperation::BrightnessContrast { .. } => FilterKind::BrightnessContrast,
            FilterOperation::GrayscaleSimple => FilterKind::GrayscaleSimple,
            FilterOperation::GrayscaleStrict => FilterKind::GrayscaleStrict,
            FilterOperation::Blur => FilterKind::Blur,
            FilterOperation::BlurStrong => FilterKind::BlurStrong,
            FilterOperation::Sharpen => FilterKind::Sharpen,
            FilterOperation::SharpenStrong => FilterKind::SharpenStrong,
            FilterOperation::GaussianBlur { .. } => FilterKind::GaussianBlur,
            FilterOperation::UnsharpMask { .. } => FilterKind::UnsharpMask,
            FilterOperation::MedianFilter => FilterKind::MedianFilter,
            FilterOperation::InvertColors => FilterKind::InvertColors,
            FilterOperation::ApplyAlpha => FilterKind::ApplyAlpha,
        }
    }

    /// The filter's curve, where it has one, is complete.
    pub open spec fn wf(&self) -> bool {
        match self {
            FilterOperation::Levels { curve, .. } => curve.wf(),
            FilterOperation::Gamma { curve } => curve.wf(),
            FilterOperation::BrightnessContrast { curve, .. } => curve.wf(),
            _ => true,
        }
    }

    /// The filter makes the second image of the first.
    pub open spec fn makes(&self, a: DecodedImage, b: DecodedImage) -> bool {
        match self {
            FilterOperation::FlipHorizontal => transform::turned(a, Turn::Mirror, b),
            FilterOperation::FlipVertical => transform::turned(a, Turn::Flip, b),
            FilterOperation::Rotate180 => transform::turned(a, Turn::Half, b),
            FilterOperation::Rotate90CW => transform::turned(a, Turn::Right, b),
            FilterOperation::Rotate90CCW => transform::turned(a, Turn::Left, b),
            FilterOperation::Levels { curve, .. } => filter::filtered(
                a,
                None,
                (Toned { curve }),
                b,
            ),
            FilterOperation::Gamma { curve } => filter::filtered(a, None, (Toned { curve }), b),
            FilterOperation::BrightnessContrast { curve, .. } => filter::filtered(
                a,
                None,
                (Toned { curve }),
                b,
            ),
            FilterOperation::GrayscaleSimple => filter::filtered(a, None, MeanGray, b),
            FilterOperation::GrayscaleStrict => filter::filtered(a, None, Luminance, b),
            FilterOperation::Blur => filter::filtered(a, None, (BoxMean { radius: 1 }), b),
            FilterOperation::BlurStrong => filter::filtered(a, None, (BoxMean { radius: 2 }), b),
            FilterOperation::Sharpen => exists|k: Kernel| #[trigger]
                filter::filtered(a, None, k, b) && k.weights@ == sharpen::cross_weights(),
            FilterOperation::SharpenStrong => exists|k: Kernel| #[trigger]
                filter::filtered(a, None, k, b) && k.weights@ == sharpen::ring_weights(),
            FilterOperation::GaussianBlur { radius } => blur::twice_blurred(
                a,
                None,
                blur::box_radius(*radius),
                b,
            ),
            FilterOperation::UnsharpMask { radius } => exists|blurred: DecodedImage| #[trigger]
                blur::twice_blurred(a, None, blur::box_radius(*radius), blurred)
                    && filter::filtered(a, None, (Unsharp { blurred }), b),
            FilterOperation::MedianFilter => filter::filtered(a, None, Middle, b),
            FilterOperation::InvertColors => filter::filtered(a, None, Inverted, b),
            FilterOperation::ApplyAlpha => filter::filtered(a, None, OverWhite, b),
        }
    }
}

/// The filters for every image, and whether they are in use.
pub struct PersistentFilter {
    pub enabled: bool,
    /// In the order in which they are applied.
    pub operations: Vec<FilterOperation>,
    /// Counts the changes.
    pub generation: u64,
}

/// The filters make the last image of the first, one step each.
pub open spec fn chained(ops: Seq<FilterOperation>, steps: Seq<DecodedImage>) -> bool {
    &&& steps.len() == ops.len() + 1
    &&& forall|i: int|
        0 <= i < ops.len() ==> #[trigger] ops[i].makes(steps[i], steps[i + 1])
}

/// There is a filter of the kind among them.
pub open spec fn has_kind(ops: Seq<FilterOperation>, kind: FilterKind) -> bool {
    exists|i: int| 0 <= i < ops.len() && (#[trigger] ops[i]).spec_kind() == kind
}

impl PersistentFilter {
    /// Every filter is complete.
    pub open spec fn wf(&self) -> bool {
        forall|i: int| 0 <= i < self.operations@.len() ==> (#[trigger] self.operations@[i]).wf()
    }

    /// No filters, not in use.
    pub fn new() -> (r: Self)
        ensures
            r.wf(),
            !r.enabled,
            r.operations@.len() == 0,
            r.generation == 0,
    {
        PersistentFilter { enabled: false, operations: Vec::new(), generation: 0 }
    }

    /// Whether the filters are in use.
    pub fn is_enabled(&self) -> (r: bool)
        ensures
            r == self.enabled,
    {
        self.enabled
    }

    /// Puts the filters in or out of use.
    pub fn toggle_enabled(&mut self)
        ensures
            final(self).enabled == !old(self).enabled,
            final(self).operations == old(self).operations,
            final(self).generation == old(self).generation.wrapping_add(1),
    {
        self.enabled = !self.enabled;
        self.generation = self.generation.wrapping_add(1);
    }

    /// The filters in their order.
    pub fn operations(&self) -> (r: &[FilterOperation])
        ensures
            r@ == self.operations@,
    {
        self.operations.as_slice()
    }

    /// Whether there is a filter of the kind.
    pub fn has_operation(&self, probe: FilterKind) -> (r: bool)
        ensures
            r == has_kind(self.operations@, probe),
    {
        let mut i: usize = 0;
        while i < self.operations.len()
            invariant
                i <= self.operations@.len(),
                forall|k: int|
                    0 <= k < i ==> (#[trigger] self.operations@[k]).spec_kind() != probe,
            decreases self.operations.len() - i,
        {
            if self.operations[i].kind() == probe {
                return true;
            }
            i = i + 1;
        }
        false
    }

    /// Adds a filter at the end.
    pub fn add_operation(&mut self, op: FilterOperation)
        ensures
            final(self).operations@ == old(self).operations@.push(op),
            final(self).enabled == old(self).enabled,
            final(self).generation == old(self).generation.wrapping_add(1),
            old(self).wf() && op.wf() ==> final(self).wf(),
    {
        self.operations.push(op);
        self.generation = self.generation.wrapping_add(1);
    }

    /// Takes out the filters of a kind; tells whether there were any.
    pub fn remove_operation_type(&mut self, probe: FilterKind) -> (r: bool)
        ensures
            final(self).operations@ == old(self).operations@.filter(
                |o: FilterOperation| o.spec_kind() != probe,
            ),
            final(self).enabled == old(self).enabled,
            r == (final(self).operations@.len() != old(self).operations@.len()),
            final(self).generation == (if r {
                old(self).generation.wrapping_add(1)
            } else {
                old(self).generation
            }),
            old(self).wf() ==> final(self).wf(),
    {
        let ghost all = self.operations@;
        let ghost other = |o: FilterOperation| o.spec_kind() != probe;
        let before: usize = self.operations.len();
        let mut ops: Vec<FilterOperation> = Vec::new();
        std::mem::swap(&mut self.operations, &mut ops);
        let mut kept: Vec<FilterOperation> = Vec::new();
        proof {
            reveal(Seq::filter);
            assert(all.take(0).filter(other) =~= Seq::empty());
        }
        for op in it: ops
            invariant
                it.seq() == all,
                other == (|o: FilterOperation| o.spec_kind() != probe),
                kept@ == all.take(it.index()).filter(other),
        {
            proof {
                reveal(Seq::filter);
                assert(all.take(it.index() + 1).drop_last() =~= all.take(it.index()));
                assert(all.take(it.index() + 1).last() == op);
            }
            if op.kind() != probe {
                kept.push(op);
            }
        }
        assert(all.take(all.len() as int) =~= all);
        proof {
            if old(self).wf() {
                assert forall|i: int| 0 <= i < kept@.len() implies (#[trigger] kept@[i]).wf() by {
                    assert(all.filter(other).contains(kept@[i]));
                    all.lemma_filter_contains_rev(other, kept@[i]);
                    let k = choose|k: int| 0 <= k < all.len() && all[k] == kept@[i];
                    assert(all[k].wf());
                }
            }
        }
        self.operations = kept;
        if self.operations.len() == before {
            false
        } else {
            self.generation = self.generation.wrapping_add(1);
            true
        }
    }

    /// Takes out all filters.
    pub fn clear_operations(&mut self)
        ensures
            final(self).wf(),
            final(self).operations@.len() == 0,
            final(self).enabled == old(self).enabled,
            final(self).generation == old(self).generation.wrapping_add(1),
    {
        self.operations.clear();
        self.generation = self.generation.wrapping_add(1);
    }

    /// Applies the filters one after the other; none where there is nothing to
    /// apply.
    pub fn apply(&self, image: &DecodedImage) -> (r: Option<DecodedImage>)
        requires
            self.wf(),
            image.wf(),
        ensures
            match r {
                Some(result) => {
                    &&& self.enabled
                    &&& self.operations@.len() > 0
                    &&& result.wf()
                    &&& exists|steps: Seq<DecodedImage>| #[trigger]
                        chained(self.operations@, steps) && image::same_image(*image, steps[0])
                            && steps.last() == result
                },
                None => !self.enabled || self.operations@.len() == 0,
            },
    {
        if !self.enabled || self.operations.len() == 0 {
            return None;
        }
        let mut result = image.duplicate();
        let ghost mut steps: Seq<DecodedImage> = seq![result];
        let mut i: usize = 0;
        while i < self.operations.len()
            invariant
                i <= self.operations@.len(),
                self.wf(),
                result.wf(),
                steps.len() == i + 1,
                steps.last() == result,
                image::same_image(*image, steps[0]),
                forall|k: int|
                    0 <= k < i ==> #[trigger] self.operations@[k].makes(steps[k], steps[k + 1]),
            decreases self.operations.len() - i,
        {
            let next = apply_operation(&result, &self.operations[i]);
            proof {
                steps = steps.push(next);
            }
            result = next;
            i = i + 1;
        }
        assert(chained(self.operations@, steps));
        Some(result)
    }
}

/// Applies one filter.
pub fn apply_operation(image: &DecodedImage, op: &FilterOperation) -> (r: DecodedImage)
    requires
        image.wf(),
        op.wf(),
    ensures
        op.makes(*image, r),
        r.wf(),
{
    match op {
        FilterOperation::FlipHorizontal => transform::flip_horizontal(image),
        FilterOperation::FlipVertical => transform::flip_vertical(image),
        FilterOperation::Rotate180 => transform::rotate_180(image),
        FilterOperation::Rotate90CW => transform::rotate_90(image),
        FilterOperation::Rotate90CCW => transform::rotate_270(image),
        FilterOperation::Levels { curve, .. } => color::apply_curve(image, None, curve),
        FilterOperation::Gamma { curve } => color::apply_curve(image, None, curve),
        FilterOperation::BrightnessContrast { curve, .. } => color::apply_curve(
            image,
            None,
            curve,
        ),
        FilterOperation::GrayscaleSimple => color::grayscale_simple(image, None),
        FilterOperation::GrayscaleStrict => color::grayscale_strict(image, None),
        FilterOperation::Blur => blur::blur(image, None),
        FilterOperation::BlurStrong => blur::blur_strong(image, None),
        FilterOperation::Sharpen => sharpen::sharpen(image, None),
        FilterOperation::SharpenStrong => sharpen::sharpen_strong(image, None),
        FilterOperation::GaussianBlur { radius } => blur::gaussian_blur(image, None, *radius),
        FilterOperation::UnsharpMask { radius } => blur::unsharp_mask(image, None, *radius),
        FilterOperation::MedianFilter => blur::median_filter(image, None),
        FilterOperation::InvertColors => color::invert_colors(image, None),
        FilterOperation::ApplyAlpha => color::apply_alpha(image, None),
    }
}

/// A filter that is added later is applied later: to what the filters before it make.
pub proof fn last_filter_comes_last(
    ops: Seq<FilterOperation>,
    op: FilterOperation,
    steps: Seq<DecodedImage>,
)
    requires
        chained(ops.push(op), steps),
    ensures
        chained(ops, steps.drop_last()),
        steps.len() >= 2,
        op.makes(steps[steps.len() - 2], steps.last()),
{
    let more = ops.push(op);
    assert forall|i: int| 0 <= i < ops.len() implies #[trigger] ops[i].makes(
        steps.drop_last()[i],
        steps.drop_last()[i + 1],
    ) by {
        assert(more[i].makes(steps[i], steps[i + 1]));
    }
    let n = ops.len() as int;
    assert(more[n].makes(steps[n], steps[n + 1]));
}

} // verus!
