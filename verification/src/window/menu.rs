//! The marks of menu items.

use vstd::prelude::*;

use super::action::Action;
use super::{AppWindow, WinView};
use crate::persistent_filter;
use crate::persistent_filter::FilterKind;

verus! {

/// How a menu item is shown.
#[derive(Debug, Clone, Copy, PartialEq, Eq)]
pub struct MenuItemState {
    pub action: Action,
    pub checked: bool,
    /// None where the item is left as it is.
    pub enabled: Option<bool>,
}

/// The items of the filters for every image.
pub open spec fn filter_items() -> Seq<(Action, FilterKind)> {
    seq![
        (Action::PFilterFlipH, FilterKind::FlipHorizontal),
        (Action::PFilterFlipV, FilterKind::FlipVertical),
        (Action::PFilterRotate180, FilterKind::Rotate180),
        (Action::PFilterRotate90CW, FilterKind::Rotate90CW),
        (Action::PFilterRotate90CCW, FilterKind::Rotate90CCW),
        (Action::PFilterLevels, FilterKind::Levels),
        (Action::PFilterGamma, FilterKind::Gamma),
        (Action::PFilterBrightnessContrast, FilterKind::BrightnessContrast),
        (Action::PFilterGrayscaleSimple, FilterKind::GrayscaleSimple),
        (Action::PFilterGrayscaleStrict, FilterKind::GrayscaleStrict),
        (Action::PFilterBlur, FilterKind::Blur),
        (Action::PFilterBlurStrong, FilterKind::BlurStrong),
        (Action::PFilterSharpen, FilterKind::Sharpen),
        (Action::PFilterSharpenStrong, FilterKind::SharpenStrong),
        (Action::PFilterGaussianBlur, FilterKind::GaussianBlur),
        (Action::PFilterUnsharpMask, FilterKind::UnsharpMask),
        (Action::PFilterMedianFilter, FilterKind::MedianFilter),
        (Action::PFilterInvertColors, FilterKind::InvertColors),
        (Action::PFilterApplyAlpha, FilterKind::ApplyAlpha),
    ]
}

/// The states of the filters' items.
pub open spec fn filter_states(w: WinView) -> Seq<MenuItemState> {
    filter_items().map_values(
        |p: (Action, FilterKind)|
            MenuItemState {
                action: p.0,
                checked: persistent_filter::has_kind(w.doc.filter.operations@, p.1),
                enabled: Some(w.doc.filter.enabled),
            },
    )
}

/// An item that is checked or not.
pub open spec fn checkable(action: Action, checked: bool) -> MenuItemState {
    MenuItemState { action, checked, enabled: None }
}

/// How all items are shown. The layout has a margin, and the mouse is hidden, as
/// given.
pub open spec fn item_states(w: WinView, margin: bool, hides_cursor: bool) -> Seq<MenuItemState> {
    seq![checkable(Action::PFilterToggle, w.doc.filter.enabled)] + filter_states(w) + seq![
        checkable(Action::ToggleFileList, w.panel_visible),
        checkable(Action::ToggleAlwaysOnTop, w.always_on_top),
        checkable(Action::ToggleMargin, margin),
        checkable(Action::ToggleCursorHide, hides_cursor),
        checkable(Action::ToggleFullscreen, w.fullscreen),
        checkable(Action::SlideshowToggle, w.slideshow.active),
    ]
}

fn list_filter_items() -> (r: Vec<(Action, FilterKind)>)
    ensures
        r@ == filter_items(),
{
    let mut r: Vec<(Action, FilterKind)> = Vec::new();
    r.push((Action::PFilterFlipH, FilterKind::FlipHorizontal));
    r.push((Action::PFilterFlipV, FilterKind::FlipVertical));
    r.push((Action::PFilterRotate180, FilterKind::Rotate180));
    r.push((Action::PFilterRotate90CW, FilterKind::Rotate90CW));
    r.push((Action::PFilterRotate90CCW, FilterKind::Rotate90CCW));
    r.push((Action::PFilterLevels, FilterKind::Levels));
    r.push((Action::PFilterGamma, FilterKind::Gamma));
    r.push((Action::PFilterBrightnessContrast, FilterKind::BrightnessContrast));
    r.push((Action::PFilterGrayscaleSimple, FilterKind::GrayscaleSimple));
    r.push((Action::PFilterGrayscaleStrict, FilterKind::GrayscaleStrict));
    r.push((Action::PFilterBlur, FilterKind::Blur));
    r.push((Action::PFilterBlurStrong, FilterKind::BlurStrong));
    r.push((Action::PFilterSharpen, FilterKind::Sharpen));
    r.push((Action::PFilterSharpenStrong, FilterKind::SharpenStrong));
    r.push((Action::PFilterGaussianBlur, FilterKind::GaussianBlur));
    r.push((Action::PFilterUnsharpMask, FilterKind::UnsharpMask));
    r.push((Action::PFilterMedianFilter, FilterKind::MedianFilter));
    r.push((Action::PFilterInvertColors, FilterKind::InvertColors));
    r.push((Action::PFilterApplyAlpha, FilterKind::ApplyAlpha));
    assert(r@ =~= filter_items());
    r
}

fn item(action: Action, checked: bool) -> (r: MenuItemState)
    ensures
        r == checkable(action, checked),
{
    MenuItemState { action, checked, enabled: None }
}

impl AppWindow {
    /// How the menu's items are shown.
    pub fn update_menu_checks(&self, margin: bool, hides_cursor: bool) -> (r: Vec<MenuItemState>)
        ensures
            r@ == item_states(self@, margin, hides_cursor),
    {
        let filters = &self.document.persistent_filter;
        let enabled = filters.is_enabled();
        let mut r: Vec<MenuItemState> = Vec::new();
        r.push(item(Action::PFilterToggle, enabled));
        let items = list_filter_items();
        let ghost first = seq![checkable(Action::PFilterToggle, enabled)];
        let ghost all = filter_states(self@);
        let mut i: usize = 0;
        assert(r@ =~= first + all.take(0));
        while i < items.len()
            invariant
                i <= items@.len(),
                items@ == filter_items(),
                all == filter_states(self@),
                *filters == self@.doc.filter,
                enabled == self@.doc.filter.enabled,
                r@ == first + all.take(i as int),
            decreases items.len() - i,
        {
            let (action, kind) = items[i];
            let state = MenuItemState {
                action,
                checked: filters.has_operation(kind),
                enabled: Some(enabled),
            };
            assert(all[i as int] == state);
            r.push(state);
            assert(first + all.take(i + 1) =~= (first + all.take(i as int)).push(state));
            i = i + 1;
        }
        assert(all.take(all.len() as int) =~= all);
        r.push(item(Action::ToggleFileList, self.panel_visible));
        r.push(item(Action::ToggleAlwaysOnTop, self.always_on_top));
        r.push(item(Action::ToggleMargin, margin));
        r.push(item(Action::ToggleCursorHide, hides_cursor));
        r.push(item(Action::ToggleFullscreen, self.fullscreen));
        r.push(item(Action::SlideshowToggle, self.slideshow.active));
        assert(r@ =~= item_states(self@, margin, hides_cursor));
        r
    }
}

} // verus!
