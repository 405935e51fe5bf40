//! What the user can ask for.

use vstd::prelude::*;

use crate::filter::transform::Turn;
use crate::persistent_filter::FilterKind;

verus! {

/// What a key, a button or a menu item asks for.
#[derive(Debug, Clone, Copy, PartialEq, Eq, Structural)]
pub enum Action {
    NavigateBack,
    NavigateForward,
    Navigate1Back,
    Navigate1Forward,
    Navigate5Back,
    Navigate5Forward,
    Navigate50Back,
    Navigate50Forward,
    NavigateFirst,
    NavigateLast,
    NavigatePrevMark,
    NavigateNextMark,
    NavigatePrevFolder,
    NavigateNextFolder,
    SortNavigateBack,
    SortNavigateForward,
    Reload,
    DisplayAutoShrink,
    DisplayAutoFit,
    ZoomIn,
    ZoomOut,
    ZoomReset,
    ToggleMargin,
    CycleAlphaBackground,
    ToggleFullscreen,
    Minimize,
    ToggleMaximize,
    ToggleAlwaysOnTop,
    ToggleCursorHide,
    MarkSet,
    MarkUnset,
    MarkInvertAll,
    MarkInvertToHere,
    RemoveFromList,
    MarkedRemoveFromList,
    ShuffleAll,
    ShuffleGroups,
    OpenFile,
    OpenFolder,
    PasteImage,
    BookmarkLoad,
    NavigateToPage,
    DeleteFile,
    MoveFile,
    CopyFile,
    MarkedDelete,
    MarkedMove,
    MarkedCopy,
    MarkedCopyNames,
    CopyFileName,
    NewWindow,
    OpenContainingFolder,
    OpenExeFolder,
    OpenBookmarkFolder,
    OpenSpiFolder,
    OpenTempFolder,
    ShowImageInfo,
    ShowHelp,
    CheckUpdate,
    RegisterShell,
    UnregisterShell,
    BookmarkSave,
    Exit,
    CloseAll,
    CopyImage,
    ExportJpg,
    ExportBmp,
    ExportPng,
    RotateArbitrary,
    Resize,
    Fill,
    Levels,
    Gamma,
    BrightnessContrast,
    Mosaic,
    GaussianBlur,
    UnsharpMask,
    DeselectSelection,
    Crop,
    FlipHorizontal,
    FlipVertical,
    Rotate180,
    Rotate90CW,
    Rotate90CCW,
    InvertColors,
    GrayscaleSimple,
    GrayscaleStrict,
    ApplyAlpha,
    Blur,
    BlurStrong,
    Sharpen,
    SharpenStrong,
    MedianFilter,
    PFilterToggle,
    PFilterFlipH,
    PFilterFlipV,
    PFilterRotate180,
    PFilterRotate90CW,
    PFilterRotate90CCW,
    PFilterGrayscaleSimple,
    PFilterGrayscaleStrict,
    PFilterBlur,
    PFilterBlurStrong,
    PFilterSharpen,
    PFilterSharpenStrong,
    PFilterMedianFilter,
    PFilterInvertColors,
    PFilterApplyAlpha,
    PFilterLevels,
    PFilterGamma,
    PFilterBrightnessContrast,
    PFilterGaussianBlur,
    PFilterUnsharpMask,
    ToggleMenuBar,
    ToggleFileList,
    SlideshowToggle,
    SlideshowFaster,
    SlideshowSlower,
}

/// A move in the list.
#[derive(Debug, Clone, Copy, PartialEq, Eq, Structural)]
pub enum Move {
    By(isize),
    First,
    Last,
    PrevMark,
    NextMark,
    PrevFolder,
    NextFolder,
    SortBack,
    SortForward,
    Reload,
}

/// A change of how images are laid out.
#[derive(Debug, Clone, Copy, PartialEq, Eq, Structural)]
pub enum ViewChange {
    DisplayAutoShrink,
    DisplayAutoFit,
    ZoomIn,
    ZoomOut,
    ZoomReset,
    ToggleMargin,
    CycleAlphaBackground,
}

/// A change of marks.
#[derive(Debug, Clone, Copy, PartialEq, Eq, Structural)]
pub enum MarkChange {
    Mark,
    Unmark,
    InvertAll,
    InvertToHere,
}

/// A change of the list.
#[derive(Debug, Clone, Copy, PartialEq, Eq, Structural)]
pub enum ListChange {
    RemoveCurrent,
    RemoveMarked,
    ShuffleAll,
    ShuffleGroups,
}

/// A change of the slide show.
#[derive(Debug, Clone, Copy, PartialEq, Eq, Structural)]
pub enum SlideChange {
    Toggle,
    Adjust(i32),
}

/// A filter without parameters.
#[derive(Debug, Clone, Copy, PartialEq, Eq, Structural)]
pub enum PlainFilter {
    InvertColors,
    GrayscaleSimple,
    GrayscaleStrict,
    ApplyAlpha,
    Blur,
    BlurStrong,
    Sharpen,
    SharpenStrong,
    MedianFilter,
}

/// What the system is asked to do: dialogs, files, programs, the clipboard.
#[derive(Debug, Clone, Copy, PartialEq, Eq, Structural)]
pub enum Request {
    Minimize,
    ToggleCursorHide,
    OpenFile,
    OpenFolder,
    PasteImage,
    BookmarkLoad,
    NavigateToPage,
    DeleteFile,
    MoveFile,
    CopyFile,
    MarkedDelete,
    MarkedMove,
    MarkedCopy,
    MarkedCopyNames,
    CopyFileName,
    NewWindow,
    OpenContainingFolder,
    OpenExeFolder,
    OpenBookmarkFolder,
    OpenSpiFolder,
    OpenTempFolder,
    ShowImageInfo,
    ShowHelp,
    CheckUpdate,
    RegisterShell,
    UnregisterShell,
    BookmarkSave,
    Exit,
    CopyImage,
    ExportJpg,
    ExportBmp,
    ExportPng,
    RotateArbitrary,
    Resize,
    Fill,
    Levels,
    Gamma,
    BrightnessContrast,
    Mosaic,
    GaussianBlur,
    UnsharpMask,
}

/// What an action amounts to.
#[derive(Debug, Clone, Copy, PartialEq, Eq, Structural)]
pub enum Task {
    Move(Move),
    View(ViewChange),
    Mark(MarkChange),
    Change(ListChange),
    Slide(SlideChange),
    /// An edit of the whole image.
    Transform(Turn),
    /// An edit of the selected part.
    Filter(PlainFilter),
    Crop,
    Deselect,
    CloseAll,
    /// Filters for every image are put in or out of use.
    ToggleFilters,
    /// A filter for every image is added, or taken out where it is there.
    ToggleFilter(FilterKind),
    /// A filter for every image is taken out, or its parameters are asked for.
    RemoveOrAsk(FilterKind),
    ToggleFullscreen,
    ToggleMaximize,
    ToggleAlwaysOnTop,
    ToggleMenuBar,
    ToggleFileList,
    Ask(Request),
    /// Asked after an edit that is not saved was given up.
    AskGuarded(Request),
    /// Asked only where there is an image.
    AskOfImage(Request),
}

/// What an action amounts to.
pub open spec fn spec_task_of(action: Action) -> Task {
    match action {
        Action::NavigateBack => Task::Move(Move::By((-1) as isize)),
        Action::NavigateForward => Task::Move(Move::By(1)),
        Action::Navigate1Back => Task::Move(Move::By((-1) as isize)),
        Action::Navigate1Forward => Task::Move(Move::By(1)),
        Action::Navigate5Back => Task::Move(Move::By((-5) as isize)),
        Action::Navigate5Forward => Task::Move(Move::By(5)),
        Action::Navigate50Back => Task::Move(Move::By((-50) as isize)),
        Action::Navigate50Forward => Task::Move(Move::By(50)),
        Action::NavigateFirst => Task::Move(Move::First),
        Action::NavigateLast => Task::Move(Move::Last),
        Action::NavigatePrevMark => Task::Move(Move::PrevMark),
        Action::NavigateNextMark => Task::Move(Move::NextMark),
        Action::NavigatePrevFolder => Task::Move(Move::PrevFolder),
        Action::NavigateNextFolder => Task::Move(Move::NextFolder),
        Action::SortNavigateBack => Task::Move(Move::SortBack),
        Action::SortNavigateForward => Task::Move(Move::SortForward),
        Action::Reload => Task::Move(Move::Reload),
        Action::DisplayAutoShrink => Task::View(ViewChange::DisplayAutoShrink),
        Action::DisplayAutoFit => Task::View(ViewChange::DisplayAutoFit),
        Action::ZoomIn => Task::View(ViewChange::ZoomIn),
        Action::ZoomOut => Task::View(ViewChange::ZoomOut),
        Action::ZoomReset => Task::View(ViewChange::ZoomReset),
        Action::ToggleMargin => Task::View(ViewChange::ToggleMargin),
        Action::CycleAlphaBackground => Task::View(ViewChange::CycleAlphaBackground),
        Action::ToggleFullscreen => Task::ToggleFullscreen,
        Action::Minimize => Task::Ask(Request::Minimize),
        Action::ToggleMaximize => Task::ToggleMaximize,
        Action::ToggleAlwaysOnTop => Task::ToggleAlwaysOnTop,
        Action::ToggleCursorHide => Task::Ask(Request::ToggleCursorHide),
        Action::MarkSet => Task::Mark(MarkChange::Mark),
        Action::MarkUnset => Task::Mark(MarkChange::Unmark),
        Action::MarkInvertAll => Task::Mark(MarkChange::InvertAll),
        Action::MarkInvertToHere => Task::Mark(MarkChange::InvertToHere),
        Action::RemoveFromList => Task::Change(ListChange::RemoveCurrent),
        Action::MarkedRemoveFromList => Task::Change(ListChange::RemoveMarked),
        Action::ShuffleAll => Task::Change(ListChange::ShuffleAll),
        Action::ShuffleGroups => Task::Change(ListChange::ShuffleGroups),
        Action::OpenFile => Task::AskGuarded(Request::OpenFile),
        Action::OpenFolder => Task::AskGuarded(Request::OpenFolder),
        Action::PasteImage => Task::AskGuarded(Request::PasteImage),
        Action::BookmarkLoad => Task::AskGuarded(Request::BookmarkLoad),
        Action::NavigateToPage => Task::AskGuarded(Request::NavigateToPage),
        Action::DeleteFile => Task::Ask(Request::DeleteFile),
        Action::MoveFile => Task::Ask(Request::MoveFile),
        Action::CopyFile => Task::Ask(Request::CopyFile),
        Action::MarkedDelete => Task::Ask(Request::MarkedDelete),
        Action::MarkedMove => Task::Ask(Request::MarkedMove),
        Action::MarkedCopy => Task::Ask(Request::MarkedCopy),
        Action::MarkedCopyNames => Task::Ask(Request::MarkedCopyNames),
        Action::CopyFileName => Task::Ask(Request::CopyFileName),
        Action::NewWindow => Task::Ask(Request::NewWindow),
        Action::OpenContainingFolder => Task::Ask(Request::OpenContainingFolder),
        Action::OpenExeFolder => Task::Ask(Request::OpenExeFolder),
        Action::OpenBookmarkFolder => Task::Ask(Request::OpenBookmarkFolder),
        Action::OpenSpiFolder => Task::Ask(Request::OpenSpiFolder),
        Action::OpenTempFolder => Task::Ask(Request::OpenTempFolder),
        Action::ShowImageInfo => Task::Ask(Request::ShowImageInfo),
        Action::ShowHelp => Task::Ask(Request::ShowHelp),
        Action::CheckUpdate => Task::Ask(Request::CheckUpdate),
        Action::RegisterShell => Task::Ask(Request::RegisterShell),
        Action::UnregisterShell => Task::Ask(Request::UnregisterShell),
        Action::BookmarkSave => Task::Ask(Request::BookmarkSave),
        Action::Exit => Task::Ask(Request::Exit),
        Action::CloseAll => Task::CloseAll,
        Action::CopyImage => Task::AskOfImage(Request::CopyImage),
        Action::ExportJpg => Task::AskOfImage(Request::ExportJpg),
        Action::ExportBmp => Task::AskOfImage(Request::ExportBmp),
        Action::ExportPng => Task::AskOfImage(Request::ExportPng),
        Action::RotateArbitrary => Task::AskOfImage(Request::RotateArbitrary),
        Action::Resize => Task::AskOfImage(Request::Resize),
        Action::Fill => Task::AskOfImage(Request::Fill),
        Action::Levels => Task::AskOfImage(Request::Levels),
        Action::Gamma => Task::AskOfImage(Request::Gamma),
        Action::BrightnessContrast => Task::AskOfImage(Request::BrightnessContrast),
        Action::Mosaic => Task::AskOfImage(Request::Mosaic),
        Action::GaussianBlur => Task::AskOfImage(Request::GaussianBlur),
        Action::UnsharpMask => Task::AskOfImage(Request::UnsharpMask),
        Action::DeselectSelection => Task::Deselect,
        Action::Crop => Task::Crop,
        Action::FlipHorizontal => Task::Transform(Turn::Mirror),
        Action::FlipVertical => Task::Transform(Turn::Flip),
        Action::Rotate180 => Task::Transform(Turn::Half),
        Action::Rotate90CW => Task::Transform(Turn::Right),
        Action::Rotate90CCW => Task::Transform(Turn::Left),
        Action::InvertColors => Task::Filter(PlainFilter::InvertColors),
        Action::GrayscaleSimple => Task::Filter(PlainFilter::GrayscaleSimple),
        Action::GrayscaleStrict => Task::Filter(PlainFilter::GrayscaleStrict),
        Action::ApplyAlpha => Task::Filter(PlainFilter::ApplyAlpha),
        Action::Blur => Task::Filter(PlainFilter::Blur),
        Action::BlurStrong => Task::Filter(PlainFilter::BlurStrong),
        Action::Sharpen => Task::Filter(PlainFilter::Sharpen),
        Action::SharpenStrong => Task::Filter(PlainFilter::SharpenStrong),
        Action::MedianFilter => Task::Filter(PlainFilter::MedianFilter),
        Action::PFilterToggle => Task::ToggleFilters,
        Action::PFilterFlipH => Task::ToggleFilter(FilterKind::FlipHorizontal),
        Action::PFilterFlipV => Task::ToggleFilter(FilterKind::FlipVertical),
        Action::PFilterRotate180 => Task::ToggleFilter(FilterKind::Rotate180),
        Action::PFilterRotate90CW => Task::ToggleFilter(FilterKind::Rotate90CW),
        Action::PFilterRotate90CCW => Task::ToggleFilter(FilterKind::Rotate90CCW),
        Action::PFilterGrayscaleSimple => Task::ToggleFilter(FilterKind::GrayscaleSimple),
        Action::PFilterGrayscaleStrict => Task::ToggleFilter(FilterKind::GrayscaleStrict),
        Action::PFilterBlur => Task::ToggleFilter(FilterKind::Blur),
        Action::PFilterBlurStrong => Task::ToggleFilter(FilterKind::BlurStrong),
        Action::PFilterSharpen => Task::ToggleFilter(FilterKind::Sharpen),
        Action::PFilterSharpenStrong => Task::ToggleFilter(FilterKind::SharpenStrong),
        Action::PFilterMedianFilter => Task::ToggleFilter(FilterKind::MedianFilter),
        Action::PFilterInvertColors => Task::ToggleFilter(FilterKind::InvertColors),
        Action::PFilterApplyAlpha => Task::ToggleFilter(FilterKind::ApplyAlpha),
        Action::PFilterLevels => Task::RemoveOrAsk(FilterKind::Levels),
        Action::PFilterGamma => Task::RemoveOrAsk(FilterKind::Gamma),
        Action::PFilterBrightnessContrast => Task::RemoveOrAsk(FilterKind::BrightnessContrast),
        Action::PFilterGaussianBlur => Task::RemoveOrAsk(FilterKind::GaussianBlur),
        Action::PFilterUnsharpMask => Task::RemoveOrAsk(FilterKind::UnsharpMask),
        Action::ToggleMenuBar => Task::ToggleMenuBar,
        Action::ToggleFileList => Task::ToggleFileList,
        Action::SlideshowToggle => Task::Slide(SlideChange::Toggle),
        Action::SlideshowFaster => Task::Slide(SlideChange::Adjust((-500) as i32)),
        Action::SlideshowSlower => Task::Slide(SlideChange::Adjust(500)),
    }
}

/// What an action amounts to.
pub fn task_of(action: Action) -> (r: Task)
    ensures
        r == spec_task_of(action),
{
    match action {
        Action::NavigateBack => Task::Move(Move::By(-1)),
        Action::NavigateForward => Task::Move(Move::By(1)),
        Action::Navigate1Back => Task::Move(Move::By(-1)),
        Action::Navigate1Forward => Task::Move(Move::By(1)),
        Action::Navigate5Back => Task::Move(Move::By(-5)),
        Action::Navigate5Forward => Task::Move(Move::By(5)),
        Action::Navigate50Back => Task::Move(Move::By(-50)),
        Action::Navigate50Forward => Task::Move(Move::By(50)),
        Action::NavigateFirst => Task::Move(Move::First),
        Action::NavigateLast => Task::Move(Move::Last),
        Action::NavigatePrevMark => Task::Move(Move::PrevMark),
        Action::NavigateNextMark => Task::Move(Move::NextMark),
        Action::NavigatePrevFolder => Task::Move(Move::PrevFolder),
        Action::NavigateNextFolder => Task::Move(Move::NextFolder),
        Action::SortNavigateBack => Task::Move(Move::SortBack),
        Action::SortNavigateForward => Task::Move(Move::SortForward),
        Action::Reload => Task::Move(Move::Reload),
        Action::DisplayAutoShrink => Task::View(ViewChange::DisplayAutoShrink),
        Action::DisplayAutoFit => Task::View(ViewChange::DisplayAutoFit),
        Action::ZoomIn => Task::View(ViewChange::ZoomIn),
        Action::ZoomOut => Task::View(ViewChange::ZoomOut),
        Action::ZoomReset => Task::View(ViewChange::ZoomReset),
        Action::ToggleMargin => Task::View(ViewChange::ToggleMargin),
        Action::CycleAlphaBackground => Task::View(ViewChange::CycleAlphaBackground),
        Action::ToggleFullscreen => Task::ToggleFullscreen,
        Action::Minimize => Task::Ask(Request::Minimize),
        Action::ToggleMaximize => Task::ToggleMaximize,
        Action::ToggleAlwaysOnTop => Task::ToggleAlwaysOnTop,
        Action::ToggleCursorHide => Task::Ask(Request::ToggleCursorHide),
        Action::MarkSet => Task::Mark(MarkChange::Mark),
        Action::MarkUnset => Task::Mark(MarkChange::Unmark),
        Action::MarkInvertAll => Task::Mark(MarkChange::InvertAll),
        Action::MarkInvertToHere => Task::Mark(MarkChange::InvertToHere),
        Action::RemoveFromList => Task::Change(ListChange::RemoveCurrent),
        Action::MarkedRemoveFromList => Task::Change(ListChange::RemoveMarked),
        Action::ShuffleAll => Task::Change(ListChange::ShuffleAll),
        Action::ShuffleGroups => Task::Change(ListChange::ShuffleGroups),
        Action::OpenFile => Task::AskGuarded(Request::OpenFile),
        Action::OpenFolder => Task::AskGuarded(Request::OpenFolder),
        Action::PasteImage => Task::AskGuarded(Request::PasteImage),
        Action::BookmarkLoad => Task::AskGuarded(Request::BookmarkLoad),
        Action::NavigateToPage => Task::AskGuarded(Request::NavigateToPage),
        Action::DeleteFile => Task::Ask(Request::DeleteFile),
        Action::MoveFile => Task::Ask(Request::MoveFile),
        Action::CopyFile => Task::Ask(Request::CopyFile),
        Action::MarkedDelete => Task::Ask(Request::MarkedDelete),
        Action::MarkedMove => Task::Ask(Request::MarkedMove),
        Action::MarkedCopy => Task::Ask(Request::MarkedCopy),
        Action::MarkedCopyNames => Task::Ask(Request::MarkedCopyNames),
        Action::CopyFileName => Task::Ask(Request::CopyFileName),
        Action::NewWindow => Task::Ask(Request::NewWindow),
        Action::OpenContainingFolder => Task::Ask(Request::OpenContainingFolder),
        Action::OpenExeFolder => Task::Ask(Request::OpenExeFolder),
        Action::OpenBookmarkFolder => Task::Ask(Request::OpenBookmarkFolder),
        Action::OpenSpiFolder => Task::Ask(Request::OpenSpiFolder),
        Action::OpenTempFolder => Task::Ask(Request::OpenTempFolder),
        Action::ShowImageInfo => Task::Ask(Request::ShowImageInfo),
        Action::ShowHelp => Task::Ask(Request::ShowHelp),
        Action::CheckUpdate => Task::Ask(Request::CheckUpdate),
        Action::RegisterShell => Task::Ask(Request::RegisterShell),
        Action::UnregisterShell => Task::Ask(Request::UnregisterShell),
        Action::BookmarkSave => Task::Ask(Request::BookmarkSave),
        Action::Exit => Task::Ask(Request::Exit),
        Action::CloseAll => Task::CloseAll,
        Action::CopyImage => Task::AskOfImage(Request::CopyImage),
        Action::ExportJpg => Task::AskOfImage(Request::ExportJpg),
        Action::ExportBmp => Task::AskOfImage(Request::ExportBmp),
        Action::ExportPng => Task::AskOfImage(Request::ExportPng),
        Action::RotateArbitrary => Task::AskOfImage(Request::RotateArbitrary),
        Action::Resize => Task::AskOfImage(Request::Resize),
        Action::Fill => Task::AskOfImage(Request::Fill),
        Action::Levels => Task::AskOfImage(Request::Levels),
        Action::Gamma => Task::AskOfImage(Request::Gamma),
        Action::BrightnessContrast => Task::AskOfImage(Request::BrightnessContrast),
        Action::Mosaic => Task::AskOfImage(Request::Mosaic),
        Action::GaussianBlur => Task::AskOfImage(Request::GaussianBlur),
        Action::UnsharpMask => Task::AskOfImage(Request::UnsharpMask),
        Action::DeselectSelection => Task::Deselect,
        Action::Crop => Task::Crop,
        Action::FlipHorizontal => Task::Transform(Turn::Mirror),
        Action::FlipVertical => Task::Transform(Turn::Flip),
        Action::Rotate180 => Task::Transform(Turn::Half),
        Action::Rotate90CW => Task::Transform(Turn::Right),
        Action::Rotate90CCW => Task::Transform(Turn::Left),
        Action::InvertColors => Task::Filter(PlainFilter::InvertColors),
        Action::GrayscaleSimple => Task::Filter(PlainFilter::GrayscaleSimple),
        Action::GrayscaleStrict => Task::Filter(PlainFilter::GrayscaleStrict),
        Action::ApplyAlpha => Task::Filter(PlainFilter::ApplyAlpha),
        Action::Blur => Task::Filter(PlainFilter::Blur),
        Action::BlurStrong => Task::Filter(PlainFilter::BlurStrong),
        Action::Sharpen => Task::Filter(PlainFilter::Sharpen),
        Action::SharpenStrong => Task::Filter(PlainFilter::SharpenStrong),
        Action::MedianFilter => Task::Filter(PlainFilter::MedianFilter),
        Action::PFilterToggle => Task::ToggleFilters,
        Action::PFilterFlipH => Task::ToggleFilter(FilterKind::FlipHorizontal),
        Action::PFilterFlipV => Task::ToggleFilter(FilterKind::FlipVertical),
        Action::PFilterRotate180 => Task::ToggleFilter(FilterKind::Rotate180),
        Action::PFilterRotate90CW => Task::ToggleFilter(FilterKind::Rotate90CW),
        Action::PFilterRotate90CCW => Task::ToggleFilter(FilterKind::Rotate90CCW),
        Action::PFilterGrayscaleSimple => Task::ToggleFilter(FilterKind::GrayscaleSimple),
        Action::PFilterGrayscaleStrict => Task::ToggleFilter(FilterKind::GrayscaleStrict),
        Action::PFilterBlur => Task::ToggleFilter(FilterKind::Blur),
        Action::PFilterBlurStrong => Task::ToggleFilter(FilterKind::BlurStrong),
        Action::PFilterSharpen => Task::ToggleFilter(FilterKind::Sharpen),
        Action::PFilterSharpenStrong => Task::ToggleFilter(FilterKind::SharpenStrong),
        Action::PFilterMedianFilter => Task::ToggleFilter(FilterKind::MedianFilter),
        Action::PFilterInvertColors => Task::ToggleFilter(FilterKind::InvertColors),
        Action::PFilterApplyAlpha => Task::ToggleFilter(FilterKind::ApplyAlpha),
        Action::PFilterLevels => Task::RemoveOrAsk(FilterKind::Levels),
        Action::PFilterGamma => Task::RemoveOrAsk(FilterKind::Gamma),
        Action::PFilterBrightnessContrast => Task::RemoveOrAsk(FilterKind::BrightnessContrast),
        Action::PFilterGaussianBlur => Task::RemoveOrAsk(FilterKind::GaussianBlur),
        Action::PFilterUnsharpMask => Task::RemoveOrAsk(FilterKind::UnsharpMask),
        Action::ToggleMenuBar => Task::ToggleMenuBar,
        Action::ToggleFileList => Task::ToggleFileList,
        Action::SlideshowToggle => Task::Slide(SlideChange::Toggle),
        Action::SlideshowFaster => Task::Slide(SlideChange::Adjust(-500)),
        Action::SlideshowSlower => Task::Slide(SlideChange::Adjust(500)),
    }
}

} // verus!
