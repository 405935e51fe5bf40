//! What the window does for each action, message and event.

use vstd::prelude::*;

pub mod action;
pub mod action_laws;
pub mod dialogs;
pub mod edit;
pub mod edit_laws;
pub mod events;
pub mod file_laws;
pub mod files;
pub mod laws;
pub mod menu;
pub mod messages;
pub mod show_laws;
pub mod task_laws;
pub mod title;

use crate::document;
use crate::document::types::DocumentError;
use crate::document::{list, loading};
use crate::document::{DocView, Document};
use crate::file_list;
use crate::file_list::{ListView, NavigationDirection};
use crate::filter;
use crate::filter::transform;
use crate::image::DecodedImage;
use crate::persistent_filter;
use crate::persistent_filter::{FilterKind, FilterOperation, PersistentFilter};
use crate::selection::PixelRect;
use action::{
    task_of, Action, ListChange, MarkChange, Move, Request, SlideChange, Task, ViewChange,
};

verus! {

/// The slide show.
#[derive(Debug, Clone, Copy, PartialEq, Eq, Structural)]
pub struct Slideshow {
    pub active: bool,
    /// Milliseconds for each image.
    pub interval_ms: u32,
    /// Start again after the last image.
    pub repeat: bool,
}

/// What the system is to do for the window, in order.
pub enum Command {
    /// Carry out the document's effects and take its events.
    ProcessEvents,
    /// Draw the image again.
    Invalidate,
    UpdateTitle,
    /// Show an error in the title.
    ShowError(DocumentError),
    /// Draw at once.
    RepaintNow,
    /// Change how images are laid out.
    View(ViewChange),
    /// Call again after so many milliseconds, and again.
    SetTimer(u32),
    KillTimer,
    ShowMenu(bool),
    /// Keep the window above all others, or not.
    TopMost(bool),
    /// Fill the screen, or give it back.
    Fullscreen { enter: bool, on_top: bool },
    ShowCursor,
    ToggleMaximize,
    TogglePanel,
    /// Hide or show the panel, which counts as visible all the while.
    HidePanel,
    ShowPanel,
    /// The panel has so many lines.
    PanelCount(usize),
    PanelSelect(usize),
    /// Draw a line of the panel again.
    PanelItem(usize),
    /// Note anew which images are at hand.
    RefreshCached,
    Ask(Request),
    /// Ask for the parameters of a filter for every image.
    AskFilter(FilterKind),
}

/// The window. What is to be done by the system is noted as commands, to be taken
/// and carried out in order.
pub struct AppWindow {
    pub document: Document,
    pub selection: Option<PixelRect>,
    /// The selection is being drawn.
    pub dragging: bool,
    pub fullscreen: bool,
    pub always_on_top: bool,
    pub menu_visible: bool,
    pub panel_visible: bool,
    pub slideshow: Slideshow,
    pub commands: Vec<Command>,
}

/// What a window holds.
#[verifier::ext_equal]
pub struct WinView {
    pub doc: DocView,
    pub selection: Option<PixelRect>,
    pub dragging: bool,
    pub fullscreen: bool,
    pub always_on_top: bool,
    pub menu_visible: bool,
    pub panel_visible: bool,
    pub slideshow: Slideshow,
    pub commands: Seq<Command>,
}

impl View for AppWindow {
    type V = WinView;

    open spec fn view(&self) -> WinView {
        WinView {
            doc: self.document@,
            selection: self.selection,
            dragging: self.dragging,
            fullscreen: self.fullscreen,
            always_on_top: self.always_on_top,
            menu_visible: self.menu_visible,
            panel_visible: self.panel_visible,
            slideshow: self.slideshow,
            commands: self.commands@,
        }
    }
}

/// One more command.
pub open spec fn noted(w: WinView, command: Command) -> WinView {
    WinView { commands: w.commands.push(command), ..w }
}

/// The selected region.
pub open spec fn region_of(selection: &Option<PixelRect>) -> Option<&PixelRect> {
    match selection {
        Some(rect) => Some(rect),
        None => None,
    }
}

/// Nothing is selected.
pub open spec fn deselected(w: WinView) -> WinView {
    WinView { selection: None, dragging: false, ..w }
}

/// An edit that is not saved is given up.
pub open spec fn edit_dropped(d: DocView) -> DocView {
    if d.edit matches Some(session) && session.modified {
        DocView { edit: None, ..d }
    } else {
        d
    }
}

/// An edit that is not saved is given up, and the selection with it.
pub open spec fn edit_guarded(w: WinView) -> WinView {
    if w.doc.edit matches Some(session) && session.modified {
        deselected(WinView { doc: edit_dropped(w.doc), ..w })
    } else {
        w
    }
}

/// Nothing is selected, and an edit that is not saved is given up.
pub open spec fn guarded(w: WinView) -> WinView {
    deselected(WinView { doc: edit_dropped(w.doc), ..w })
}

/// The slide show is stopped.
pub open spec fn stopped(w: WinView) -> WinView {
    if w.slideshow.active {
        noted(
            (WinView { slideshow: Slideshow { active: false, ..w.slideshow }, ..w }),
            Command::KillTimer,
        )
    } else {
        w
    }
}

/// The document changed, and its events are to be taken.
pub open spec fn with_doc(w: WinView, doc: DocView) -> WinView {
    noted((WinView { doc, ..w }), Command::ProcessEvents)
}

/// What a move does to the document.
pub open spec fn moves(before: DocView, how: Move, after: DocView) -> bool {
    let v = before.list;
    match how {
        Move::By(offset) => {
            let (l, m) = file_list::moved_by(v, offset as int);
            list::navigated(before, list::towards(offset as int), l, m, after)
        },
        Move::First => {
            let (l, m) = file_list::moved_to(v, 0);
            list::navigated(before, NavigationDirection::Forward, l, m, after)
        },
        Move::Last => {
            let (l, m) = file_list::moved_to(v, v.files.len() - 1);
            list::navigated(before, NavigationDirection::Backward, l, m, after)
        },
        Move::PrevMark => {
            let (l, m) = file_list::moved_to_mark(v, -1);
            list::navigated(before, NavigationDirection::Backward, l, m, after)
        },
        Move::NextMark => {
            let (l, m) = file_list::moved_to_mark(v, 1);
            list::navigated(before, NavigationDirection::Forward, l, m, after)
        },
        Move::PrevFolder => {
            let (l, m) = file_list::moved_by_group(v, -1);
            list::navigated(before, NavigationDirection::Forward, l, m, after)
        },
        Move::NextFolder => {
            let (l, m) = file_list::moved_by_group(v, 1);
            list::navigated(before, NavigationDirection::Forward, l, m, after)
        },
        Move::SortBack => exists|l: ListView, m: bool| #[trigger]
            file_list::moved_by_order(v, -1, v.order, l, m) && list::navigated(
                before,
                NavigationDirection::Backward,
                l,
                m,
                after,
            ),
        Move::SortForward => exists|l: ListView, m: bool| #[trigger]
            file_list::moved_by_order(v, 1, v.order, l, m) && list::navigated(
                before,
                NavigationDirection::Forward,
                l,
                m,
                after,
            ),
        Move::Reload => loading::loads(document::cache_dropped(before), after),
    }
}

/// What a change of marks does to the document.
pub open spec fn marks(before: DocView, how: MarkChange, after: DocView) -> bool {
    match how {
        MarkChange::Mark => match before.list.current {
            None => after == before,
            Some(i) => {
                let d = DocView { list: file_list::with_mark(before.list, i, true), ..before };
                let (l, m) = file_list::moved_by(d.list, 1);
                list::navigated(d, NavigationDirection::Forward, l, m, after)
            },
        },
        MarkChange::Unmark => after == (match before.list.current {
            None => before,
            Some(i) => DocView { list: file_list::with_mark(before.list, i, false), ..before },
        }),
        MarkChange::InvertAll => after == (DocView {
            list: ListView {
                files: file_list::marks_inverted(
                    before.list.files,
                    before.list.files.len() as int,
                ),
                ..before.list
            },
            ..before
        }),
        MarkChange::InvertToHere => after == (DocView {
            list: ListView {
                files: file_list::marks_inverted(
                    before.list.files,
                    match before.list.current {
                        Some(i) => i + 1,
                        None => 0,
                    },
                ),
                ..before.list
            },
            ..before
        }),
    }
}

/// The panel shows the entry anew, where there is one and the panel is visible.
pub open spec fn item_shown(w: WinView, index: Option<int>) -> WinView {
    match index {
        Some(i) if w.panel_visible => noted(w, Command::PanelItem(i as usize)),
        _ => w,
    }
}

/// The panel has the list's lines and selects the position.
pub open spec fn panel_filled(w: WinView) -> WinView {
    let counted = noted(w, Command::PanelCount(w.doc.list.files.len() as usize));
    match w.doc.list.current {
        Some(i) => noted(counted, Command::PanelSelect(i as usize)),
        None => counted,
    }
}

/// The panel is filled anew, where it is visible.
pub open spec fn panel_synced(w: WinView) -> WinView {
    if w.panel_visible {
        panel_filled(w)
    } else {
        w
    }
}

/// What follows a change of marks in the window.
pub open spec fn marks_shown(before: WinView, how: MarkChange, doc: DocView) -> WinView {
    match how {
        MarkChange::Mark => item_shown(with_doc(before, doc), before.doc.list.current),
        MarkChange::Unmark => item_shown(
            (WinView { doc, ..before }),
            doc.list.current,
        ),
        _ => panel_synced(WinView { doc, ..before }),
    }
}

/// What a change of the list does to the document.
pub open spec fn changes(before: DocView, how: ListChange, after: DocView) -> bool {
    match how {
        ListChange::RemoveCurrent => match before.list.current {
            None => after == before,
            Some(i) => list::list_changed(
                (DocView { list: file_list::without(before.list, i), ..before }),
                after,
            ),
        },
        ListChange::RemoveMarked => if file_list::marked_number(before.list) == 0 {
            after == before
        } else {
            list::list_changed(
                (DocView { list: file_list::unmarked_only(before.list), ..before }),
                after,
            )
        },
        ListChange::ShuffleAll => exists|state: u64|
            state != 0 && list::list_changed(
                (DocView {
                    list: #[trigger] file_list::shuffled_list(before.list, state),
                    ..before
                }),
                after,
            ),
        ListChange::ShuffleGroups => exists|state: u64|
            state != 0 && list::list_changed(
                (DocView {
                    list: #[trigger] file_list::group_shuffled_list(before.list, state),
                    ..before
                }),
                after,
            ),
    }
}

/// The interval after a change, from half a second to half a minute.
pub open spec fn adjusted(interval: int, delta: int) -> int {
    if interval + delta < 500 {
        500
    } else if interval + delta > 30000 {
        30000
    } else {
        interval + delta
    }
}

/// What a change of the slide show does.
pub open spec fn slid(w: WinView, how: SlideChange) -> WinView {
    match how {
        SlideChange::Toggle => if w.slideshow.active {
            stopped(w)
        } else if w.doc.list.files.len() < 2 {
            w
        } else {
            noted(
                (WinView { slideshow: Slideshow { active: true, ..w.slideshow }, ..w }),
                Command::SetTimer(w.slideshow.interval_ms),
            )
        },
        SlideChange::Adjust(delta) => {
            let interval_ms = adjusted(w.slideshow.interval_ms as int, delta as int) as u32;
            let changed = WinView { slideshow: Slideshow { interval_ms, ..w.slideshow }, ..w };
            if w.slideshow.active {
                noted(changed, Command::SetTimer(interval_ms))
            } else {
                changed
            }
        },
    }
}

/// The filters without those of a kind, where there are any.
pub open spec fn filter_removed(
    before: PersistentFilter,
    kind: FilterKind,
    after: PersistentFilter,
) -> bool {
    &&& after.operations@ == before.operations@.filter(
        |o: FilterOperation| o.spec_kind() != kind,
    )
    &&& after.enabled == before.enabled
    &&& after.generation == before.generation.wrapping_add(1)
}

/// A filter is added at the end.
pub open spec fn filter_added(
    before: PersistentFilter,
    op: FilterOperation,
    after: PersistentFilter,
) -> bool {
    &&& after.operations@ == before.operations@.push(op)
    &&& after.enabled == before.enabled
    &&& after.generation == before.generation.wrapping_add(1)
}

/// The filters changed, and the images are got anew.
pub open spec fn refiltered(before: DocView, filter: PersistentFilter, after: DocView) -> bool {
    loading::loads(document::cache_dropped(DocView { filter, ..before }), after)
}

/// The filter of a kind without parameters.
pub open spec fn plain_operation(kind: FilterKind) -> FilterOperation {
    match kind {
        FilterKind::FlipHorizontal => FilterOperation::FlipHorizontal,
        FilterKind::FlipVertical => FilterOperation::FlipVertical,
        FilterKind::Rotate180 => FilterOperation::Rotate180,
        FilterKind::Rotate90CW => FilterOperation::Rotate90CW,
        FilterKind::Rotate90CCW => FilterOperation::Rotate90CCW,
        FilterKind::GrayscaleSimple => FilterOperation::GrayscaleSimple,
        FilterKind::GrayscaleStrict => FilterOperation::GrayscaleStrict,
        FilterKind::Blur => FilterOperation::Blur,
        FilterKind::BlurStrong => FilterOperation::BlurStrong,
        FilterKind::Sharpen => FilterOperation::Sharpen,
        FilterKind::SharpenStrong => FilterOperation::SharpenStrong,
        FilterKind::MedianFilter => FilterOperation::MedianFilter,
        FilterKind::ApplyAlpha => FilterOperation::ApplyAlpha,
        _ => FilterOperation::InvertColors,
    }
}

/// What putting a filter for every image in or out does.
pub open spec fn filter_toggled(before: DocView, kind: FilterKind, after: DocView) -> bool {
    exists|f: PersistentFilter|
        {
            &&& if persistent_filter::has_kind(before.filter.operations@, kind) {
                filter_removed(before.filter, kind, f)
            } else {
                filter_added(before.filter, plain_operation(kind), f)
            }
            &&& #[trigger] refiltered(before, f, after)
        }
}

/// What filling the screen, or giving it back, does.
pub open spec fn fullscreen_toggled(w: WinView) -> WinView {
    let enter = !w.fullscreen;
    let changed = noted(
        (WinView { fullscreen: enter, ..w }),
        Command::Fullscreen { enter, on_top: w.always_on_top },
    );
    if enter {
        let hidden = noted(changed, Command::ShowMenu(false));
        if w.panel_visible {
            noted(hidden, Command::HidePanel)
        } else {
            hidden
        }
    } else {
        let shown = noted(changed, Command::ShowCursor);
        let menu = if w.menu_visible {
            noted(shown, Command::ShowMenu(true))
        } else {
            shown
        };
        if w.panel_visible {
            noted(menu, Command::ShowPanel)
        } else {
            menu
        }
    }
}

/// What showing or hiding the panel does.
pub open spec fn panel_toggled(w: WinView) -> WinView {
    let changed = noted(
        (WinView { panel_visible: !w.panel_visible, ..w }),
        Command::TogglePanel,
    );
    noted(
        if changed.panel_visible {
            noted(panel_filled(changed), Command::RefreshCached)
        } else {
            changed
        },
        Command::RepaintNow,
    )
}

/// What a move does in the window.
pub open spec fn move_done(w: WinView, how: Move, after: WinView) -> bool {
    exists|doc: DocView| #[trigger]
        moves(guarded(w).doc, how, doc) && after == with_doc(guarded(w), doc)
}

/// What a change of marks does in the window.
pub open spec fn mark_done(w: WinView, how: MarkChange, after: WinView) -> bool {
    exists|doc: DocView| #[trigger] marks(w.doc, how, doc) && after == marks_shown(w, how, doc)
}

/// What a change of the list does in the window.
pub open spec fn change_done(w: WinView, how: ListChange, after: WinView) -> bool {
    exists|doc: DocView| #[trigger] changes(w.doc, how, doc) && after == with_doc(w, doc)
}

/// What turning the image does in the window.
pub open spec fn transform_done(w: WinView, how: transform::Turn, after: WinView) -> bool {
    match w.doc.image {
        Some(image) => exists|result: DecodedImage| #[trigger]
            transform::turned(image, how, result) && edit::edited(deselected(w), result, after),
        None => after == w,
    }
}

/// What a filter does in the window.
pub open spec fn filter_done(w: WinView, kind: action::PlainFilter, after: WinView) -> bool {
    match w.doc.image {
        Some(image) => exists|result: DecodedImage| #[trigger]
            edit::plain_makes(kind, image, region_of(&w.selection), result) && edit::edited(
                w,
                result,
                after,
            ),
        None => after == w,
    }
}

/// What cropping does in the window.
pub open spec fn crop_done(w: WinView, after: WinView) -> bool {
    match (w.selection, w.doc.image) {
        (Some(rect), Some(image)) => exists|result: DecodedImage, mid: WinView|
            {
                &&& #[trigger] transform::cropped(image, rect, result)
                &&& #[trigger] edit::edited(deselected(w), result, mid)
                &&& after == noted(mid, Command::UpdateTitle)
            },
        _ => after == w,
    }
}

/// What putting the filters for every image in or out of use does.
pub open spec fn filters_toggled(w: WinView, after: WinView) -> bool {
    exists|f: PersistentFilter, doc: DocView|
        {
            &&& f.enabled == !w.doc.filter.enabled
            &&& f.operations == w.doc.filter.operations
            &&& f.generation == w.doc.filter.generation.wrapping_add(1)
            &&& #[trigger] refiltered(w.doc, f, doc)
            &&& after == with_doc(w, doc)
        }
}

/// What putting one filter for every image in or out does in the window.
pub open spec fn filter_switched(w: WinView, kind: FilterKind, after: WinView) -> bool {
    exists|doc: DocView| #[trigger]
        filter_toggled(w.doc, kind, doc) && after == with_doc(w, doc)
}

/// A filter for every image is taken out, or its parameters are asked for.
pub open spec fn removed_or_asked(w: WinView, kind: FilterKind, after: WinView) -> bool {
    if persistent_filter::has_kind(w.doc.filter.operations@, kind) {
        exists|f: PersistentFilter, doc: DocView|
            {
                &&& filter_removed(w.doc.filter, kind, f)
                &&& #[trigger] refiltered(w.doc, f, doc)
                &&& after == with_doc(w, doc)
            }
    } else {
        after == noted(w, Command::AskFilter(kind))
    }
}

/// The window after a change of the layout.
pub open spec fn view_changed(w: WinView, change: ViewChange) -> WinView {
    if (change == ViewChange::ZoomIn || change == ViewChange::ZoomOut) && w.doc.image is None {
        w
    } else {
        noted(noted(w, Command::View(change)), Command::Invalidate)
    }
}

/// The window after a task whose outcome is fixed.
pub open spec fn plainly_done(w: WinView, task: Task) -> WinView {
    match task {
        Task::View(change) => view_changed(w, change),
        Task::Slide(how) => slid(w, how),
        Task::Deselect => noted(
            noted(deselected(w), Command::Invalidate),
            Command::UpdateTitle,
        ),
        Task::CloseAll => noted(
            with_doc(guarded(w), list::closed(guarded(w).doc)),
            Command::UpdateTitle,
        ),
        Task::ToggleFullscreen => fullscreen_toggled(w),
        Task::ToggleMaximize => if w.fullscreen {
            w
        } else {
            noted(w, Command::ToggleMaximize)
        },
        Task::ToggleAlwaysOnTop => {
            let changed = WinView { always_on_top: !w.always_on_top, ..w };
            if w.fullscreen {
                changed
            } else {
                noted(changed, Command::TopMost(!w.always_on_top))
            }
        },
        Task::ToggleMenuBar => noted(
            (WinView { menu_visible: !w.menu_visible, ..w }),
            Command::ShowMenu(!w.menu_visible),
        ),
        Task::ToggleFileList => panel_toggled(w),
        Task::Ask(request) => noted(w, Command::Ask(request)),
        Task::AskGuarded(request) => noted(guarded(w), Command::Ask(request)),
        Task::AskOfImage(request) => if w.doc.image is Some {
            noted(w, Command::Ask(request))
        } else {
            w
        },
        _ => w,
    }
}

/// What a task does.
pub open spec fn performed(w: WinView, task: Task, after: WinView) -> bool {
    match task {
        Task::Move(how) => move_done(w, how, after),
        Task::Mark(how) => mark_done(w, how, after),
        Task::Change(how) => change_done(w, how, after),
        Task::Transform(how) => transform_done(w, how, after),
        Task::Filter(kind) => filter_done(w, kind, after),
        Task::Crop => crop_done(w, after),
        Task::ToggleFilters => filters_toggled(w, after),
        Task::ToggleFilter(kind) => filter_switched(w, kind, after),
        Task::RemoveOrAsk(kind) => removed_or_asked(w, kind, after),
        _ => after == plainly_done(w, task),
    }
}

/// What an action does. All but those of the slide show stop it first.
pub open spec fn executed(before: WinView, action: Action, after: WinView) -> bool {
    let task = action::spec_task_of(action);
    performed(
        if task is Slide {
            before
        } else {
            stopped(before)
        },
        task,
        after,
    )
}

fn plain_filter(kind: FilterKind) -> (r: FilterOperation)
    ensures
        r == plain_operation(kind),
        r.wf(),
{
    match kind {
        FilterKind::FlipHorizontal => FilterOperation::FlipHorizontal,
        FilterKind::FlipVertical => FilterOperation::FlipVertical,
        FilterKind::Rotate180 => FilterOperation::Rotate180,
        FilterKind::Rotate90CW => FilterOperation::Rotate90CW,
        FilterKind::Rotate90CCW => FilterOperation::Rotate90CCW,
        FilterKind::GrayscaleSimple => FilterOperation::GrayscaleSimple,
        FilterKind::GrayscaleStrict => FilterOperation::GrayscaleStrict,
        FilterKind::Blur => FilterOperation::Blur,
        FilterKind::BlurStrong => FilterOperation::BlurStrong,
        FilterKind::Sharpen => FilterOperation::Sharpen,
        FilterKind::SharpenStrong => FilterOperation::SharpenStrong,
        FilterKind::MedianFilter => FilterOperation::MedianFilter,
        FilterKind::ApplyAlpha => FilterOperation::ApplyAlpha,
        _ => FilterOperation::InvertColors,
    }
}

impl AppWindow {
    pub open spec fn wf(&self) -> bool {
        self@.doc.wf()
    }

    /// A window with the document. The menu is visible.
    pub fn new(document: Document, always_on_top: bool, interval_ms: u32, repeat: bool) -> (
        r: Self)
        ensures
            r@ == (WinView {
                doc: document@,
                selection: None,
                dragging: false,
                fullscreen: false,
                always_on_top,
                menu_visible: true,
                panel_visible: false,
                slideshow: Slideshow { active: false, interval_ms, repeat },
                commands: Seq::empty(),
            }),
    {
        AppWindow {
            document,
            selection: None,
            dragging: false,
            fullscreen: false,
            always_on_top,
            menu_visible: true,
            panel_visible: false,
            slideshow: Slideshow { active: false, interval_ms, repeat },
            commands: Vec::new(),
        }
    }

    /// Hands out the commands; none is left.
    pub fn take_commands(&mut self) -> (r: Vec<Command>)
        ensures
            r@ == old(self)@.commands,
            final(self)@ == (WinView { commands: Seq::empty(), ..old(self)@ }),
    {
        let mut taken: Vec<Command> = Vec::new();
        std::mem::swap(&mut self.commands, &mut taken);
        assert(self.commands@ =~= Seq::<Command>::empty());
        taken
    }

    pub(crate) fn note(&mut self, command: Command)
        ensures
            final(self)@ == noted(old(self)@, command),
    {
        self.commands.push(command);
    }

    pub(crate) fn deselect(&mut self)
        ensures
            final(self)@ == deselected(old(self)@),
    {
        self.selection = None;
        self.dragging = false;
    }

    /// Gives up an edit that is not saved, and the selection with it.
    pub fn guard_unsaved_edit(&mut self)
        requires
            old(self).wf(),
        ensures
            final(self).wf(),
            final(self)@ == edit_guarded(old(self)@),
    {
        if self.document.has_unsaved_edit() {
            self.document.discard_editing_session();
            self.deselect();
        }
    }

    /// Gives up an edit that is not saved, and the selection in any case, before
    /// another image is shown.
    pub fn leave_image(&mut self)
        requires
            old(self).wf(),
        ensures
            final(self).wf(),
            final(self)@ == guarded(old(self)@),
    {
        self.guard_unsaved_edit();
        self.deselect();
    }

    /// Stops the slide show.
    pub fn stop_slideshow(&mut self)
        ensures
            final(self)@ == stopped(old(self)@),
    {
        if !self.slideshow.active {
            return;
        }
        self.slideshow.active = false;
        self.note(Command::KillTimer);
    }

    fn perform_move(&mut self, how: Move)
        requires
            old(self).wf(),
        ensures
            final(self).wf(),
            move_done(old(self)@, how, final(self)@),
    {
        self.leave_image();
        let ghost w = self@;
        match how {
            Move::By(offset) => self.document.navigate_relative(offset),
            Move::First => self.document.navigate_first(),
            Move::Last => self.document.navigate_last(),
            Move::PrevMark => self.document.navigate_prev_mark(),
            Move::NextMark => self.document.navigate_next_mark(),
            Move::PrevFolder => self.document.navigate_prev_folder(),
            Move::NextFolder => self.document.navigate_next_folder(),
            Move::SortBack => self.document.sort_navigate_back(),
            Move::SortForward => self.document.sort_navigate_forward(),
            Move::Reload => self.document.reload(),
        }
        let ghost doc = self@.doc;
        assert(moves(w.doc, how, doc));
        self.note(Command::ProcessEvents);
        assert(self@ == with_doc(w, doc));
    }

    fn show_item(&mut self, index: Option<usize>)
        ensures
            final(self)@ == item_shown(
                old(self)@,
                match index {
                    Some(i) => Some(i as int),
                    None => None,
                },
            ),
    {
        match index {
            Some(i) => {
                if self.panel_visible {
                    self.note(Command::PanelItem(i));
                }
            },
            None => {},
        }
    }

    fn fill_panel(&mut self)
        ensures
            final(self)@ == panel_filled(old(self)@),
    {
        let count: usize = self.document.file_list.len();
        self.note(Command::PanelCount(count));
        match self.document.file_list.current_index() {
            Some(i) => self.note(Command::PanelSelect(i)),
            None => {},
        }
    }

    /// Fills the panel anew, where it is visible.
    pub fn sync_file_list_panel(&mut self)
        ensures
            final(self)@ == panel_synced(old(self)@),
    {
        if self.panel_visible {
            self.fill_panel();
        }
    }

    fn action_mark_set(&mut self)
        requires
            old(self).wf(),
        ensures
            final(self).wf(),
            mark_done(old(self)@, MarkChange::Mark, final(self)@),
    {
        let ghost w = self@;
        let index = self.document.file_list.current_index();
        self.document.mark_current();
        let ghost doc = self@.doc;
        assert(marks(w.doc, MarkChange::Mark, doc));
        self.note(Command::ProcessEvents);
        self.show_item(index);
        assert(self@ == marks_shown(w, MarkChange::Mark, doc));
    }

    fn action_mark_unset(&mut self)
        requires
            old(self).wf(),
        ensures
            final(self).wf(),
            mark_done(old(self)@, MarkChange::Unmark, final(self)@),
    {
        let ghost w = self@;
        self.document.unmark_current();
        let ghost doc = self@.doc;
        assert(marks(w.doc, MarkChange::Unmark, doc));
        let index = self.document.file_list.current_index();
        self.show_item(index);
        assert(self@ == marks_shown(w, MarkChange::Unmark, doc));
    }

    fn action_mark_invert_all(&mut self)
        requires
            old(self).wf(),
        ensures
            final(self).wf(),
            mark_done(old(self)@, MarkChange::InvertAll, final(self)@),
    {
        let ghost w = self@;
        self.document.invert_all_marks();
        let ghost doc = self@.doc;
        assert(marks(w.doc, MarkChange::InvertAll, doc));
        self.sync_file_list_panel();
        assert(self@ == marks_shown(w, MarkChange::InvertAll, doc));
    }

    fn action_mark_invert_to_here(&mut self)
        requires
            old(self).wf(),
        ensures
            final(self).wf(),
            mark_done(old(self)@, MarkChange::InvertToHere, final(self)@),
    {
        let ghost w = self@;
        self.document.invert_marks_to_here();
        let ghost doc = self@.doc;
        assert(marks(w.doc, MarkChange::InvertToHere, doc));
        self.sync_file_list_panel();
        assert(self@ == marks_shown(w, MarkChange::InvertToHere, doc));
    }

    fn perform_mark(&mut self, how: MarkChange)
        requires
            old(self).wf(),
        ensures
            final(self).wf(),
            mark_done(old(self)@, how, final(self)@),
    {
        match how {
            MarkChange::Mark => self.action_mark_set(),
            MarkChange::Unmark => self.action_mark_unset(),
            MarkChange::InvertAll => self.action_mark_invert_all(),
            MarkChange::InvertToHere => self.action_mark_invert_to_here(),
        }
    }

    fn perform_change(&mut self, how: ListChange)
        requires
            old(self).wf(),
        ensures
            final(self).wf(),
            change_done(old(self)@, how, final(self)@),
    {
        let ghost w = self@;
        match how {
            ListChange::RemoveCurrent => self.document.remove_current_from_list(),
            ListChange::RemoveMarked => self.document.remove_marked_from_list(),
            ListChange::ShuffleAll => self.document.shuffle_all(),
            ListChange::ShuffleGroups => self.document.shuffle_groups(),
        }
        let ghost doc = self@.doc;
        assert(changes(w.doc, how, doc));
        self.note(Command::ProcessEvents);
        assert(self@ == with_doc(w, doc));
    }

    fn perform_slide(&mut self, how: SlideChange)
        ensures
            final(self)@ == slid(old(self)@, how),
    {
        match how {
            SlideChange::Toggle => self.toggle_slideshow(),
            SlideChange::Adjust(delta) => self.adjust_slideshow_interval(delta),
        }
    }

    /// Starts or stops the slide show. It needs two images.
    pub fn toggle_slideshow(&mut self)
        ensures
            final(self)@ == slid(old(self)@, SlideChange::Toggle),
    {
        if self.slideshow.active {
            self.stop_slideshow();
        } else if self.document.file_list.len() >= 2 {
            self.slideshow.active = true;
            let interval: u32 = self.slideshow.interval_ms;
            self.note(Command::SetTimer(interval));
        }
    }

    /// Changes the slide show's interval, within bounds.
    pub fn adjust_slideshow_interval(&mut self, delta_ms: i32)
        ensures
            final(self)@ == slid(old(self)@, SlideChange::Adjust(delta_ms)),
            500 <= final(self)@.slideshow.interval_ms <= 30000,
    {
        let sum: i64 = self.slideshow.interval_ms as i64 + delta_ms as i64;
        let interval: u32 = if sum < 500 {
            500
        } else if sum > 30000 {
            30000
        } else {
            sum as u32
        };
        self.slideshow.interval_ms = interval;
        if self.slideshow.active {
            self.note(Command::SetTimer(interval));
        }
    }

    fn perform_transform(&mut self, how: transform::Turn)
        requires
            old(self).wf(),
        ensures
            final(self).wf(),
            transform_done(old(self)@, how, final(self)@),
    {
        let result = match &self.document.current_image {
            Some(image) => edit::turn(image, how),
            None => {
                return;
            },
        };
        self.replace_image(result);
    }

    fn perform_filter(&mut self, kind: action::PlainFilter)
        requires
            old(self).wf(),
        ensures
            final(self).wf(),
            filter_done(old(self)@, kind, final(self)@),
    {
        let region = self.selection;
        let result = match &self.document.current_image {
            Some(image) => edit::apply_plain(kind, image, region.as_ref()),
            None => {
                return;
            },
        };
        self.show_edit(result);
    }

    fn perform_crop(&mut self)
        requires
            old(self).wf(),
        ensures
            final(self).wf(),
            crop_done(old(self)@, final(self)@),
    {
        let rect = match self.selection {
            Some(rect) => rect,
            None => {
                return;
            },
        };
        let result = match &self.document.current_image {
            Some(image) => transform::crop(image, &rect),
            None => {
                return;
            },
        };
        self.replace_image(result);
        let ghost mid = self@;
        assert(edit::edited(deselected(old(self)@), result, mid));
        self.note(Command::UpdateTitle);
    }

    fn perform_toggle_filters(&mut self)
        requires
            old(self).wf(),
        ensures
            final(self).wf(),
            filters_toggled(old(self)@, final(self)@),
    {
        let ghost w = self@;
        self.document.persistent_filter.toggle_enabled();
        let ghost f = self@.doc.filter;
        self.document.on_persistent_filter_changed();
        let ghost doc = self@.doc;
        assert(refiltered(w.doc, f, doc));
        self.note(Command::ProcessEvents);
        assert(self@ == with_doc(w, doc));
    }

    /// Adds a filter for every image, or takes it out where it is there.
    fn toggle_persistent_filter(&mut self, kind: FilterKind)
        requires
            old(self).wf(),
        ensures
            final(self).wf(),
            filter_switched(old(self)@, kind, final(self)@),
    {
        let ghost w = self@;
        proof {
            if persistent_filter::has_kind(w.doc.filter.operations@, kind) {
                some_dropped(w.doc.filter.operations@, kind);
            } else {
                all_kept(w.doc.filter.operations@, kind);
            }
        }
        if !self.document.persistent_filter.remove_operation_type(kind) {
            self.document.persistent_filter.add_operation(plain_filter(kind));
        }
        let ghost f = self@.doc.filter;
        self.document.on_persistent_filter_changed();
        let ghost doc = self@.doc;
        assert(refiltered(w.doc, f, doc));
        assert(filter_toggled(w.doc, kind, doc));
        self.note(Command::ProcessEvents);
        assert(self@ == with_doc(w, doc));
    }

    fn remove_or_ask(&mut self, kind: FilterKind)
        requires
            old(self).wf(),
        ensures
            final(self).wf(),
            removed_or_asked(old(self)@, kind, final(self)@),
    {
        let ghost w = self@;
        if self.document.persistent_filter.has_operation(kind) {
            proof {
                some_dropped(w.doc.filter.operations@, kind);
            }
            let _ = self.document.persistent_filter.remove_operation_type(kind);
            let ghost f = self@.doc.filter;
            self.document.on_persistent_filter_changed();
            let ghost doc = self@.doc;
            assert(refiltered(w.doc, f, doc));
            self.note(Command::ProcessEvents);
            assert(self@ == with_doc(w, doc));
        } else {
            self.note(Command::AskFilter(kind));
        }
    }

    /// Adds a filter for every image, whose parameters were asked for.
    pub fn add_persistent_filter(&mut self, op: FilterOperation)
        requires
            old(self).wf(),
            op.wf(),
        ensures
            final(self).wf(),
            exists|f: PersistentFilter, doc: DocView|
                {
                    &&& filter_added(old(self)@.doc.filter, op, f)
                    &&& #[trigger] refiltered(old(self)@.doc, f, doc)
                    &&& final(self)@ == with_doc(old(self)@, doc)
                },
    {
        let ghost w = self@;
        self.document.persistent_filter.add_operation(op);
        let ghost f = self@.doc.filter;
        self.document.on_persistent_filter_changed();
        let ghost doc = self@.doc;
        assert(refiltered(w.doc, f, doc));
        self.note(Command::ProcessEvents);
        assert(self@ == with_doc(w, doc));
    }

    /// Fills the screen, or gives it back.
    pub fn toggle_fullscreen(&mut self)
        ensures
            final(self)@ == fullscreen_toggled(old(self)@),
    {
        let enter = !self.fullscreen;
        self.fullscreen = enter;
        let on_top = self.always_on_top;
        self.note(Command::Fullscreen { enter, on_top });
        if enter {
            self.note(Command::ShowMenu(false));
            if self.panel_visible {
                self.note(Command::HidePanel);
            }
        } else {
            self.note(Command::ShowCursor);
            if self.menu_visible {
                self.note(Command::ShowMenu(true));
            }
            if self.panel_visible {
                self.note(Command::ShowPanel);
            }
        }
    }

    fn toggle_file_list(&mut self)
        ensures
            final(self)@ == panel_toggled(old(self)@),
    {
        self.panel_visible = !self.panel_visible;
        self.note(Command::TogglePanel);
        if self.panel_visible {
            self.fill_panel();
            self.note(Command::RefreshCached);
        }
        self.note(Command::RepaintNow);
    }

    fn perform_view(&mut self, change: ViewChange)
        ensures
            final(self)@ == view_changed(old(self)@, change),
    {
        let zooms = change == ViewChange::ZoomIn || change == ViewChange::ZoomOut;
        if zooms && self.document.current_image.is_none() {
            return;
        }
        self.note(Command::View(change));
        self.note(Command::Invalidate);
    }

    fn perform_plain(&mut self, task: Task)
        requires
            old(self).wf(),
        ensures
            final(self).wf(),
            final(self)@ == plainly_done(old(self)@, task),
    {
        match task {
            Task::View(change) => self.perform_view(change),
            Task::Slide(how) => self.perform_slide(how),
            Task::Deselect => {
                self.deselect();
                self.note(Command::Invalidate);
                self.note(Command::UpdateTitle);
            },
            Task::CloseAll => {
                self.leave_image();
                self.document.close_all();
                self.note(Command::ProcessEvents);
                self.note(Command::UpdateTitle);
            },
            Task::ToggleFullscreen => self.toggle_fullscreen(),
            Task::ToggleMaximize => {
                if !self.fullscreen {
                    self.note(Command::ToggleMaximize);
                }
            },
            Task::ToggleAlwaysOnTop => {
                self.always_on_top = !self.always_on_top;
                if !self.fullscreen {
                    let on_top = self.always_on_top;
                    self.note(Command::TopMost(on_top));
                }
            },
            Task::ToggleMenuBar => {
                self.menu_visible = !self.menu_visible;
                let visible = self.menu_visible;
                self.note(Command::ShowMenu(visible));
            },
            Task::ToggleFileList => self.toggle_file_list(),
            Task::Ask(request) => self.note(Command::Ask(request)),
            Task::AskGuarded(request) => {
                self.leave_image();
                self.note(Command::Ask(request));
            },
            Task::AskOfImage(request) => {
                if self.document.current_image.is_some() {
                    self.note(Command::Ask(request));
                }
            },
            _ => {},
        }
    }

    fn perform(&mut self, task: Task)
        requires
            old(self).wf(),
        ensures
            final(self).wf(),
            performed(old(self)@, task, final(self)@),
    {
        match task {
            Task::Move(how) => self.perform_move(how),
            Task::Mark(how) => self.perform_mark(how),
            Task::Change(how) => self.perform_change(how),
            Task::Transform(how) => self.perform_transform(how),
            Task::Filter(kind) => self.perform_filter(kind),
            Task::Crop => self.perform_crop(),
            Task::ToggleFilters => self.perform_toggle_filters(),
            Task::ToggleFilter(kind) => self.toggle_persistent_filter(kind),
            Task::RemoveOrAsk(kind) => self.remove_or_ask(kind),
            _ => self.perform_plain(task),
        }
    }

    /// Does what an action asks for.
    pub fn execute_action(&mut self, action: Action)
        requires
            old(self).wf(),
        ensures
            final(self).wf(),
            executed(old(self)@, action, final(self)@),
    {
        let task = task_of(action);
        let slides = match task {
            Task::Slide(_) => true,
            _ => false,
        };
        if !slides {
            self.stop_slideshow();
        }
        self.perform(task);
    }
}

proof fn filter_is_shorter(ops: Seq<FilterOperation>, kind: FilterKind)
    ensures
        ops.filter(|o: FilterOperation| o.spec_kind() != kind).len() <= ops.len(),
    decreases ops.len(),
{
    reveal(Seq::filter);
    if ops.len() > 0 {
        filter_is_shorter(ops.drop_last(), kind);
    }
}

proof fn some_dropped(ops: Seq<FilterOperation>, kind: FilterKind)
    requires
        persistent_filter::has_kind(ops, kind),
    ensures
        ops.filter(|o: FilterOperation| o.spec_kind() != kind).len() < ops.len(),
    decreases ops.len(),
{
    reveal(Seq::filter);
    let i = choose|i: int| 0 <= i < ops.len() && (#[trigger] ops[i]).spec_kind() == kind;
    if i < ops.len() - 1 {
        assert(ops.drop_last()[i].spec_kind() == kind);
        some_dropped(ops.drop_last(), kind);
    } else {
        filter_is_shorter(ops.drop_last(), kind);
    }
}

/// Filters none of which is of a kind stay as they are without those of it.
pub proof fn all_kept(ops: Seq<FilterOperation>, kind: FilterKind)
    requires
        !persistent_filter::has_kind(ops, kind),
    ensures
        ops.filter(|o: FilterOperation| o.spec_kind() != kind) == ops,
    decreases ops.len(),
{
    reveal(Seq::filter);
    if ops.len() > 0 {
        assert(ops[ops.len() - 1].spec_kind() != kind);
        assert forall|i: int| 0 <= i < ops.len() - 1 implies (
        #[trigger] ops.drop_last()[i]).spec_kind() != kind by {
            assert(ops[i].spec_kind() != kind);
        }
        all_kept(ops.drop_last(), kind);
        assert(ops.drop_last().push(ops.last()) =~= ops);
    } else {
        assert(ops.filter(|o: FilterOperation| o.spec_kind() != kind) =~= ops);
    }
}

} // verus!
