//! Messages of the window system.

use vstd::prelude::*;

use super::action::Action;
use super::{AppWindow, Command, WinView};

verus! {

pub const WM_DESTROY: u32 = 0x0002;

pub const WM_SIZE: u32 = 0x0005;

pub const WM_PAINT: u32 = 0x000f;

pub const WM_ERASEBKGND: u32 = 0x0014;

pub const WM_SETCURSOR: u32 = 0x0020;

pub const WM_NOTIFY: u32 = 0x004e;

pub const WM_KEYDOWN: u32 = 0x0100;

pub const WM_SYSKEYDOWN: u32 = 0x0104;

pub const WM_COMMAND: u32 = 0x0111;

pub const WM_TIMER: u32 = 0x0113;

pub const WM_INITMENUPOPUP: u32 = 0x0117;

pub const WM_MOUSEMOVE: u32 = 0x0200;

pub const WM_LBUTTONDOWN: u32 = 0x0201;

pub const WM_LBUTTONUP: u32 = 0x0202;

pub const WM_LBUTTONDBLCLK: u32 = 0x0203;

pub const WM_MBUTTONUP: u32 = 0x0208;

pub const WM_MOUSEWHEEL: u32 = 0x020a;

pub const WM_DROPFILES: u32 = 0x0233;

/// The document has events.
pub const WM_DOCUMENT_EVENT: u32 = 0x8001;

pub const VK_ESCAPE: u16 = 0x1b;

pub const TIMER_ID_CURSOR_HIDE: u64 = 1;

pub const TIMER_ID_SLIDESHOW: u64 = 2;

/// The low word of a parameter.
pub open spec fn low_word(p: u64) -> int {
    p as int % 0x10000
}

/// The word above the low one.
pub open spec fn high_word(p: u64) -> int {
    p as int / 0x10000 % 0x10000
}

/// A word as a signed number.
pub open spec fn signed_word(w: int) -> int {
    if w < 0x8000 {
        w
    } else {
        w - 0x10000
    }
}

/// What a message calls for.
#[derive(Debug, Clone, Copy, PartialEq, Eq, Structural)]
pub enum Route {
    Paint,
    Resize { width: u32, height: u32 },
    /// The size is to be read from the window.
    ResizeToClient,
    /// The selection that is being drawn is given up.
    CancelDrag,
    /// A key; `system` tells whether the system has a use for it as well.
    Key { vk: u16, system: bool },
    /// The wheel turned, up or down.
    Wheel { up: bool },
    LeftDown { x: i16, y: i16 },
    LeftUp,
    LeftDoubleClick,
    MiddleClick,
    MouseMove { x: i16, y: i16, wake_cursor: bool },
    SetCursor,
    CursorTimer,
    SlideshowTimer,
    MenuPopup,
    MenuItem(u16),
    Notify,
    DropFiles,
    EraseBackground,
    Destroy,
    DocumentEvent,
    /// Done without doing anything.
    Ignore,
    /// The system's own answer.
    Default,
}

/// What a message calls for.
pub open spec fn route_of(w: WinView, msg: u32, wparam: u64, lparam: u64) -> Route {
    if msg == WM_PAINT {
        Route::Paint
    } else if msg == WM_SIZE {
        if low_word(lparam) == 0 && high_word(lparam) == 0 {
            Route::ResizeToClient
        } else {
            Route::Resize { width: low_word(lparam) as u32, height: high_word(lparam) as u32 }
        }
    } else if msg == WM_KEYDOWN || msg == WM_SYSKEYDOWN {
        if low_word(wparam) == VK_ESCAPE && w.dragging {
            Route::CancelDrag
        } else {
            Route::Key { vk: low_word(wparam) as u16, system: msg == WM_SYSKEYDOWN }
        }
    } else if msg == WM_MOUSEWHEEL {
        Route::Wheel { up: signed_word(high_word(wparam)) > 0 }
    } else if msg == WM_LBUTTONDOWN {
        Route::LeftDown {
            x: signed_word(low_word(lparam)) as i16,
            y: signed_word(high_word(lparam)) as i16,
        }
    } else if msg == WM_LBUTTONUP {
        Route::LeftUp
    } else if msg == WM_LBUTTONDBLCLK {
        Route::LeftDoubleClick
    } else if msg == WM_MBUTTONUP {
        Route::MiddleClick
    } else if msg == WM_MOUSEMOVE {
        Route::MouseMove {
            x: signed_word(low_word(lparam)) as i16,
            y: signed_word(high_word(lparam)) as i16,
            wake_cursor: w.fullscreen,
        }
    } else if msg == WM_SETCURSOR {
        Route::SetCursor
    } else if msg == WM_TIMER {
        if wparam == TIMER_ID_CURSOR_HIDE {
            Route::CursorTimer
        } else if wparam == TIMER_ID_SLIDESHOW {
            Route::SlideshowTimer
        } else {
            Route::Default
        }
    } else if msg == WM_INITMENUPOPUP {
        Route::MenuPopup
    } else if msg == WM_COMMAND {
        if high_word(wparam) == 0 && lparam == 0 {
            Route::MenuItem(low_word(wparam) as u16)
        } else {
            Route::Ignore
        }
    } else if msg == WM_NOTIFY {
        Route::Notify
    } else if msg == WM_DROPFILES {
        Route::DropFiles
    } else if msg == WM_ERASEBKGND {
        Route::EraseBackground
    } else if msg == WM_DESTROY {
        Route::Destroy
    } else if msg == WM_DOCUMENT_EVENT {
        Route::DocumentEvent
    } else {
        Route::Default
    }
}

fn low(p: u64) -> (r: u16)
    ensures
        r == low_word(p),
{
    (p % 0x10000) as u16
}

fn high(p: u64) -> (r: u16)
    ensures
        r == high_word(p),
{
    (p / 0x10000 % 0x10000) as u16
}

fn signed(w: u16) -> (r: i16)
    ensures
        r == signed_word(w as int),
{
    if w < 0x8000 {
        w as i16
    } else {
        (w as i32 - 0x10000) as i16
    }
}

impl AppWindow {
    /// What a message calls for.
    pub fn wnd_proc(&self, msg: u32, wparam: u64, lparam: u64) -> (r: Route)
        ensures
            r == route_of(self@, msg, wparam, lparam),
    {
        if msg == WM_PAINT {
            Route::Paint
        } else if msg == WM_SIZE {
            let width: u16 = low(lparam);
            let height: u16 = high(lparam);
            if width == 0 && height == 0 {
                Route::ResizeToClient
            } else {
                Route::Resize { width: width as u32, height: height as u32 }
            }
        } else if msg == WM_KEYDOWN || msg == WM_SYSKEYDOWN {
            let vk: u16 = low(wparam);
            if vk == VK_ESCAPE && self.dragging {
                Route::CancelDrag
            } else {
                Route::Key { vk, system: msg == WM_SYSKEYDOWN }
            }
        } else if msg == WM_MOUSEWHEEL {
            Route::Wheel { up: signed(high(wparam)) > 0 }
        } else if msg == WM_LBUTTONDOWN {
            Route::LeftDown { x: signed(low(lparam)), y: signed(high(lparam)) }
        } else if msg == WM_LBUTTONUP {
            Route::LeftUp
        } else if msg == WM_LBUTTONDBLCLK {
            Route::LeftDoubleClick
        } else if msg == WM_MBUTTONUP {
            Route::MiddleClick
        } else if msg == WM_MOUSEMOVE {
            Route::MouseMove {
                x: signed(low(lparam)),
                y: signed(high(lparam)),
                wake_cursor: self.fullscreen,
            }
        } else if msg == WM_SETCURSOR {
            Route::SetCursor
        } else if msg == WM_TIMER {
            if wparam == TIMER_ID_CURSOR_HIDE {
                Route::CursorTimer
            } else if wparam == TIMER_ID_SLIDESHOW {
                Route::SlideshowTimer
            } else {
                Route::Default
            }
        } else if msg == WM_INITMENUPOPUP {
            Route::MenuPopup
        } else if msg == WM_COMMAND {
            if high(wparam) == 0 && lparam == 0 {
                Route::MenuItem(low(wparam))
            } else {
                Route::Ignore
            }
        } else if msg == WM_NOTIFY {
            Route::Notify
        } else if msg == WM_DROPFILES {
            Route::DropFiles
        } else if msg == WM_ERASEBKGND {
            Route::EraseBackground
        } else if msg == WM_DESTROY {
            Route::Destroy
        } else if msg == WM_DOCUMENT_EVENT {
            Route::DocumentEvent
        } else {
            Route::Default
        }
    }

    /// Gives up the selection that is being drawn.
    pub fn cancel_drag(&mut self)
        ensures
            final(self)@ == super::noted(
                super::noted(super::deselected(old(self)@), Command::Invalidate),
                Command::UpdateTitle,
            ),
    {
        self.deselect();
        self.note(Command::Invalidate);
        self.note(Command::UpdateTitle);
    }

    /// Does what a key asks for; false where the system is to answer instead: a
    /// system key without an action.
    pub fn on_key(&mut self, action: Option<Action>, system: bool) -> (r: bool)
        requires
            old(self).wf(),
        ensures
            final(self).wf(),
            r == (action is Some || !system),
            match action {
                Some(a) => super::executed(old(self)@, a, final(self)@),
                None => final(self)@ == old(self)@,
            },
    {
        match action {
            Some(a) => {
                self.execute_action(a);
                true
            },
            None => !system,
        }
    }

    /// Does what a turn of the wheel asks for, and draws at once.
    pub fn on_wheel(&mut self, action: Option<Action>)
        requires
            old(self).wf(),
        ensures
            final(self).wf(),
            match action {
                Some(a) => exists|mid: WinView| #[trigger]
                    super::executed(old(self)@, a, mid) && final(self)@ == super::noted(
                        mid,
                        Command::RepaintNow,
                    ),
                None => final(self)@ == old(self)@,
            },
    {
        match action {
            Some(a) => {
                self.execute_action(a);
                let ghost mid = self@;
                assert(super::executed(old(self)@, a, mid));
                self.note(Command::RepaintNow);
            },
            None => {},
        }
    }
}

/// A part of a selection by which it can be dragged.
#[derive(Debug, Clone, Copy, PartialEq, Eq, Structural)]
pub enum HandleKind {
    TopLeft,
    Top,
    TopRight,
    Left,
    Right,
    BottomLeft,
    Bottom,
    BottomRight,
}

/// What lies under the mouse.
#[derive(Debug, Clone, Copy, PartialEq, Eq, Structural)]
pub enum HitTestResult {
    Handle(HandleKind),
    Inside,
    Outside,
}

/// The mouse's shape.
#[derive(Debug, Clone, Copy, PartialEq, Eq, Structural)]
pub enum CursorShape {
    SizeNwSe,
    SizeNeSw,
    SizeNs,
    SizeWe,
    SizeAll,
}

/// The shape for what lies under the mouse; none outside the selection.
pub fn on_set_cursor(hit: HitTestResult) -> (r: Option<CursorShape>)
    ensures
        r == (match hit {
            HitTestResult::Handle(HandleKind::TopLeft) => Some(CursorShape::SizeNwSe),
            HitTestResult::Handle(HandleKind::BottomRight) => Some(CursorShape::SizeNwSe),
            HitTestResult::Handle(HandleKind::TopRight) => Some(CursorShape::SizeNeSw),
            HitTestResult::Handle(HandleKind::BottomLeft) => Some(CursorShape::SizeNeSw),
            HitTestResult::Handle(HandleKind::Top) => Some(CursorShape::SizeNs),
            HitTestResult::Handle(HandleKind::Bottom) => Some(CursorShape::SizeNs),
            HitTestResult::Handle(HandleKind::Left) => Some(CursorShape::SizeWe),
            HitTestResult::Handle(HandleKind::Right) => Some(CursorShape::SizeWe),
            HitTestResult::Inside => Some(CursorShape::SizeAll),
            HitTestResult::Outside => None,
        }),
{
    match hit {
        HitTestResult::Handle(kind) => match kind {
            HandleKind::TopLeft => Some(CursorShape::SizeNwSe),
            HandleKind::BottomRight => Some(CursorShape::SizeNwSe),
            HandleKind::TopRight => Some(CursorShape::SizeNeSw),
            HandleKind::BottomLeft => Some(CursorShape::SizeNeSw),
            HandleKind::Top => Some(CursorShape::SizeNs),
            HandleKind::Bottom => Some(CursorShape::SizeNs),
            HandleKind::Left => Some(CursorShape::SizeWe),
            HandleKind::Right => Some(CursorShape::SizeWe),
        },
        HitTestResult::Inside => Some(CursorShape::SizeAll),
        HitTestResult::Outside => None,
    }
}

} // verus!
