//! Events of the document, of the timer and of the panel.

use vstd::prelude::*;

use super::action::Move;
use super::{AppWindow, Command, WinView};
use crate::document::list;
use crate::document::types::DocumentEvent;
use crate::document::DocView;
use crate::file_list;
use crate::file_list::NavigationDirection;

verus! {

/// What an event does at once: the image is drawn, the slide show stops, an error
/// is shown.
pub open spec fn event_taken(w: WinView, event: DocumentEvent) -> WinView {
    match event {
        DocumentEvent::ImageReady => super::noted(w, Command::Invalidate),
        DocumentEvent::FileListChanged => super::stopped(w),
        DocumentEvent::NavigationChanged { .. } => w,
        DocumentEvent::Error(e) => super::noted(w, Command::ShowError(e)),
    }
}

/// What events do at once, one after the other.
pub open spec fn events_taken(w: WinView, events: Seq<DocumentEvent>) -> WinView
    decreases events.len(),
{
    if events.len() == 0 {
        w
    } else {
        event_taken(events_taken(w, events.drop_last()), events.last())
    }
}

/// The list changed.
pub open spec fn tells_of_list(events: Seq<DocumentEvent>) -> bool {
    exists|i: int| 0 <= i < events.len() && (#[trigger] events[i]) is FileListChanged
}

/// The position that the last such event tells of.
pub open spec fn told_position(events: Seq<DocumentEvent>) -> Option<usize>
    decreases events.len(),
{
    if events.len() == 0 {
        None
    } else {
        match events.last() {
            DocumentEvent::NavigationChanged { index } => Some(index),
            _ => told_position(events.drop_last()),
        }
    }
}

/// What the document's events do. The panel and the title follow once, at the
/// end.
pub open spec fn events_done(before: WinView, events: Seq<DocumentEvent>) -> WinView {
    let taken = events_taken(before, events);
    let listed = if tells_of_list(events) {
        super::noted(
            super::noted(taken, Command::PanelCount(taken.doc.list.files.len() as usize)),
            Command::UpdateTitle,
        )
    } else {
        taken
    };
    match told_position(events) {
        Some(index) => super::noted(
            super::noted(listed, Command::UpdateTitle),
            Command::PanelSelect(index),
        ),
        None => listed,
    }
}

/// What a tick of the slide show's timer does: the next image, and after the last
/// one the first again or the end.
pub open spec fn ticked(before: WinView, after: WinView) -> bool {
    let v = before.doc.list;
    if !before.slideshow.active {
        after == before
    } else if v.current matches Some(i) && i + 1 >= v.files.len() {
        if before.slideshow.repeat {
            exists|doc: DocView| #[trigger]
                super::moves(before.doc, Move::First, doc) && after == super::with_doc(before, doc)
        } else {
            after == super::stopped(before)
        }
    } else {
        exists|doc: DocView| #[trigger]
            super::moves(before.doc, Move::By(1), doc) && after == super::with_doc(before, doc)
    }
}

/// A move to an entry stops the slide show.
pub open spec fn jumped(before: WinView, index: int, after: WinView) -> bool {
    exists|doc: DocView|
        {
            &&& #[trigger] jump(super::stopped(before).doc, index, doc)
            &&& after == super::with_doc(super::stopped(before), doc)
        }
}

/// What a move to an entry does to the document.
pub open spec fn jump(before: DocView, index: int, after: DocView) -> bool {
    let (l, m) = file_list::moved_to(before.list, index);
    list::navigated(before, NavigationDirection::Forward, l, m, after)
}

/// The entry for a page number from one on; the nearest one outside the list.
pub open spec fn page_index(page: int, total: int) -> int {
    let i = if page < 1 {
        0
    } else {
        page - 1
    };
    if i < total - 1 {
        i
    } else {
        total - 1
    }
}

/// An item's state tells that it was selected just now.
pub fn became_selected(changed: u32, old_state: u32, new_state: u32) -> (r: bool)
    ensures
        r == ((changed & 8) != 0 && (old_state & 2) == 0 && (new_state & 2) != 0),
{
    (changed & 8) != 0 && (old_state & 2) == 0 && (new_state & 2) != 0
}

/// A label cut to the room for it, with the zero at its end.
pub fn fit_label(label: Vec<u16>, room: usize) -> (r: Vec<u16>)
    requires
        room > 0,
    ensures
        r@ == (if label@.len() >= room {
            label@.take(room - 1)
        } else {
            label@
        }).push(0u16),
        r@.len() <= room,
{
    let mut r = label;
    if r.len() >= room {
        r.truncate(room - 1);
    }
    r.push(0);
    r
}

/// The items of the first list that the second does not hold, in order.
pub open spec fn missing_from(a: Seq<usize>, b: Seq<usize>) -> Seq<usize> {
    a.filter(|i: usize| !b.contains(i))
}

fn holds(v: &Vec<usize>, x: usize) -> (r: bool)
    ensures
        r == v@.contains(x),
{
    let mut i: usize = 0;
    while i < v.len()
        invariant
            i <= v@.len(),
            forall|k: int| 0 <= k < i ==> v@[k] != x,
        decreases v.len() - i,
    {
        if v[i] == x {
            return true;
        }
        i = i + 1;
    }
    false
}

fn without_those(a: &Vec<usize>, b: &Vec<usize>) -> (r: Vec<usize>)
    ensures
        r@ == missing_from(a@, b@),
{
    let mut r: Vec<usize> = Vec::new();
    let mut i: usize = 0;
    proof {
        reveal(Seq::filter);
        assert(missing_from(a@.take(0), b@) =~= Seq::empty());
    }
    while i < a.len()
        invariant
            i <= a@.len(),
            r@ == missing_from(a@.take(i as int), b@),
        decreases a.len() - i,
    {
        proof {
            reveal(Seq::filter);
            assert(a@.take(i + 1).drop_last() =~= a@.take(i as int));
            assert(a@.take(i + 1).last() == a@[i as int]);
        }
        if !holds(b, a[i]) {
            r.push(a[i]);
        }
        i = i + 1;
    }
    assert(a@.take(a@.len() as int) =~= a@);
    r
}

/// The items that are in one of the lists only: these lines of the panel are to
/// be drawn again.
pub fn changed_items(before: &Vec<usize>, now: &Vec<usize>) -> (r: Vec<usize>)
    ensures
        r@ == missing_from(before@, now@) + missing_from(now@, before@),
{
    let mut r = without_those(before, now);
    let mut more = without_those(now, before);
    r.append(&mut more);
    r
}

impl AppWindow {
    /// Takes the document's events.
    pub fn process_document_events(&mut self, events: Vec<DocumentEvent>)
        requires
            old(self).wf(),
        ensures
            final(self).wf(),
            final(self)@ == events_done(old(self)@, events@),
    {
        let ghost before = self@;
        let ghost all = events@;
        let mut listed = false;
        let mut position: Option<usize> = None;
        assert(all.take(0) =~= Seq::empty());
        for event in it: events
            invariant
                it.seq() == all,
                self@ == events_taken(before, all.take(it.index())),
                self@.doc == before.doc,
                listed == tells_of_list(all.take(it.index())),
                position == told_position(all.take(it.index())),
        {
            let ghost seen = all.take(it.index());
            let ghost next = all.take(it.index() + 1);
            assert(next.drop_last() =~= seen);
            assert(next.last() == event);
            assert(tells_of_list(next) == (tells_of_list(seen) || event is FileListChanged)) by {
                if tells_of_list(seen) {
                    let i = choose|i: int|
                        0 <= i < seen.len() && (#[trigger] seen[i]) is FileListChanged;
                    assert(next[i] == seen[i]);
                }
                if event is FileListChanged {
                    assert(next[next.len() - 1] is FileListChanged);
                }
                if tells_of_list(next) {
                    let i = choose|i: int|
                        0 <= i < next.len() && (#[trigger] next[i]) is FileListChanged;
                    if i < seen.len() {
                        assert(seen[i] == next[i]);
                    }
                }
            }
            match event {
                DocumentEvent::ImageReady => self.note(Command::Invalidate),
                DocumentEvent::NavigationChanged { index } => {
                    position = Some(index);
                },
                DocumentEvent::FileListChanged => {
                    self.stop_slideshow();
                    listed = true;
                },
                DocumentEvent::Error(e) => self.note(Command::ShowError(e)),
            }
        }
        assert(all.take(all.len() as int) =~= all);
        if listed {
            let count: usize = self.document.file_list.len();
            self.note(Command::PanelCount(count));
            self.note(Command::UpdateTitle);
        }
        match position {
            Some(index) => {
                self.note(Command::UpdateTitle);
                self.note(Command::PanelSelect(index));
            },
            None => {},
        }
    }

    /// Takes a tick of the slide show's timer.
    pub fn on_slideshow_timer(&mut self)
        requires
            old(self).wf(),
        ensures
            final(self).wf(),
            ticked(old(self)@, final(self)@),
    {
        if !self.slideshow.active {
            return;
        }
        let ghost w = self@;
        let len: usize = self.document.file_list.len();
        let at_end = match self.document.file_list.current_index() {
            Some(i) => i + 1 >= len,
            None => false,
        };
        if at_end {
            if self.slideshow.repeat {
                self.document.navigate_first();
                let ghost doc = self@.doc;
                assert(super::moves(w.doc, Move::First, doc));
                self.note(Command::ProcessEvents);
                assert(self@ == super::with_doc(w, doc));
            } else {
                self.stop_slideshow();
            }
            return;
        }
        self.document.navigate_relative(1);
        let ghost doc = self@.doc;
        assert(super::moves(w.doc, Move::By(1), doc));
        self.note(Command::ProcessEvents);
        assert(self@ == super::with_doc(w, doc));
    }

    fn jump_to(&mut self, index: usize)
        requires
            old(self).wf(),
        ensures
            final(self).wf(),
            jumped(old(self)@, index as int, final(self)@),
    {
        self.stop_slideshow();
        let ghost w = self@;
        self.document.navigate_to(index);
        let ghost doc = self@.doc;
        assert(jump(w.doc, index as int, doc));
        self.note(Command::ProcessEvents);
    }

    /// The page that a dialog offers, counted from one, and the number of pages;
    /// none for an empty list.
    pub fn offered_page(&self) -> (r: Option<(usize, usize)>)
        requires
            self.wf(),
        ensures
            match r {
                Some((page, total)) => {
                    &&& total == self@.doc.list.files.len()
                    &&& total > 0
                    &&& page == self@.doc.list.place() + 1
                },
                None => self@.doc.list.files.len() == 0,
            },
    {
        let total: usize = self.document.file_list.len();
        if total == 0 {
            return None;
        }
        let index: usize = match self.document.file_list.current_index() {
            Some(i) => i,
            None => 0,
        };
        Some((index + 1, total))
    }

    /// Goes to a page, counted from one.
    pub fn navigate_to_page(&mut self, page: usize)
        requires
            old(self).wf(),
        ensures
            final(self).wf(),
            if old(self)@.doc.list.files.len() == 0 {
                final(self)@ == old(self)@
            } else {
                jumped(
                    old(self)@,
                    page_index(page as int, old(self)@.doc.list.files.len() as int),
                    final(self)@,
                )
            },
    {
        let total: usize = self.document.file_list.len();
        if total == 0 {
            return;
        }
        let wanted: usize = if page < 1 {
            0
        } else {
            page - 1
        };
        let index: usize = if wanted < total - 1 {
            wanted
        } else {
            total - 1
        };
        self.jump_to(index);
    }

    /// Takes a selection in the panel: the list goes there, where it is not there
    /// already.
    pub fn on_item_selected(&mut self, item: i32)
        requires
            old(self).wf(),
        ensures
            final(self).wf(),
            if item >= 0 && old(self)@.doc.list.current != Some(item as int) {
                jumped(super::guarded(old(self)@), item as int, final(self)@)
            } else {
                final(self)@ == old(self)@
            },
    {
        if item < 0 {
            return;
        }
        let target: usize = item as usize;
        let here = match self.document.file_list.current_index() {
            Some(i) => i == target,
            None => false,
        };
        if here {
            return;
        }
        self.leave_image();
        self.jump_to(target);
    }

    /// The entries whose images are at hand, ascending. `kept` holds those that
    /// were decoded ahead.
    pub fn cached_indices(&self, kept: &Vec<usize>) -> (r: Vec<usize>)
        ensures
            forall|a: int, b: int| 0 <= a < b < r@.len() ==> #[trigger] r@[a] < #[trigger] r@[b],
            forall|i: usize| #[trigger]
                r@.contains(i) <==> i < self@.doc.list.files.len() && (kept@.contains(i) || (
                self@.doc.list.current == Some(i as int) && self@.doc.image is Some)),
    {
        let len: usize = self.document.file_list.len();
        let mut r: Vec<usize> = Vec::new();
        let mut i: usize = 0;
        while i < len
            invariant
                len == self@.doc.list.files.len(),
                i <= len,
                forall|a: int| 0 <= a < r@.len() ==> #[trigger] r@[a] < i,
                forall|a: int, b: int|
                    0 <= a < b < r@.len() ==> #[trigger] r@[a] < #[trigger] r@[b],
                forall|k: usize| #[trigger]
                    r@.contains(k) <==> k < i && (kept@.contains(k) || (
                    self@.doc.list.current == Some(k as int) && self@.doc.image is Some)),
            decreases len - i,
        {
            let ghost seen = r@;
            if self.document.is_cached(i, holds(kept, i)) {
                r.push(i);
                assert forall|k: usize| #[trigger] r@.contains(k) <==> k < i + 1 && (
                kept@.contains(k) || (self@.doc.list.current == Some(k as int)
                    && self@.doc.image is Some)) by {
                    if seen.contains(k) {
                        let a = choose|a: int| 0 <= a < seen.len() && seen[a] == k;
                        assert(r@[a] == k);
                    }
                    if k == i {
                        assert(r@[seen.len() as int] == k);
                    }
                    if r@.contains(k) {
                        let a = choose|a: int| 0 <= a < r@.len() && r@[a] == k;
                        if a < seen.len() {
                            assert(seen[a] == k);
                        }
                    }
                }
            }
            i = i + 1;
        }
        r
    }
}

} // verus!
