//! Moves in the list, marks, and changes of the list.

use vstd::prelude::*;

use super::types::DocumentEvent;
use super::{expansion, loading};
use super::{DocView, Document};
use crate::document;
use crate::file_info::FileMetadata;
use crate::file_list;
use crate::file_list::{ListError, ListView, NavigationDirection};

verus! {

/// What a move comes to: the direction is noted, and where the position changed
/// the image is got.
pub open spec fn navigated(
    before: DocView,
    direction: NavigationDirection,
    list: ListView,
    moved: bool,
    after: DocView,
) -> bool {
    let d = DocView { direction, list, ..before };
    if moved {
        loading::loads(d, after)
    } else {
        after == d
    }
}

/// The direction of a relative move.
pub open spec fn towards(offset: int) -> NavigationDirection {
    if offset >= 0 {
        NavigationDirection::Forward
    } else {
        NavigationDirection::Backward
    }
}

/// What follows a change of the list: images are got anew, expansion starts again
/// from the position, and the window is told.
pub open spec fn list_changed(before: DocView, after: DocView) -> bool {
    exists|mid: DocView|
        {
            &&& #[trigger] expansion::rescheduled(document::cache_dropped(before), mid)
            &&& {
                let d = document::told(mid, DocumentEvent::FileListChanged);
                if d.list.files.len() > 0 {
                    loading::loads(d, after)
                } else {
                    after == document::told(
                        (DocView { image: None, ..d }),
                        DocumentEvent::ImageReady,
                    )
                }
            }
        }
}

/// The list is emptied, and nothing is shown.
pub open spec fn closed(before: DocView) -> DocView {
    let d = document::cache_dropped(document::cleaned_up(before));
    let list = ListView { files: Seq::empty(), current: None, ..d.list };
    document::told(
        document::told((DocView { list, image: None, ..d }), DocumentEvent::FileListChanged),
        DocumentEvent::ImageReady,
    )
}

/// Why the current entry could not be renamed.
#[derive(Debug)]
pub enum RenameError {
    NothingSelected,
    List(ListError),
}

impl Document {
    fn arrive(&mut self, moved: bool)
        requires
            old(self).wf(),
        ensures
            final(self).wf(),
            if moved {
                loading::loads(old(self)@, final(self)@)
            } else {
                final(self)@ == old(self)@
            },
    {
        if moved {
            self.load_current();
        }
    }

    /// Moves around the list by an offset.
    pub fn navigate_relative(&mut self, offset: isize)
        requires
            old(self).wf(),
        ensures
            final(self).wf(),
            ({
                let (list, moved) = file_list::moved_by(old(self)@.list, offset as int);
                navigated(old(self)@, towards(offset as int), list, moved, final(self)@)
            }),
    {
        self.direction =
        if offset >= 0 {
            NavigationDirection::Forward
        } else {
            NavigationDirection::Backward
        };
        let moved = self.file_list.navigate_relative(offset);
        self.arrive(moved);
    }

    /// Moves to the first entry.
    pub fn navigate_first(&mut self)
        requires
            old(self).wf(),
        ensures
            final(self).wf(),
            ({
                let (list, moved) = file_list::moved_to(old(self)@.list, 0);
                navigated(old(self)@, NavigationDirection::Forward, list, moved, final(self)@)
            }),
    {
        self.direction = NavigationDirection::Forward;
        let moved = self.file_list.navigate_first();
        self.arrive(moved);
    }

    /// Moves to an index.
    pub fn navigate_to(&mut self, index: usize)
        requires
            old(self).wf(),
        ensures
            final(self).wf(),
            ({
                let (list, moved) = file_list::moved_to(old(self)@.list, index as int);
                navigated(old(self)@, NavigationDirection::Forward, list, moved, final(self)@)
            }),
    {
        self.direction = NavigationDirection::Forward;
        let moved = self.file_list.navigate_to(index);
        self.arrive(moved);
    }

    /// Moves to the last entry.
    pub fn navigate_last(&mut self)
        requires
            old(self).wf(),
        ensures
            final(self).wf(),
            ({
                let (list, moved) = file_list::moved_to(
                    old(self)@.list,
                    old(self)@.list.files.len() - 1,
                );
                navigated(old(self)@, NavigationDirection::Backward, list, moved, final(self)@)
            }),
    {
        self.direction = NavigationDirection::Backward;
        let moved = self.file_list.navigate_last();
        self.arrive(moved);
    }

    /// Moves to the nearest marked entry before the current one.
    pub fn navigate_prev_mark(&mut self)
        requires
            old(self).wf(),
        ensures
            final(self).wf(),
            ({
                let (list, moved) = file_list::moved_to_mark(old(self)@.list, -1);
                navigated(old(self)@, NavigationDirection::Backward, list, moved, final(self)@)
            }),
    {
        self.direction = NavigationDirection::Backward;
        let moved = self.file_list.navigate_prev_mark();
        self.arrive(moved);
    }

    /// Moves to the nearest marked entry behind the current one.
    pub fn navigate_next_mark(&mut self)
        requires
            old(self).wf(),
        ensures
            final(self).wf(),
            ({
                let (list, moved) = file_list::moved_to_mark(old(self)@.list, 1);
                navigated(old(self)@, NavigationDirection::Forward, list, moved, final(self)@)
            }),
    {
        self.direction = NavigationDirection::Forward;
        let moved = self.file_list.navigate_next_mark();
        self.arrive(moved);
    }

    /// Moves to the first entry of the group before. A container is entered from
    /// its start.
    pub fn navigate_prev_folder(&mut self)
        requires
            old(self).wf(),
        ensures
            final(self).wf(),
            ({
                let (list, moved) = file_list::moved_by_group(old(self)@.list, -1);
                navigated(old(self)@, NavigationDirection::Forward, list, moved, final(self)@)
            }),
    {
        self.direction = NavigationDirection::Forward;
        let moved = self.file_list.navigate_prev_folder();
        self.arrive(moved);
    }

    /// Moves to the first entry of the group behind.
    pub fn navigate_next_folder(&mut self)
        requires
            old(self).wf(),
        ensures
            final(self).wf(),
            ({
                let (list, moved) = file_list::moved_by_group(old(self)@.list, 1);
                navigated(old(self)@, NavigationDirection::Forward, list, moved, final(self)@)
            }),
    {
        self.direction = NavigationDirection::Forward;
        let moved = self.file_list.navigate_next_folder();
        self.arrive(moved);
    }

    /// Moves back as if the list were sorted.
    pub fn sort_navigate_back(&mut self)
        requires
            old(self).wf(),
        ensures
            final(self).wf(),
            exists|list: ListView, moved: bool| #[trigger]
                file_list::moved_by_order(
                    old(self)@.list,
                    -1,
                    old(self)@.list.order,
                    list,
                    moved,
                ) && navigated(
                    old(self)@,
                    NavigationDirection::Backward,
                    list,
                    moved,
                    final(self)@,
                ),
    {
        self.direction = NavigationDirection::Backward;
        let order = self.file_list.sort_order();
        let moved = self.file_list.sorted_navigate(-1, order);
        let ghost list = self@.list;
        self.arrive(moved);
        assert(file_list::moved_by_order(old(self)@.list, -1, old(self)@.list.order, list, moved));
    }

    /// Moves forward as if the list were sorted.
    pub fn sort_navigate_forward(&mut self)
        requires
            old(self).wf(),
        ensures
            final(self).wf(),
            exists|list: ListView, moved: bool| #[trigger]
                file_list::moved_by_order(
                    old(self)@.list,
                    1,
                    old(self)@.list.order,
                    list,
                    moved,
                ) && navigated(
                    old(self)@,
                    NavigationDirection::Forward,
                    list,
                    moved,
                    final(self)@,
                ),
    {
        self.direction = NavigationDirection::Forward;
        let order = self.file_list.sort_order();
        let moved = self.file_list.sorted_navigate(1, order);
        let ghost list = self@.list;
        self.arrive(moved);
        assert(file_list::moved_by_order(old(self)@.list, 1, old(self)@.list.order, list, moved));
    }

    /// Marks the current entry and moves to the next.
    pub fn mark_current(&mut self)
        requires
            old(self).wf(),
        ensures
            final(self).wf(),
            match old(self)@.list.current {
                None => final(self)@ == old(self)@,
                Some(i) => {
                    let d = DocView {
                        list: file_list::with_mark(old(self)@.list, i, true),
                        ..old(self)@
                    };
                    let (list, moved) = file_list::moved_by(d.list, 1);
                    navigated(d, NavigationDirection::Forward, list, moved, final(self)@)
                },
            },
    {
        match self.file_list.current_index() {
            Some(index) => {
                self.file_list.mark_at(index);
                self.navigate_relative(1);
            },
            None => {},
        }
    }

    /// Unmarks the current entry.
    pub fn unmark_current(&mut self)
        requires
            old(self).wf(),
        ensures
            final(self).wf(),
            final(self)@ == (match old(self)@.list.current {
                None => old(self)@,
                Some(i) => DocView {
                    list: file_list::with_mark(old(self)@.list, i, false),
                    ..old(self)@
                },
            }),
    {
        match self.file_list.current_index() {
            Some(index) => {
                self.file_list.unmark_at(index);
            },
            None => {},
        }
    }

    /// Turns over the mark of every entry.
    pub fn invert_all_marks(&mut self)
        requires
            old(self).wf(),
        ensures
            final(self).wf(),
            final(self)@ == (DocView {
                list: ListView {
                    files: file_list::marks_inverted(
                        old(self)@.list.files,
                        old(self)@.list.files.len() as int,
                    ),
                    ..old(self)@.list
                },
                ..old(self)@
            }),
    {
        self.file_list.invert_all_marks();
    }

    /// Turns over the marks from the start to the current entry.
    pub fn invert_marks_to_here(&mut self)
        requires
            old(self).wf(),
        ensures
            final(self).wf(),
            final(self)@ == (DocView {
                list: ListView {
                    files: file_list::marks_inverted(
                        old(self)@.list.files,
                        match old(self)@.list.current {
                            Some(i) => i + 1,
                            None => 0,
                        },
                    ),
                    ..old(self)@.list
                },
                ..old(self)@
            }),
    {
        self.file_list.invert_marks_to_here();
    }

    /// What follows a change of the list.
    pub fn after_list_change(&mut self)
        requires
            old(self).wf(),
        ensures
            final(self).wf(),
            list_changed(old(self)@, final(self)@),
    {
        let ghost before = self@;
        self.invalidate_cache();
        self.reschedule_background_expansion();
        let ghost mid = self@;
        assert(expansion::rescheduled(document::cache_dropped(before), mid));
        self.tell(DocumentEvent::FileListChanged);
        if self.file_list.len() > 0 {
            self.load_current();
        } else {
            self.current_image = None;
            self.tell(DocumentEvent::ImageReady);
        }
    }

    /// Shuffles the list.
    pub fn shuffle_all(&mut self)
        requires
            old(self).wf(),
        ensures
            final(self).wf(),
            exists|state: u64|
                state != 0 && list_changed(
                    (DocView {
                        list: #[trigger] file_list::shuffled_list(old(self)@.list, state),
                        ..old(self)@
                    }),
                    final(self)@,
                ),
    {
        self.file_list.shuffle_all();
        let ghost state = choose|state: u64|
            state != 0 && #[trigger] file_list::shuffled_list(old(self)@.list, state) == self@.list;
        self.after_list_change();
        assert(file_list::shuffled_list(old(self)@.list, state) == file_list::shuffled_list(
            old(self)@.list,
            state,
        ));
    }

    /// Shuffles the groups of the list.
    pub fn shuffle_groups(&mut self)
        requires
            old(self).wf(),
        ensures
            final(self).wf(),
            exists|state: u64|
                state != 0 && list_changed(
                    (DocView {
                        list: #[trigger] file_list::group_shuffled_list(old(self)@.list, state),
                        ..old(self)@
                    }),
                    final(self)@,
                ),
    {
        self.file_list.shuffle_groups();
        let ghost state = choose|state: u64|
            state != 0 && #[trigger] file_list::group_shuffled_list(old(self)@.list, state)
                == self@.list;
        self.after_list_change();
        assert(file_list::group_shuffled_list(old(self)@.list, state)
            == file_list::group_shuffled_list(old(self)@.list, state));
    }

    /// Takes the current entry out of the list; the file stays.
    pub fn remove_current_from_list(&mut self)
        requires
            old(self).wf(),
        ensures
            final(self).wf(),
            match old(self)@.list.current {
                None => final(self)@ == old(self)@,
                Some(i) => list_changed(
                    (DocView { list: file_list::without(old(self)@.list, i), ..old(self)@ }),
                    final(self)@,
                ),
            },
    {
        match self.file_list.current_index() {
            Some(index) => {
                let _ = self.file_list.remove_at(index);
                self.after_list_change();
            },
            None => {},
        }
    }

    /// Takes the marked entries out of the list; the files stay.
    pub fn remove_marked_from_list(&mut self)
        requires
            old(self).wf(),
        ensures
            final(self).wf(),
            if file_list::marked_number(old(self)@.list) == 0 {
                final(self)@ == old(self)@
            } else {
                list_changed(
                    (DocView { list: file_list::unmarked_only(old(self)@.list), ..old(self)@ }),
                    final(self)@,
                )
            },
    {
        if self.file_list.marked_count() == 0 {
            return;
        }
        let _ = self.file_list.remove_marked();
        self.after_list_change();
    }

    /// Gives the marked entries their paths in another folder.
    pub fn update_marked_paths(&mut self, dest_dir: &str, lookup: &Vec<Option<FileMetadata>>) -> (
        r: Result<(), ListError>)
        requires
            old(self).wf(),
            lookup@.len() == old(self)@.list.files.len(),
        ensures
            final(self).wf(),
            exists|list: ListView|
                {
                    &&& #[trigger] file_list::marks_relocated(
                        old(self)@.list,
                        dest_dir@,
                        lookup@,
                        list,
                        r,
                    )
                    &&& {
                        let d = DocView { list, ..old(self)@ };
                        if r is Ok {
                            list_changed(d, final(self)@)
                        } else {
                            final(self)@ == d
                        }
                    }
                },
    {
        let r = self.file_list.update_marked_paths(dest_dir, lookup);
        let ghost list = self@.list;
        assert(self@ == DocView { list, ..old(self)@ });
        if r.is_ok() {
            self.after_list_change();
        }
        assert(file_list::marks_relocated(old(self)@.list, dest_dir@, lookup@, list, r));
        r
    }

    /// Gives the current entry a new path; its place stays.
    pub fn rename_current_in_list(&mut self, new_path: &str, metadata: Option<FileMetadata>) -> (
        r: Result<(), RenameError>)
        requires
            old(self).wf(),
        ensures
            final(self).wf(),
            match old(self)@.list.current {
                None => final(self)@ == old(self)@ && r matches Err(RenameError::NothingSelected),
                Some(i) => exists|list: ListView, outcome: Result<(), ListError>|
                    {
                        &&& #[trigger] file_list::entry_relocated(
                            old(self)@.list,
                            i,
                            new_path@,
                            metadata,
                            list,
                            outcome,
                        )
                        &&& match outcome {
                            Ok(_) => {
                                &&& r is Ok
                                &&& loading::loads(
                                    document::told(
                                        document::cache_dropped(DocView { list, ..old(self)@ }),
                                        DocumentEvent::FileListChanged,
                                    ),
                                    final(self)@,
                                )
                            },
                            Err(e) => {
                                &&& r matches Err(RenameError::List(x)) && x == e
                                &&& final(self)@ == (DocView { list, ..old(self)@ })
                            },
                        }
                    },
            },
    {
        let index: usize = match self.file_list.current_index() {
            Some(i) => i,
            None => {
                return Err(RenameError::NothingSelected);
            },
        };
        let outcome = self.file_list.update_file_at(index, new_path, metadata);
        let ghost list = self@.list;
        let ghost found = outcome;
        assert(self@ == DocView { list, ..old(self)@ });
        assert(file_list::entry_relocated(
            old(self)@.list,
            index as int,
            new_path@,
            metadata,
            list,
            found,
        ));
        match outcome {
            Ok(_) => {
                self.invalidate_cache();
                self.tell(DocumentEvent::FileListChanged);
                self.load_current();
                Ok(())
            },
            Err(e) => Err(RenameError::List(e)),
        }
    }

    /// Gets the current image again.
    pub fn reload(&mut self)
        requires
            old(self).wf(),
        ensures
            final(self).wf(),
            loading::loads(document::cache_dropped(old(self)@), final(self)@),
    {
        self.invalidate_cache();
        self.load_current();
    }

    /// Gets the images again after the filters changed.
    pub fn on_persistent_filter_changed(&mut self)
        requires
            old(self).wf(),
        ensures
            final(self).wf(),
            loading::loads(document::cache_dropped(old(self)@), final(self)@),
    {
        self.reload();
    }

    /// Empties the list.
    pub fn close_all(&mut self)
        requires
            old(self).wf(),
        ensures
            final(self).wf(),
            final(self)@ == closed(old(self)@),
    {
        self.cleanup_archive_temp();
        self.invalidate_cache();
        self.file_list.clear();
        self.current_image = None;
        self.tell(DocumentEvent::FileListChanged);
        self.tell(DocumentEvent::ImageReady);
    }
}

} // verus!
