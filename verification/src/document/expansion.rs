//! Expansion of containers in the background.

use vstd::prelude::*;

use super::container;
use super::container::build_container_entries;
use super::loading;
use super::states;
use super::states::StatesView;
use super::types::{
    ContainerExpandEvent, ContainerResult, ContainerState, DocumentError, DocumentEvent, Effect,
};
use super::{DocView, Document};
use crate::document;
use crate::file_info::{FileInfo, FileSource};
use crate::file_list;
use crate::file_list::{ListView, NavigationDirection};
use crate::ordering;
use crate::ordering::{stable_sort, Precedence};
use crate::paths;
use crate::paths::{same_path, Location};

verus! {

/// Places by their distance from a center.
pub struct ByDistance {
    pub center: usize,
}

/// How far a place is from the center.
pub open spec fn distance(center: usize, place: usize) -> int {
    if place < center {
        center - place
    } else {
        place - center
    }
}

impl Precedence<usize> for ByDistance {
    open spec fn before(&self, a: usize, b: usize) -> bool {
        distance(self.center, a) < distance(self.center, b)
    }

    proof fn one_way(&self, a: usize, b: usize) {
    }

    proof fn passes_on(&self, a: usize, b: usize, c: usize) {
    }

    fn is_before(&self, a: &usize, b: &usize) -> (r: bool) {
        let x: usize = if *a < self.center {
            self.center - *a
        } else {
            *a - self.center
        };
        let y: usize = if *b < self.center {
            self.center - *b
        } else {
            *b - self.center
        };
        x < y
    }
}

/// The container waits to be expanded: it stands in the list as a placeholder and
/// is not expanded yet.
pub open spec fn is_waiting(info: FileInfo, states: StatesView) -> bool {
    info.source matches FileSource::PendingContainer { container_path } && states::state_of(
        states,
        paths::location(container_path@),
    ) != Some(ContainerState::Expanded)
}

/// The places before `end` whose containers wait, ascending.
pub open spec fn waiting(files: Seq<FileInfo>, states: StatesView, end: int) -> Seq<usize>
    decreases end,
{
    if end <= 0 {
        Seq::empty()
    } else if is_waiting(files[end - 1], states) {
        waiting(files, states, end - 1).push((end - 1) as usize)
    } else {
        waiting(files, states, end - 1)
    }
}

/// The paths of the waiting containers, the nearest to the position first.
pub open spec fn nearest_first(d: DocView, paths: Seq<String>) -> bool {
    exists|places: Seq<usize>|
        {
            &&& #[trigger] ordering::stably_sorted(
                (ByDistance { center: d.list.place() as usize }),
                waiting(d.list.files, d.states, d.list.files.len() as int),
                places,
            )
            &&& paths.len() == places.len()
            &&& forall|k: int|
                0 <= k < paths.len() ==> d.list.files[places[k] as int].source == (
                FileSource::PendingContainer { container_path: #[trigger] paths[k] })
        }
}

/// The expansion under way is stopped.
pub open spec fn cancelled(d: DocView) -> DocView {
    if d.cancellable {
        DocView { cancellable: false, ..document::sent(d, Effect::CancelExpansion) }
    } else {
        d
    }
}

/// The expansion of the paths is asked for.
pub open spec fn asked(d: DocView, paths: Vec<String>) -> DocView {
    DocView {
        states: states::with_all(d.states, paths@, ContainerState::InFlight),
        expanding: true,
        cancellable: true,
        ..document::sent(d, Effect::Expand { paths, generation: d.generation })
    }
}

/// An expansion of the waiting containers is started, where there are any.
pub open spec fn started(before: DocView, after: DocView) -> bool {
    let d = cancelled(before);
    if waiting(d.list.files, d.states, d.list.files.len() as int).len() == 0 {
        after == d
    } else {
        exists|paths: Vec<String>| #[trigger] nearest_first(d, paths@) && after == asked(d, paths)
    }
}

/// A placeholder stands in the list.
pub open spec fn has_pending(list: ListView) -> bool {
    exists|i: int|
        0 <= i < list.files.len() && (#[trigger] list.files[i]).source is PendingContainer
}

/// The expansion is given up; what it still reports counts no more.
pub open spec fn abandoned(d: DocView) -> DocView {
    DocView { expanding: false, generation: d.generation.wrapping_add(1), ..cancelled(d) }
}

/// The expansion is started again, where placeholders are left.
pub open spec fn rescheduled(before: DocView, after: DocView) -> bool {
    if has_pending(before.list) {
        started(abandoned(before), after)
    } else {
        after == before
    }
}

/// The first placeholder of the container, from `k` on.
pub open spec fn pending_from(files: Seq<FileInfo>, at: Location, k: int) -> Option<int>
    decreases files.len() - k,
{
    if k >= files.len() {
        None
    } else if files[k].source matches FileSource::PendingContainer { container_path }
        && paths::location(container_path@) == at {
        Some(k)
    } else {
        pending_from(files, at, k + 1)
    }
}

/// What is kept of a container: its extracted files, or its bytes.
pub open spec fn kept(d: DocView, result: ContainerResult) -> DocView {
    match result {
        ContainerResult::Zip { path, .. } => document::sent(d, Effect::KeepBuffer(path)),
        ContainerResult::TempExtracted { temp_dir, .. } => DocView {
            temp_dirs: d.temp_dirs.push(temp_dir),
            ..d
        },
        _ => d,
    }
}

/// A result that is not wanted any more; extracted files are removed.
pub open spec fn discarded(d: DocView, result: ContainerResult) -> DocView {
    match result {
        ContainerResult::TempExtracted { temp_dir, .. } => document::sent(
            d,
            Effect::RemoveFolder(temp_dir),
        ),
        _ => d,
    }
}

/// The container's entries took the place of its placeholder; that of one that
/// could not be read is taken out.
pub open spec fn applied(
    before: DocView,
    index: int,
    at: Location,
    result: ContainerResult,
    direction: NavigationDirection,
    now: i128,
    after: DocView,
) -> bool {
    let states = states::with_state(before.states, at, ContainerState::Expanded);
    match result {
        ContainerResult::Error { path, error } => after == document::told(
            (DocView { list: file_list::without(before.list, index), states, ..before }),
            DocumentEvent::Error(DocumentError::Container { path, error }),
        ),
        _ => exists|entries: Seq<FileInfo>|
            {
                &&& #[trigger] container::entries_of(result, now, entries)
                &&& file_list::expanded_at(before.list, index, entries, direction, after.list)
                &&& after == DocView { list: after.list, states, ..kept(before, result) }
            },
    }
}

/// What became of a report.
#[derive(Debug, Clone, Copy, PartialEq, Eq, Structural)]
pub enum Absorbed {
    /// It was not wanted any more.
    Discarded,
    /// It went into the list; `awaited` tells whether the user waited for it.
    Applied { awaited: bool },
    /// It was the last.
    Done,
}

/// The user waits for the container.
pub open spec fn is_awaited(d: DocView, at: Location) -> bool {
    d.intent matches Some(intent) && paths::location((intent.0)@) == at
}

/// The direction in which the container is entered.
pub open spec fn entered(d: DocView, at: Location) -> NavigationDirection {
    if is_awaited(d, at) {
        (d.intent->0).1
    } else {
        NavigationDirection::Forward
    }
}

/// The container's result went into the list; the user waits no more for it.
pub open spec fn taken_in(
    before: DocView,
    index: int,
    at: Location,
    result: ContainerResult,
    now: i128,
    after: DocView,
) -> bool {
    exists|mid: DocView| #[trigger]
        applied(before, index, at, result, entered(before, at), now, mid) && after
            == if is_awaited(before, at) {
            DocView { intent: None, ..mid }
        } else {
            mid
        }
}

/// What a report comes to. One of another generation, or for a placeholder that
/// is gone, is discarded.
pub open spec fn absorbed(
    before: DocView,
    event: ContainerExpandEvent,
    now: i128,
    after: DocView,
    outcome: Absorbed,
) -> bool {
    match event {
        ContainerExpandEvent::Expanded { container_path, result, generation } => {
            let at = paths::location(container_path@);
            match pending_from(before.list.files, at, 0) {
                Some(i) if generation == before.generation => {
                    &&& outcome == Absorbed::Applied { awaited: is_awaited(before, at) }
                    &&& taken_in(before, i, at, result, now, after)
                },
                _ => outcome == Absorbed::Discarded && after == discarded(before, result),
            }
        },
        ContainerExpandEvent::AllDone { generation } => {
            &&& outcome == Absorbed::Done
            &&& after == if generation == before.generation {
                DocView { expanding: false, ..before }
            } else {
                before
            }
        },
    }
}

/// Reports one after the other; the one that says that all is done ends them.
pub open spec fn absorbs(
    steps: Seq<DocView>,
    outcomes: Seq<Absorbed>,
    events: Seq<ContainerExpandEvent>,
    now: i128,
) -> bool {
    &&& steps.len() == outcomes.len() + 1
    &&& outcomes.len() <= events.len()
    &&& forall|k: int|
        0 <= k < outcomes.len() ==> #[trigger] absorbed(
            steps[k],
            events[k],
            now,
            steps[k + 1],
            outcomes[k],
        )
    &&& forall|k: int|
        0 <= k < outcomes.len() - 1 ==> #[trigger] outcomes[k] != Absorbed::Done
    &&& outcomes.len() < events.len() ==> outcomes.len() > 0 && outcomes.last() == Absorbed::Done
}

/// Some report went into the list.
pub open spec fn any_applied(outcomes: Seq<Absorbed>) -> bool {
    exists|k: int| 0 <= k < outcomes.len() && (#[trigger] outcomes[k]) is Applied
}

/// Some report was awaited.
pub open spec fn any_awaited(outcomes: Seq<Absorbed>) -> bool {
    exists|k: int|
        0 <= k < outcomes.len() && #[trigger] outcomes[k] == (Absorbed::Applied { awaited: true })
}

/// What follows the reports: where any went into the list, the images are got
/// anew and the window is told.
pub open spec fn settled(before: DocView, outcomes: Seq<Absorbed>, after: DocView) -> bool {
    if any_applied(outcomes) {
        let d = document::cache_dropped(before);
        exists|mid: DocView|
            {
                &&& if any_awaited(outcomes) && d.list.current is Some {
                    loading::loads(d, mid)
                } else {
                    mid == document::prefetch_asked(d)
                }
                &&& after == #[trigger] document::position_told(
                    document::told(mid, DocumentEvent::FileListChanged),
                )
            }
    } else {
        after == before
    }
}

/// What a series of reports comes to. Without an expansion there are none.
pub open spec fn reported(
    before: DocView,
    events: Seq<ContainerExpandEvent>,
    now: i128,
    after: DocView,
) -> bool {
    if before.expanding {
        exists|steps: Seq<DocView>, outcomes: Seq<Absorbed>|
            {
                &&& #[trigger] absorbs(steps, outcomes, events, now)
                &&& steps[0] == before
                &&& settled(steps.last(), outcomes, after)
            }
    } else {
        after == before
    }
}

impl Document {
    /// Stops the expansion under way.
    pub(crate) fn cancel_expansion(&mut self)
        ensures
            final(self)@ == cancelled(old(self)@),
    {
        if self.cancellable {
            self.cancellable = false;
            self.send(Effect::CancelExpansion);
        }
    }

    fn waiting_places(&self) -> (r: Vec<usize>)
        ensures
            r@ == waiting(self@.list.files, self@.states, self@.list.files.len() as int),
    {
        let files = self.file_list.files();
        let mut r: Vec<usize> = Vec::new();
        let mut i: usize = 0;
        while i < files.len()
            invariant
                files@ == self@.list.files,
                i <= files@.len(),
                r@ == waiting(files@, self@.states, i as int),
            decreases files.len() - i,
        {
            match &files[i].source {
                FileSource::PendingContainer { container_path } => {
                    let expanded = match self.states.get(container_path.as_str()) {
                        Some(ContainerState::Expanded) => true,
                        _ => false,
                    };
                    if !expanded {
                        r.push(i);
                    }
                },
                _ => {},
            }
            i = i + 1;
        }
        r
    }

    /// Starts to expand the waiting containers, the nearest first.
    pub(crate) fn start_background_expansion(&mut self)
        requires
            old(self).wf(),
        ensures
            started(old(self)@, final(self)@),
            final(self).wf(),
    {
        self.cancel_expansion();
        let ghost d = self@;
        let center: usize = match self.file_list.current_index() {
            Some(i) => i,
            None => 0,
        };
        let all = self.waiting_places();
        if all.len() == 0 {
            return;
        }
        let ghost unsorted = all@;
        let len: usize = self.file_list.len();
        proof {
            waiting_places_wait(d.list.files, d.states, len as int);
        }
        let places = stable_sort(all, &ByDistance { center });
        proof {
            let order = choose|order: Seq<usize>|
                {
                    &&& #[trigger] ordering::arranges(order, 0, unsorted.len() as int)
                    &&& places@ == ordering::reordered(unsorted, order)
                };
            assert forall|k: int| 0 <= k < places@.len() implies (#[trigger] places@[k])
                < d.list.files.len() && is_waiting(d.list.files[places@[k] as int], d.states) by {
                assert(places@[k] == unsorted[order[k] as int]);
            }
        }
        let mut found: Vec<String> = Vec::new();
        let mut k: usize = 0;
        while k < places.len()
            invariant
                k <= places@.len(),
                self@ == d,
                found@.len() == k,
                forall|j: int|
                    0 <= j < places@.len() ==> (#[trigger] places@[j]) < d.list.files.len()
                        && is_waiting(d.list.files[places@[j] as int], d.states),
                forall|j: int|
                    0 <= j < k ==> d.list.files[places@[j] as int].source == (
                    FileSource::PendingContainer { container_path: #[trigger] found@[j] }),
            decreases places.len() - k,
        {
            assert(is_waiting(d.list.files[places@[k as int] as int], d.states));
            match self.file_list.pending_container_path_at(places[k]) {
                Some(path) => found.push(path),
                None => {
                    assert(false);
                },
            }
            k = k + 1;
        }
        self.states.set_all(&found, ContainerState::InFlight);
        proof {
            states::all_stay_distinct(d.states, found@, ContainerState::InFlight);
        }
        self.expanding = true;
        self.cancellable = true;
        let generation: u64 = self.generation;
        assert(d.list.place() as usize == center);
        assert(ordering::stably_sorted(
            (ByDistance { center: d.list.place() as usize }),
            waiting(d.list.files, d.states, d.list.files.len() as int),
            places@,
        ));
        assert(nearest_first(d, found@));
        self.send(Effect::Expand { paths: found, generation });
        assert(self@ =~= asked(d, found));
    }

    /// Starts the expansion again, so that what is near comes first.
    pub(crate) fn reschedule_background_expansion(&mut self)
        requires
            old(self).wf(),
        ensures
            rescheduled(old(self)@, final(self)@),
            final(self).wf(),
    {
        if !self.file_list.has_pending() {
            return;
        }
        self.abandon_expansion();
        self.start_background_expansion();
    }

    /// Gives the expansion up; what it still reports counts no more.
    pub fn abandon_expansion(&mut self)
        ensures
            final(self)@ == abandoned(old(self)@),
    {
        self.cancel_expansion();
        self.expanding = false;
        self.generation = self.generation.wrapping_add(1);
    }

    /// The placeholder of a container.
    pub fn find_pending_index(&self, container_path: &str) -> (r: Option<usize>)
        ensures
            pending_from(self@.list.files, paths::location(container_path@), 0) == (match r {
                Some(i) => Some(i as int),
                None => None,
            }),
            r matches Some(i) ==> i < self@.list.files.len(),
    {
        let files = self.file_list.files();
        let ghost at = paths::location(container_path@);
        let mut i: usize = 0;
        while i < files.len()
            invariant
                files@ == self@.list.files,
                at == paths::location(container_path@),
                i <= files@.len(),
                pending_from(files@, at, 0) == pending_from(files@, at, i as int),
            decreases files.len() - i,
        {
            let here = match &files[i].source {
                FileSource::PendingContainer { container_path: path } => same_path(
                    path.as_str(),
                    container_path,
                ),
                _ => false,
            };
            if here {
                return Some(i);
            }
            i = i + 1;
        }
        None
    }

    /// How many of the containers are expanded, and how many there are; none
    /// where none is left to expand.
    pub fn expand_progress(&self) -> (r: Option<(usize, usize)>)
        ensures
            states::progress(self@.states) == (match r {
                Some((done, total)) => Some((done as nat, total as nat)),
                None => None,
            }),
    {
        self.states.progress()
    }

    /// Puts a container's entries in the place of its placeholder, or takes that
    /// out where the container could not be read. Tells whether it could.
    pub(crate) fn apply_container_result(
        &mut self,
        index: usize,
        container_path: &str,
        result: ContainerResult,
        direction: NavigationDirection,
        now: i128,
    ) -> (r: bool)
        requires
            old(self).wf(),
            index < old(self)@.list.files.len(),
        ensures
            applied(
                old(self)@,
                index as int,
                paths::location(container_path@),
                result,
                direction,
                now,
                final(self)@,
            ),
            final(self).wf(),
            r == !(result is Error),
    {
        let ghost before = self@;
        let ghost at = paths::location(container_path@);
        proof {
            states::stays_distinct(before.states, at, ContainerState::Expanded);
        }
        let entries = build_container_entries(&result, now);
        let ghost given = entries@;
        match result {
            ContainerResult::Error { path, error } => {
                let _ = self.file_list.remove_at(index);
                self.states.set(container_path, ContainerState::Expanded);
                self.tell(DocumentEvent::Error(DocumentError::Container { path, error }));
                assert(self@ =~= document::told(
                    (DocView {
                        list: file_list::without(before.list, index as int),
                        states: states::with_state(before.states, at, ContainerState::Expanded),
                        ..before
                    }),
                    DocumentEvent::Error(DocumentError::Container { path, error }),
                ));
                false
            },
            ContainerResult::Zip { path, .. } => {
                self.send(Effect::KeepBuffer(path));
                self.file_list.expand_container_at(index, entries, direction);
                self.states.set(container_path, ContainerState::Expanded);
                assert(container::entries_of(result, now, given));
                true
            },
            ContainerResult::TempExtracted { temp_dir, .. } => {
                self.temp_dirs.push(temp_dir);
                self.file_list.expand_container_at(index, entries, direction);
                self.states.set(container_path, ContainerState::Expanded);
                assert(container::entries_of(result, now, given));
                true
            },
            ContainerResult::Pdf { .. } => {
                self.file_list.expand_container_at(index, entries, direction);
                self.states.set(container_path, ContainerState::Expanded);
                assert(container::entries_of(result, now, given));
                true
            },
        }
    }

    fn discard(&mut self, result: ContainerResult)
        ensures
            final(self)@ == discarded(old(self)@, result),
    {
        match result {
            ContainerResult::TempExtracted { temp_dir, .. } => {
                self.send(Effect::RemoveFolder(temp_dir));
            },
            _ => {},
        }
    }

    /// Takes one report.
    pub fn absorb_expand_event(&mut self, event: ContainerExpandEvent, now: i128) -> (r: Absorbed)
        requires
            old(self).wf(),
        ensures
            absorbed(old(self)@, event, now, final(self)@, r),
            final(self).wf(),
    {
        match event {
            ContainerExpandEvent::Expanded { container_path, result, generation } => {
                let ghost at = paths::location(container_path@);
                if generation != self.generation {
                    self.discard(result);
                    return Absorbed::Discarded;
                }
                let index: usize = match self.find_pending_index(container_path.as_str()) {
                    Some(i) => i,
                    None => {
                        self.discard(result);
                        return Absorbed::Discarded;
                    },
                };
                let (direction, awaited) = match &self.intent {
                    Some((path, d)) => if same_path(path.as_str(), container_path.as_str()) {
                        (*d, true)
                    } else {
                        (NavigationDirection::Forward, false)
                    },
                    None => (NavigationDirection::Forward, false),
                };
                assert(awaited == is_awaited(old(self)@, at));
                assert(direction == entered(old(self)@, at));
                let _ = self.apply_container_result(
                    index,
                    container_path.as_str(),
                    result,
                    direction,
                    now,
                );
                let ghost mid = self@;
                assert(applied(
                    old(self)@,
                    index as int,
                    at,
                    result,
                    entered(old(self)@, at),
                    now,
                    mid,
                ));
                if awaited {
                    self.intent = None;
                    assert(self@ == DocView { intent: None, ..mid });
                }
                assert(taken_in(old(self)@, index as int, at, result, now, self@));
                Absorbed::Applied { awaited }
            },
            ContainerExpandEvent::AllDone { generation } => {
                if generation == self.generation {
                    self.expanding = false;
                }
                Absorbed::Done
            },
        }
    }

    /// Takes the reports of the expansion. The window is told once.
    #[verifier::rlimit(40)]
    pub fn process_expand_results(&mut self, events: Vec<ContainerExpandEvent>, now: i128)
        requires
            old(self).wf(),
        ensures
            reported(old(self)@, events@, now, final(self)@),
            final(self).wf(),
    {
        if !self.expanding {
            return;
        }
        let ghost all = events@;
        let ghost mut steps: Seq<DocView> = seq![self@];
        let ghost mut outcomes: Seq<Absorbed> = Seq::empty();
        let mut applied_any = false;
        let mut awaited_any = false;
        let mut done = false;
        for event in it: events
            invariant
                it.seq() == all,
                self.wf(),
                steps.len() == outcomes.len() + 1,
                steps[0] == old(self)@,
                steps.last() == self@,
                outcomes.len() <= it.index(),
                !done ==> outcomes.len() == it.index(),
                done ==> outcomes.len() > 0 && outcomes.last() == Absorbed::Done,
                forall|k: int|
                    0 <= k < outcomes.len() ==> #[trigger] absorbed(
                        steps[k],
                        all[k],
                        now,
                        steps[k + 1],
                        outcomes[k],
                    ),
                forall|k: int|
                    0 <= k < outcomes.len() - (if done {
                        1int
                    } else {
                        0
                    }) ==> #[trigger] outcomes[k] != Absorbed::Done,
                applied_any == any_applied(outcomes),
                awaited_any == any_awaited(outcomes),
        {
            if !done {
                let ghost seen = outcomes;
                let outcome = self.absorb_expand_event(event, now);
                proof {
                    steps = steps.push(self@);
                    outcomes = outcomes.push(outcome);
                    assert(absorbed(
                        steps[outcomes.len() - 1],
                        all[outcomes.len() - 1],
                        now,
                        steps[outcomes.len() as int],
                        outcomes[outcomes.len() - 1],
                    ));
                    assert(forall|k: int| 0 <= k < seen.len() ==> outcomes[k] == seen[k]);
                    assert(outcomes[seen.len() as int] == outcome);
                }
                match outcome {
                    Absorbed::Applied { awaited } => {
                        applied_any = true;
                        if awaited {
                            awaited_any = true;
                        }
                    },
                    Absorbed::Done => {
                        done = true;
                    },
                    Absorbed::Discarded => {},
                }
                assert(any_applied(outcomes) == (any_applied(seen) || outcome is Applied)) by {
                    if any_applied(seen) {
                        let k = choose|k: int|
                            0 <= k < seen.len() && (#[trigger] seen[k]) is Applied;
                        assert(outcomes[k] is Applied);
                    }
                }
                assert(any_awaited(outcomes) == (any_awaited(seen) || outcome == (
                Absorbed::Applied { awaited: true }))) by {
                    if any_awaited(seen) {
                        let k = choose|k: int|
                            0 <= k < seen.len() && #[trigger] seen[k] == (
                            Absorbed::Applied { awaited: true });
                        assert(outcomes[k] == (Absorbed::Applied { awaited: true }));
                    }
                }
            }
        }
        assert(absorbs(steps, outcomes, all, now));
        let ghost last = self@;
        if applied_any {
            self.invalidate_cache();
            let ghost d = self@;
            if awaited_any && self.file_list.current_index().is_some() {
                self.load_current();
            } else {
                self.schedule_prefetch();
            }
            let ghost mid = self@;
            self.tell(DocumentEvent::FileListChanged);
            self.send_navigation_changed();
            assert(self@ == document::position_told(
                document::told(mid, DocumentEvent::FileListChanged),
            ));
        }
        assert(settled(last, outcomes, self@));
    }

    /// The next container to expand at once, and its place; none where no
    /// placeholder is left. Placeholders of expanded containers are taken out.
    pub fn next_pending_sync(&mut self) -> (r: Option<(usize, String)>)
        requires
            old(self).wf(),
        ensures
            final(self).wf(),
            next_taken(old(self)@, final(self)@, r),
        decreases old(self)@.list.files.len(),
    {
        match self.first_pending() {
            None => None,
            Some((index, path)) => {
                match self.states.get(path.as_str()) {
                    Some(ContainerState::Expanded) => {
                        let ghost before = self@;
                        let _ = self.file_list.remove_at(index);
                        assert(self@ =~= DocView {
                            list: file_list::without(before.list, index as int),
                            ..before
                        });
                        self.next_pending_sync()
                    },
                    _ => {
                        proof {
                            states::stays_distinct(
                                self@.states,
                                paths::location(path@),
                                ContainerState::InFlight,
                            );
                        }
                        self.states.set(path.as_str(), ContainerState::InFlight);
                        Some((index, path))
                    },
                }
            },
        }
    }

    fn first_pending(&self) -> (r: Option<(usize, String)>)
        ensures
            match r {
                Some((i, path)) => {
                    &&& i < self@.list.files.len()
                    &&& first_placeholder(self@.list.files, 0) == Some(i as int)
                    &&& self@.list.files[i as int].source == (FileSource::PendingContainer {
                        container_path: path,
                    })
                },
                None => first_placeholder(self@.list.files, 0) is None,
            },
    {
        let files = self.file_list.files();
        let mut i: usize = 0;
        while i < files.len()
            invariant
                files@ == self@.list.files,
                i <= files@.len(),
                first_placeholder(files@, 0) == first_placeholder(files@, i as int),
            decreases files.len() - i,
        {
            match &files[i].source {
                FileSource::PendingContainer { container_path } => {
                    return Some((i, container_path.clone()));
                },
                _ => {},
            }
            i = i + 1;
        }
        None
    }

    /// Takes the result of the container that was to be expanded at once.
    pub fn apply_sync(&mut self, index: usize, container_path: &str, result: ContainerResult,
        now: i128)
        requires
            old(self).wf(),
            index < old(self)@.list.files.len(),
        ensures
            applied(
                old(self)@,
                index as int,
                paths::location(container_path@),
                result,
                NavigationDirection::Forward,
                now,
                final(self)@,
            ),
            final(self).wf(),
    {
        let _ = self.apply_container_result(
            index,
            container_path,
            result,
            NavigationDirection::Forward,
            now,
        );
    }

    /// Ends an expansion at once: the images are got anew and the window is told.
    pub fn finish_sync(&mut self)
        requires
            old(self).wf(),
        ensures
            final(self)@ == document::told(
                document::prefetch_asked(document::cache_dropped(old(self)@)),
                DocumentEvent::FileListChanged,
            ),
            final(self).wf(),
    {
        self.invalidate_cache();
        self.schedule_prefetch();
        self.tell(DocumentEvent::FileListChanged);
    }
}

/// The first placeholder from `k` on.
pub open spec fn first_placeholder(files: Seq<FileInfo>, k: int) -> Option<int>
    decreases files.len() - k,
{
    if k >= files.len() {
        None
    } else if files[k].source is PendingContainer {
        Some(k)
    } else {
        first_placeholder(files, k + 1)
    }
}

/// The first placeholder's container is taken up; placeholders before it whose
/// containers are expanded already are taken out.
pub open spec fn next_taken(before: DocView, after: DocView, r: Option<(usize, String)>) -> bool
    decreases before.list.files.len(),
{
    match first_placeholder(before.list.files, 0) {
        None => r is None && after == before,
        Some(i) => match before.list.files[i].source {
            FileSource::PendingContainer { container_path } => {
                let at = paths::location(container_path@);
                if states::state_of(before.states, at) == Some(ContainerState::Expanded) {
                    0 <= i < before.list.files.len() && next_taken(
                        (DocView { list: file_list::without(before.list, i), ..before }),
                        after,
                        r,
                    )
                } else {
                    &&& r == Some((i as usize, container_path))
                    &&& i < after.list.files.len()
                    &&& after == DocView {
                        states: states::with_state(before.states, at, ContainerState::InFlight),
                        ..before
                    }
                }
            },
            _ => false,
        },
    }
}

proof fn waiting_places_wait(files: Seq<FileInfo>, states: StatesView, end: int)
    requires
        0 <= end <= files.len() <= usize::MAX,
    ensures
        forall|k: int|
            0 <= k < waiting(files, states, end).len() ==> (#[trigger] waiting(files, states, end)[k])
                < end && is_waiting(files[waiting(files, states, end)[k] as int], states),
    decreases end,
{
    if end > 0 {
        waiting_places_wait(files, states, end - 1);
        assert(((end - 1) as usize) as int == end - 1);
        let earlier = waiting(files, states, end - 1);
        let all = waiting(files, states, end);
        assert forall|k: int| 0 <= k < all.len() implies (#[trigger] all[k]) < end && is_waiting(
            files[all[k] as int],
            states,
        ) by {
            if k < earlier.len() {
                assert(all[k] == earlier[k]);
            }
        }
    }
}

} // verus!
