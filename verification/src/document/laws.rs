//! What holds of every document.

use vstd::prelude::*;

use super::expansion;
use super::expansion::{Absorbed, ByDistance};
use super::states;
use super::states::StatesView;
use super::types::{ContainerExpandEvent, ContainerState, Effect};
use super::{editing, loading, open};
use super::DocView;
use crate::document;
use crate::editing::EditingSession;
use crate::file_info::{FileInfo, FileSource};
use crate::file_list::ListView;
use crate::image;
use crate::image::DecodedImage;
use crate::ordering;
use crate::paths;
use crate::paths::Location;
use crate::persistent_filter;
use crate::persistent_filter::PersistentFilter;

verus! {

/// What an expansion reports after it was given up changes nothing in the list:
/// at most its extracted files are removed.
pub proof fn late_reports_are_discarded(
    d: DocView,
    event: ContainerExpandEvent,
    now: i128,
    after: DocView,
    outcome: Absorbed,
)
    requires
        event matches ContainerExpandEvent::Expanded { generation, .. } && generation
            == d.generation,
        expansion::absorbed(expansion::abandoned(d), event, now, after, outcome),
    ensures
        outcome == Absorbed::Discarded,
        after.list == d.list,
        after.states == d.states,
        after.intent == d.intent,
        after.image == d.image,
{
    assert(d.generation.wrapping_add(1) != d.generation);
}

/// A container that was waited for is waited for no more once its report came.
pub proof fn awaited_report_ends_waiting(
    d: DocView,
    event: ContainerExpandEvent,
    now: i128,
    after: DocView,
)
    requires
        expansion::absorbed(d, event, now, after, Absorbed::Applied { awaited: true }),
    ensures
        after.intent is None,
{
}

/// Starting anew leaves no entries, no containers and no wait, and what was under
/// way counts no more.
pub proof fn reset_forgets_all(d: DocView)
    ensures
        open::reset(d).list.files.len() == 0,
        open::reset(d).list.current is None,
        open::reset(d).list.order == d.list.order,
        open::reset(d).states.len() == 0,
        open::reset(d).temp_dirs.len() == 0,
        open::reset(d).containers.len() == 0,
        open::reset(d).intent is None,
        !open::reset(d).expanding,
        open::reset(d).generation != d.generation,
{
    assert(d.generation.wrapping_add(1) != d.generation);
}

/// Folders with extracted files are removed when the containers are forgotten.
pub proof fn folders_are_removed(d: DocView, i: int)
    requires
        0 <= i < d.temp_dirs.len(),
    ensures
        document::cleaned_up(d).out.contains(Effect::RemoveFolder(d.temp_dirs[i])),
{
    let out = document::cleaned_up(d).out;
    assert(out[d.out.len() + i] == Effect::RemoveFolder(d.temp_dirs[i]));
}

/// While containers are left to expand, fewer are expanded than there are.
pub proof fn progress_is_partial(s: StatesView)
    ensures
        states::progress(s) matches Some((done, total)) ==> done < total && total == s.len(),
        states::progress(s) is None ==> forall|i: int|
            0 <= i < s.len() ==> (#[trigger] s[i]).1 == ContainerState::Expanded,
{
    let p = |e: (Location, ContainerState)| e.1 == ContainerState::Expanded;
    if states::progress(s) is None {
        s.lemma_filter_len(p);
        full_filter(s);
    }
}

proof fn full_filter(s: StatesView)
    requires
        s.filter(|e: (Location, ContainerState)| e.1 == ContainerState::Expanded).len()
            == s.len(),
    ensures
        forall|i: int| 0 <= i < s.len() ==> (#[trigger] s[i]).1 == ContainerState::Expanded,
    decreases s.len(),
{
    let p = |e: (Location, ContainerState)| e.1 == ContainerState::Expanded;
    reveal(Seq::filter);
    if s.len() > 0 {
        s.drop_last().lemma_filter_len(p);
        full_filter(s.drop_last());
        assert forall|i: int| 0 <= i < s.len() implies (#[trigger] s[i]).1
            == ContainerState::Expanded by {
            if i < s.len() - 1 {
                assert(s.drop_last()[i] == s[i]);
            }
        }
    }
}

/// The containers whose expansion is asked for are in flight, and those that are
/// neither keep their state.
pub proof fn asked_are_in_flight(s: StatesView, paths: Seq<String>, at: Location)
    requires
        states::distinct(s),
    ensures
        states::state_of(states::with_all(s, paths, ContainerState::InFlight), at) == (
        if open::holds_place(paths, at) {
            Some(ContainerState::InFlight)
        } else {
            states::state_of(s, at)
        }),
    decreases paths.len(),
{
    if paths.len() > 0 {
        let fewer = paths.drop_last();
        let last = paths::location(paths.last()@);
        asked_are_in_flight(s, fewer, at);
        states::all_stay_distinct(s, fewer, ContainerState::InFlight);
        states::set_is_found(
            states::with_all(s, fewer, ContainerState::InFlight),
            last,
            ContainerState::InFlight,
            at,
        );
        assert(open::holds_place(paths, at) == (open::holds_place(fewer, at) || at == last)) by {
            if open::holds_place(fewer, at) {
                let i = choose|i: int|
                    0 <= i < fewer.len() && paths::location(#[trigger] fewer[i]@) == at;
                assert(paths[i] == fewer[i]);
            }
            if at == last {
                assert(paths::location(paths[paths.len() - 1]@) == at);
            }
            if open::holds_place(paths, at) {
                let i = choose|i: int|
                    0 <= i < paths.len() && paths::location(#[trigger] paths[i]@) == at;
                if i < fewer.len() {
                    assert(fewer[i] == paths[i]);
                }
            }
        }
    }
}

/// An expansion asks for every waiting container once, the nearer ones first.
pub proof fn nearest_come_first(d: DocView, paths: Seq<String>) -> (places: Seq<usize>)
    requires
        expansion::nearest_first(d, paths),
    ensures
        places.len() == paths.len(),
        ordering::rearranged(
            expansion::waiting(d.list.files, d.states, d.list.files.len() as int),
            places,
        ),
        forall|k: int|
            0 <= k < paths.len() ==> d.list.files[places[k] as int].source == (
            FileSource::PendingContainer { container_path: #[trigger] paths[k] }),
        forall|a: int, b: int|
            0 <= a < b < places.len() ==> expansion::distance(
                d.list.place() as usize,
                #[trigger] places[a],
            ) <= expansion::distance(d.list.place() as usize, #[trigger] places[b]),
{
    let center = d.list.place() as usize;
    let all = expansion::waiting(d.list.files, d.states, d.list.files.len() as int);
    let p = ByDistance { center };
    let places = choose|places: Seq<usize>|
        {
            &&& #[trigger] ordering::stably_sorted(p, all, places)
            &&& paths.len() == places.len()
            &&& forall|k: int|
                0 <= k < paths.len() ==> d.list.files[places[k] as int].source == (
                FileSource::PendingContainer { container_path: #[trigger] paths[k] })
        };
    let o = choose|o: Seq<usize>|
        {
            &&& #[trigger] ordering::arranges(o, 0, all.len() as int)
            &&& places == ordering::reordered(all, o)
            &&& ordering::in_order(p, all, o)
        };
    assert(ordering::arranges(o, 0, all.len() as int));
    assert forall|a: int, b: int| 0 <= a < b < places.len() implies expansion::distance(
        center,
        #[trigger] places[a],
    ) <= expansion::distance(center, #[trigger] places[b]) by {
        assert(ordering::precedes(p, all, o[a] as int, o[b] as int));
    }
    places
}

/// Standing on a container that is not expanded shows no image and waits for it;
/// standing elsewhere waits for nothing.
pub proof fn waiting_only_on_placeholders(before: DocView, after: DocView)
    requires
        before.list.valid(),
        before.list.current is Some,
        loading::loads(before, after),
    ensures
        ({
            let source = before.list.files[before.list.current->0].source;
            match source {
                FileSource::PendingContainer { container_path } => {
                    &&& after.image is None
                    &&& after.intent == Some((container_path, before.direction))
                },
                _ => after.intent is None && after.image == before.image,
            }
        }),
        after.list == before.list,
{
}

/// The entries that were listed stay listed while bookmarks are taken.
proof fn entries_stay(steps: Seq<DocView>, bookmarks: Seq<open::ReadBookmark>, k: int, i: int)
    requires
        open::all_files_taken(steps, bookmarks),
        0 <= k <= bookmarks.len(),
        0 <= i < steps[0].list.files.len(),
    ensures
        i < steps[k].list.files.len(),
        steps[k].list.files[i] == steps[0].list.files[i],
    decreases k,
{
    if k > 0 {
        entries_stay(steps, bookmarks, k - 1, i);
        assert(open::files_taken(
            steps[k - 1],
            bookmarks[k - 1].entries@,
            bookmarks[k - 1].lookup@,
            steps[k - 1 + 1],
        ));
    }
}

/// Every image among several inputs that can be read is in the list afterwards.
pub proof fn inputs_are_listed(
    d: DocView,
    candidates: Seq<open::Candidate>,
    bookmarks: Seq<open::ReadBookmark>,
    after: DocView,
    c: int,
) -> (i: int)
    requires
        open::inputs_listed(d, candidates, bookmarks, after),
        0 <= c < candidates.len(),
        open::kind_of(d, candidates[c].path@) == open::CandidateKind::Image,
        candidates[c].metadata is Some,
    ensures
        0 <= i < after.list.files.len(),
        after.list.files[i].describes(
            candidates[c].path@,
            candidates[c].metadata->0.size,
            candidates[c].metadata->0.modified,
        ),
{
    let steps = choose|steps: Seq<DocView>|
        {
            &&& #[trigger] open::all_files_taken(steps, bookmarks)
            &&& open::images_taken(d, candidates, steps[0])
            &&& steps.last() == after
        };
    let readable = open::readable_images(d, candidates);
    let infos = choose|infos: Seq<FileInfo>| #[trigger]
        open::fresh_entries(infos, readable) && steps[0] == open::with_entries(d, infos);
    let wanted = |x: open::Candidate|
        open::kind_of(d, x.path@) == open::CandidateKind::Image && x.metadata is Some;
    candidates.lemma_filter_contains(wanted, c);
    assert(readable == candidates.filter(wanted));
    let j = choose|j: int| 0 <= j < readable.len() && readable[j] == candidates[c];
    let i = d.list.files.len() + j;
    assert(steps[0].list.files[i] == infos[j]);
    entries_stay(steps, bookmarks, bookmarks.len() as int, i);
    i
}

/// Filters that are not in use change nothing, and a single one in use makes the shown
/// image of the decoded one.
pub proof fn filters_show_image(
    filter: PersistentFilter,
    picture: DecodedImage,
    result: DecodedImage,
)
    requires
        loading::shown(filter, picture, result),
    ensures
        !filter.enabled ==> result == picture,
        filter.operations@.len() == 0 ==> result == picture,
        filter.enabled && filter.operations@.len() == 1 ==> exists|first: DecodedImage|
            image::same_image(picture, first) && #[trigger] filter.operations@[0].makes(
                first,
                result,
            ),
{
    if filter.enabled && filter.operations@.len() == 1 {
        let steps = choose|steps: Seq<DecodedImage>| #[trigger]
            persistent_filter::chained(filter.operations@, steps) && image::same_image(
                picture,
                steps[0],
            ) && steps.last() == result;
        let i: int = 0;
        assert(filter.operations@[i].makes(steps[i], steps[i + 1]));
    }
}

/// However often an image is edited, the image from before the first edit is kept.
pub proof fn original_is_kept(
    before: DocView,
    first: Option<EditingSession>,
    between: DocView,
    second: Option<EditingSession>,
)
    requires
        before.edit is None,
        before.image is Some,
        editing::edited(before, first),
        between.edit == first,
        editing::edited(between, second),
    ensures
        second matches Some(session) && session.modified && image::same_image(
            before.image->0,
            session.backup,
        ),
{
}

/// A file that could not be decoded is passed over from then on, and only it.
pub proof fn failure_is_noted(list: ListView, index: int, k: int)
    requires
        0 <= index < list.files.len(),
        0 <= k < list.files.len(),
    ensures
        loading::failed_at(list, index).files.len() == list.files.len(),
        loading::failed_at(list, index).files[k].load_failed == (k == index
            || list.files[k].load_failed),
        loading::failed_at(list, index).files[k].path == list.files[k].path,
        loading::failed_at(list, index).files[k].marked == list.files[k].marked,
        loading::failed_at(list, index).current == list.current,
{
}

} // verus!
