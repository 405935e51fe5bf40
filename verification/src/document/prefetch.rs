//! Which images are decoded ahead.

use vstd::prelude::*;

use super::utils::CacheRange;
use crate::file_info::{FileInfo, FileSource};

verus! {

/// The next entry at a distance, where it is in range.
pub open spec fn ahead(center: int, len: int, forward: int, d: int) -> Seq<int> {
    if d <= forward && center + d < len {
        seq![center + d]
    } else {
        Seq::empty()
    }
}

/// The entry before at a distance, where it is in range.
pub open spec fn behind(center: int, backward: int, d: int) -> Seq<int> {
    if d <= backward && d <= center {
        seq![center - d]
    } else {
        Seq::empty()
    }
}

/// The entries around the center up to a distance: the nearest first, and the
/// next before the one behind.
pub open spec fn around_center(center: int, len: int, forward: int, backward: int, d: int) -> Seq<
    int,
>
    decreases d,
{
    if d <= 0 {
        Seq::empty()
    } else {
        around_center(center, len, forward, backward, d - 1) + ahead(center, len, forward, d)
            + behind(center, backward, d)
    }
}

/// The greater of two numbers.
pub open spec fn greater(a: int, b: int) -> int {
    if a > b {
        a
    } else {
        b
    }
}

/// The entries that are decoded ahead, in order.
pub open spec fn prefetch_order(center: int, len: int, range: CacheRange) -> Seq<int> {
    around_center(
        center,
        len,
        range.forward as int,
        range.backward as int,
        greater(range.forward as int, range.backward as int),
    )
}

/// An entry to decode ahead.
#[derive(Debug)]
pub struct PrefetchRequest {
    pub index: usize,
    pub path: String,
    /// The PDF's path and the page.
    pub pdf_page: Option<(String, u32)>,
    /// The archive and the entry to read on demand.
    pub archive_entry: Option<(String, String)>,
}

/// The request is for the entry.
pub open spec fn asks_for(request: PrefetchRequest, files: Seq<FileInfo>, index: int) -> bool {
    &&& request.index == index
    &&& request.path == files[index].path
    &&& request.pdf_page == (match files[index].source {
        FileSource::PdfPage { pdf_path, page_index } => Some((pdf_path, page_index)),
        _ => None,
    })
    &&& request.archive_entry == (match files[index].source {
        FileSource::ArchiveEntry { archive, entry, on_demand } => if on_demand {
            Some((archive, entry))
        } else {
            None
        },
        _ => None,
    })
}

/// The entries in reach are those of the list within the range, without the
/// center; each comes once, and a nearer one earlier.
pub proof fn order_is_complete(center: int, len: int, range: CacheRange)
    requires
        0 <= center < len,
    ensures
        forall|i: int| #[trigger]
            prefetch_order(center, len, range).contains(i) <==> {
                &&& 0 <= i < len
                &&& i != center
                &&& center - range.backward <= i <= center + range.forward
            },
        prefetch_order(center, len, range).no_duplicates(),
        forall|a: int, b: int|
            0 <= a < b < prefetch_order(center, len, range).len() ==> distance(
                center,
                #[trigger] prefetch_order(center, len, range)[a],
            ) <= distance(center, #[trigger] prefetch_order(center, len, range)[b]),
{
    let f = range.forward as int;
    let b = range.backward as int;
    ring_is_complete(center, len, f, b, greater(f, b));
}

/// How far two places are apart.
pub open spec fn distance(a: int, b: int) -> int {
    if a < b {
        b - a
    } else {
        a - b
    }
}

proof fn ring_is_complete(center: int, len: int, f: int, b: int, d: int)
    requires
        0 <= center < len,
        0 <= f,
        0 <= b,
        0 <= d,
    ensures
        forall|i: int| #[trigger]
            around_center(center, len, f, b, d).contains(i) <==> {
                &&& 0 <= i < len
                &&& i != center
                &&& center - b <= i <= center + f
                &&& distance(center, i) <= d
            },
        around_center(center, len, f, b, d).no_duplicates(),
        forall|x: int, y: int|
            0 <= x < y < around_center(center, len, f, b, d).len() ==> distance(
                center,
                #[trigger] around_center(center, len, f, b, d)[x],
            ) <= distance(center, #[trigger] around_center(center, len, f, b, d)[y]),
    decreases d,
{
    if d > 0 {
        ring_is_complete(center, len, f, b, d - 1);
        let inner = around_center(center, len, f, b, d - 1);
        let next = ahead(center, len, f, d);
        let last = behind(center, b, d);
        let all = around_center(center, len, f, b, d);
        assert(all == inner + next + last);
        assert forall|i: int| 0 <= i < inner.len() implies distance(center, #[trigger] inner[i])
            <= d - 1 by {
            assert(inner.contains(inner[i]));
        }
        assert forall|i: int| #[trigger] all.contains(i) <==> {
            &&& 0 <= i < len
            &&& i != center
            &&& center - b <= i <= center + f
            &&& distance(center, i) <= d
        } by {
            if all.contains(i) {
                let k = choose|k: int| 0 <= k < all.len() && all[k] == i;
                if k < inner.len() {
                    assert(inner.contains(i)) by {
                        assert(inner[k] == i);
                    }
                }
            }
            if 0 <= i < len && i != center && center - b <= i <= center + f && distance(center, i)
                <= d {
                if distance(center, i) <= d - 1 {
                    assert(inner.contains(i));
                    let k = choose|k: int| 0 <= k < inner.len() && inner[k] == i;
                    assert(all[k] == i);
                } else if i > center {
                    assert(next.len() == 1);
                    assert(all[inner.len() as int] == i);
                } else {
                    assert(last.len() == 1);
                    assert(all[all.len() - 1] == i);
                }
            }
        }
        assert(all.no_duplicates()) by {
            assert forall|x: int, y: int|
                0 <= x < all.len() && 0 <= y < all.len() && x != y implies all[x] != all[y] by {
                if x < inner.len() {
                    assert(inner.contains(inner[x]));
                }
                if y < inner.len() {
                    assert(inner.contains(inner[y]));
                }
            }
        }
    } else {
        assert forall|i: int| !(0 <= i < len && i != center && distance(center, i) <= d) by {}
    }
}

fn is_among(indices: &Vec<usize>, index: usize) -> (r: bool)
    ensures
        r == indices@.contains(index),
{
    let mut i: usize = 0;
    while i < indices.len()
        invariant
            i <= indices@.len(),
            forall|k: int| 0 <= k < i ==> indices@[k] != index,
        decreases indices.len() - i,
    {
        if indices[i] == index {
            return true;
        }
        i = i + 1;
    }
    false
}

/// The entries that are decoded ahead, in order.
pub fn prefetch_indices(center: usize, len: usize, range: CacheRange) -> (r: Vec<usize>)
    requires
        center < len,
    ensures
        r@.map_values(|i: usize| i as int) == prefetch_order(center as int, len as int, range),
{
    let ghost whole = |i: usize| i as int;
    let farthest: usize = if range.forward > range.backward {
        range.forward
    } else {
        range.backward
    };
    let mut r: Vec<usize> = Vec::new();
    let mut done: usize = 0;
    assert(r@.map_values(whole) =~= Seq::empty());
    while done < farthest
        invariant
            center < len,
            done <= farthest,
            whole == (|i: usize| i as int),
            r@.map_values(whole) == around_center(
                center as int,
                len as int,
                range.forward as int,
                range.backward as int,
                done as int,
            ),
        decreases farthest - done,
    {
        let d: usize = done + 1;
        let ghost before = r@.map_values(whole);
        if d <= range.forward && d < len - center {
            r.push(center + d);
        }
        let ghost middle = r@.map_values(whole);
        assert(middle =~= before + ahead(
            center as int,
            len as int,
            range.forward as int,
            d as int,
        ));
        if d <= range.backward && d <= center {
            r.push(center - d);
        }
        assert(r@.map_values(whole) =~= middle + behind(
            center as int,
            range.backward as int,
            d as int,
        ));
        done = d;
    }
    r
}

/// The entries that are not cached yet.
pub open spec fn uncached(wanted: Seq<usize>, cached: Seq<usize>) -> Seq<usize> {
    wanted.filter(|i: usize| !cached.contains(i))
}

/// The requests for the entries around the center that are not cached yet, in
/// order.
pub fn prefetch_requests(
    center: usize,
    files: &[FileInfo],
    range: CacheRange,
    cached: &Vec<usize>,
) -> (r: Vec<PrefetchRequest>)
    requires
        center < files@.len(),
    ensures
        exists|wanted: Seq<usize>|
            {
                &&& wanted.map_values(|i: usize| i as int) == prefetch_order(
                    center as int,
                    files@.len() as int,
                    range,
                )
                &&& r@.len() == (#[trigger] uncached(wanted, cached@)).len()
                &&& forall|k: int|
                    0 <= k < r@.len() ==> asks_for(
                        #[trigger] r@[k],
                        files@,
                        uncached(wanted, cached@)[k] as int,
                    )
            },
{
    let wanted = prefetch_indices(center, files.len(), range);
    let mut r: Vec<PrefetchRequest> = Vec::new();
    let mut k: usize = 0;
    proof {
        reveal(Seq::filter);
        assert(uncached(wanted@.take(0), cached@) =~= Seq::empty());
        order_is_complete(center as int, files@.len() as int, range);
        let whole = |i: usize| i as int;
        assert forall|i: int| 0 <= i < wanted@.len() implies (#[trigger] wanted@[i])
            < files@.len() by {
            assert(wanted@.map_values(whole)[i] == wanted@[i] as int);
            assert(prefetch_order(center as int, files@.len() as int, range).contains(
                wanted@[i] as int,
            ));
        }
    }
    while k < wanted.len()
        invariant
            k <= wanted@.len(),
            forall|i: int| 0 <= i < wanted@.len() ==> (#[trigger] wanted@[i]) < files@.len(),
            r@.len() == uncached(wanted@.take(k as int), cached@).len(),
            forall|j: int|
                0 <= j < r@.len() ==> asks_for(
                    #[trigger] r@[j],
                    files@,
                    uncached(wanted@.take(k as int), cached@)[j] as int,
                ),
        decreases wanted.len() - k,
    {
        proof {
            reveal(Seq::filter);
            assert(wanted@.take(k + 1).drop_last() =~= wanted@.take(k as int));
            assert(wanted@.take(k + 1).last() == wanted@[k as int]);
        }
        let index: usize = wanted[k];
        if !is_among(cached, index) {
            let info = &files[index];
            let pdf_page = match &info.source {
                FileSource::PdfPage { pdf_path, page_index } => Some(
                    (pdf_path.clone(), *page_index),
                ),
                _ => None,
            };
            let archive_entry = match &info.source {
                FileSource::ArchiveEntry { archive, entry, on_demand } => if *on_demand {
                    Some((archive.clone(), entry.clone()))
                } else {
                    None
                },
                _ => None,
            };
            r.push(PrefetchRequest { index, path: info.path.clone(), pdf_page, archive_entry });
        }
        k = k + 1;
    }
    assert(wanted@.take(wanted@.len() as int) =~= wanted@);
    r
}

/// Of two images that are equally far, the one ahead is decoded first.
pub proof fn ahead_comes_first(center: int, len: int, range: CacheRange, a: int, b: int)
    requires
        0 <= center < len,
        0 <= a < prefetch_order(center, len, range).len(),
        0 <= b < prefetch_order(center, len, range).len(),
        prefetch_order(center, len, range)[a] > center,
        prefetch_order(center, len, range)[a] - center == center - prefetch_order(
            center,
            len,
            range,
        )[b],
    ensures
        a < b,
{
    let f = range.forward as int;
    let w = range.backward as int;
    ring_goes_ahead(center, len, f, w, greater(f, w), a, b);
}

proof fn ring_goes_ahead(center: int, len: int, f: int, w: int, d: int, a: int, b: int)
    requires
        0 <= center < len,
        0 <= f,
        0 <= w,
        0 <= d,
        0 <= a < around_center(center, len, f, w, d).len(),
        0 <= b < around_center(center, len, f, w, d).len(),
        around_center(center, len, f, w, d)[a] > center,
        around_center(center, len, f, w, d)[a] - center == center - around_center(
            center,
            len,
            f,
            w,
            d,
        )[b],
    ensures
        a < b,
    decreases d,
{
    let inner = around_center(center, len, f, w, d - 1);
    ring_is_complete(center, len, f, w, d - 1);
    let (next, last) = (ahead(center, len, f, d), behind(center, w, d));
    let all = around_center(center, len, f, w, d);
    assert(all == inner + next + last);
    if a < inner.len() {
        assert(inner.contains(inner[a]));
        if b < inner.len() {
            ring_goes_ahead(center, len, f, w, d - 1, a, b);
        }
    } else if b < inner.len() {
        assert(inner.contains(inner[b]));
    }
}

} // verus!
