//! Groups of a list: the files of one folder, or the entries of one container.

use vstd::prelude::*;

use crate::paths;
use crate::file_info::{FileInfo, FileSource};
use crate::paths::{parent_of, same_path, Location};

verus! {

/// What the members of a group share.
pub enum GroupKey {
    Folder(String),
    Archive(String),
}

/// The folder of a path; the empty path where it has none.
pub open spec fn folder_of(path: Seq<char>) -> Seq<char> {
    match paths::spec_parent(path) {
        Some(p) => p,
        None => ""@,
    }
}

/// The group of an entry: whether it is a container, and where it lies.
pub open spec fn group_of(info: FileInfo) -> (bool, Location) {
    match info.source {
        FileSource::File(_) => (false, paths::location(folder_of(info.path@))),
        _ => (true, paths::location(info.source.holder())),
    }
}

impl GroupKey {
    pub open spec fn meaning(&self) -> (bool, Location) {
        match self {
            GroupKey::Folder(p) => (false, paths::location(p@)),
            GroupKey::Archive(p) => (true, paths::location(p@)),
        }
    }
}

/// The group of an entry.
pub fn group_key(info: &FileInfo) -> (r: GroupKey)
    ensures
        r.meaning() == group_of(*info),
{
    match &info.source {
        FileSource::ArchiveEntry { archive, .. } => GroupKey::Archive(archive.clone()),
        FileSource::PdfPage { pdf_path, .. } => GroupKey::Archive(pdf_path.clone()),
        FileSource::PendingContainer { container_path } => GroupKey::Archive(
            container_path.clone(),
        ),
        FileSource::File(_) => match parent_of(info.path.as_str()) {
            Some(p) => GroupKey::Folder(p),
            None => GroupKey::Folder("".to_owned()),
        },
    }
}

fn same_key(a: &GroupKey, b: &GroupKey) -> (r: bool)
    ensures
        r == (a.meaning() == b.meaning()),
{
    match (a, b) {
        (GroupKey::Folder(x), GroupKey::Folder(y)) => same_path(x.as_str(), y.as_str()),
        (GroupKey::Archive(x), GroupKey::Archive(y)) => same_path(x.as_str(), y.as_str()),
        _ => false,
    }
}

/// The first member of an entry's group, searched from `k` on.
pub open spec fn leader_from(files: Seq<FileInfo>, i: int, k: int) -> int
    decreases i - k,
{
    if k >= i || group_of(files[k]) == group_of(files[i]) {
        k
    } else {
        leader_from(files, i, k + 1)
    }
}

/// The first member of an entry's group.
pub open spec fn leader(files: Seq<FileInfo>, i: int) -> int {
    leader_from(files, i, 0)
}

/// The first members of the groups among the first `n` entries, in their order.
pub open spec fn leaders(files: Seq<FileInfo>, n: int) -> Seq<int>
    decreases n,
{
    if n <= 0 {
        Seq::empty()
    } else if leader(files, n - 1) == n - 1 {
        leaders(files, n - 1).push(n - 1)
    } else {
        leaders(files, n - 1)
    }
}

proof fn leader_from_found(files: Seq<FileInfo>, i: int, k: int)
    requires
        0 <= k <= i < files.len(),
    ensures
        k <= leader_from(files, i, k) <= i,
        group_of(files[leader_from(files, i, k)]) == group_of(files[i]),
        forall|j: int|
            k <= j < leader_from(files, i, k) ==> group_of(#[trigger] files[j]) != group_of(
                files[i],
            ),
    decreases i - k,
{
    if k < i && group_of(files[k]) != group_of(files[i]) {
        leader_from_found(files, i, k + 1);
    }
}

/// The leader is the first entry of its group.
pub proof fn leader_is_first(files: Seq<FileInfo>, i: int)
    requires
        0 <= i < files.len(),
    ensures
        0 <= leader(files, i) <= i,
        group_of(files[leader(files, i)]) == group_of(files[i]),
        forall|j: int|
            0 <= j < leader(files, i) ==> group_of(#[trigger] files[j]) != group_of(files[i]),
{
    leader_from_found(files, i, 0);
}

/// Entries have the same leader exactly when they are of one group.
pub proof fn same_group_same_leader(files: Seq<FileInfo>, i: int, j: int)
    requires
        0 <= i < files.len(),
        0 <= j < files.len(),
    ensures
        leader(files, i) == leader(files, j) <==> group_of(files[i]) == group_of(files[j]),
{
    leader_is_first(files, i);
    leader_is_first(files, j);
    let a = leader(files, i);
    let b = leader(files, j);
    if group_of(files[i]) == group_of(files[j]) {
        if a < b {
            assert(group_of(files[a]) != group_of(files[j]));
        }
        if b < a {
            assert(group_of(files[b]) != group_of(files[i]));
        }
    }
}

/// The leaders ascend, each leads itself, and every entry's leader is one.
pub proof fn leaders_ascend(files: Seq<FileInfo>, n: int)
    requires
        0 <= n <= files.len(),
    ensures
        leaders(files, n).len() <= n,
        forall|a: int|
            0 <= a < leaders(files, n).len() ==> 0 <= #[trigger] leaders(files, n)[a] < n
                && leader(files, leaders(files, n)[a]) == leaders(files, n)[a],
        forall|a: int, b: int|
            0 <= a < b < leaders(files, n).len() ==> #[trigger] leaders(files, n)[a]
                < #[trigger] leaders(files, n)[b],
        forall|i: int| 0 <= i < n ==> leaders(files, n).contains(#[trigger] leader(files, i)),
    decreases n,
{
    if n > 0 {
        leaders_ascend(files, n - 1);
        let before = leaders(files, n - 1);
        let all = leaders(files, n);
        leader_is_first(files, n - 1);
        assert forall|i: int| 0 <= i < n implies all.contains(#[trigger] leader(files, i)) by {
            let l = leader(files, i);
            if i < n - 1 {
                let a = choose|a: int| 0 <= a < before.len() && before[a] == l;
                assert(all[a] == l);
            } else if l == n - 1 {
                assert(all[all.len() - 1] == l);
            } else {
                // The leader of an earlier entry of the group is the same.
                same_group_same_leader(files, l, n - 1);
                let a = choose|a: int| 0 <= a < before.len() && before[a] == leader(files, l);
                assert(all[a] == l);
            }
        }
    }
}

/// The first entry of each group, in order of appearance, and for each entry the
/// number of its group.
pub fn compute_group_layout(files: &Vec<FileInfo>) -> (r: (Vec<usize>, Vec<usize>))
    ensures
        r.0@.len() == leaders(files@, files@.len() as int).len(),
        forall|g: int|
            0 <= g < r.0@.len() ==> #[trigger] r.0@[g] == leaders(files@, files@.len() as int)[g],
        r.1@.len() == files@.len(),
        forall|i: int|
            0 <= i < files@.len() ==> #[trigger] r.1@[i] < r.0@.len() && r.0@[r.1@[i] as int]
                == leader(files@, i),
{
    let mut seen: Vec<GroupKey> = Vec::new();
    let mut firsts: Vec<usize> = Vec::new();
    let mut groups: Vec<usize> = Vec::new();
    let mut i: usize = 0;
    while i < files.len()
        invariant
            i <= files@.len(),
            groups@.len() == i,
            seen@.len() == firsts@.len(),
            firsts@.len() == leaders(files@, i as int).len(),
            forall|g: int|
                0 <= g < firsts@.len() ==> #[trigger] firsts@[g] == leaders(files@, i as int)[g],
            forall|g: int|
                0 <= g < firsts@.len() ==> #[trigger] seen@[g].meaning() == group_of(
                    files@[firsts@[g] as int],
                ),
            forall|k: int|
                0 <= k < i ==> #[trigger] groups@[k] < firsts@.len() && firsts@[groups@[k] as int]
                    == leader(files@, k),
        decreases files.len() - i,
    {
        let key = group_key(&files[i]);
        let mut g: usize = 0;
        proof {
            leaders_ascend(files@, i as int);
            leader_is_first(files@, i as int);
        }
        while g < seen.len() && !same_key(&seen[g], &key)
            invariant
                g <= seen@.len(),
                key.meaning() == group_of(files@[i as int]),
                forall|h: int| 0 <= h < g ==> #[trigger] seen@[h].meaning() != key.meaning(),
            decreases seen.len() - g,
        {
            g = g + 1;
        }
        proof {
            let l = leader(files@, i as int);
            let known = leaders(files@, i as int);
            if g < seen@.len() {
                let f = firsts@[g as int] as int;
                assert(known[g as int] == f);
                same_group_same_leader(files@, f, i as int);
            } else if l < i {
                same_group_same_leader(files@, l, i as int);
                assert(known.contains(leader(files@, l)));
                let h = choose|h: int| 0 <= h < known.len() && known[h] == l;
                assert(firsts@[h] == l);
                assert(seen@[h].meaning() == group_of(files@[l]));
                assert(false);
            }
        }
        if g == seen.len() {
            seen.push(key);
            firsts.push(i);
        }
        groups.push(g);
        i = i + 1;
    }
    (firsts, groups)
}

} // verus!
