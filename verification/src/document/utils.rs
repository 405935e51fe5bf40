//! The order in which paths are taken, and what is decoded ahead.

use std::cmp::Ordering;

use vstd::prelude::*;

use crate::file_info;
use crate::file_list::sort;
use crate::file_list::sort::compare_natural;
use crate::ordering;
use crate::ordering::{stable_sort, Precedence};
use crate::paths;
use crate::paths::{file_name_of, is_under, same_path};
use crate::text;

verus! {

/// The file name of a path; empty where it has none.
pub open spec fn name_of(path: Seq<char>) -> Seq<char> {
    file_info::text_or(paths::spec_file_name(path), ""@)
}

fn name_part(path: &str) -> (r: String)
    ensures
        r@ == name_of(path@),
{
    match file_name_of(path) {
        Some(name) => name,
        None => "".to_owned(),
    }
}

/// Paths in the natural order of their file names.
pub struct ByFileName;

impl Precedence<String> for ByFileName {
    open spec fn before(&self, a: String, b: String) -> bool {
        sort::natural_order(name_of(a@), name_of(b@)) is Less
    }

    proof fn one_way(&self, a: String, b: String) {
        text::lex_less_asymmetric(
            sort::natural_key(name_of(a@)),
            sort::natural_key(name_of(b@)),
        );
    }

    proof fn passes_on(&self, a: String, b: String, c: String) {
        sort::lex_not_less_transitive(
            sort::natural_key(name_of(a@)),
            sort::natural_key(name_of(b@)),
            sort::natural_key(name_of(c@)),
        );
    }

    fn is_before(&self, a: &String, b: &String) -> (r: bool) {
        let x = name_part(a.as_str());
        let y = name_part(b.as_str());
        match compare_natural(x.as_str(), y.as_str()) {
            Ordering::Less => true,
            _ => false,
        }
    }
}

/// Puts paths in the natural order of their file names.
pub fn sort_paths_natural(paths: Vec<String>) -> (r: Vec<String>)
    ensures
        ordering::stably_sorted(ByFileName, paths@, r@),
{
    stable_sort(paths, &ByFileName)
}

/// No path before place `i` denotes the same.
pub open spec fn is_new(paths: Seq<String>, i: int) -> bool {
    forall|j: int|
        0 <= j < i ==> paths::location(#[trigger] paths[j]@) != paths::location(paths[i]@)
}

/// The paths without those that denote the same as an earlier one.
pub open spec fn deduplicated(paths: Seq<String>) -> Seq<String>
    decreases paths.len(),
{
    if paths.len() == 0 {
        paths
    } else {
        let rest = deduplicated(paths.drop_last());
        if is_new(paths, paths.len() - 1) {
            rest.push(paths.last())
        } else {
            rest
        }
    }
}

/// The path lies under another of the paths.
pub open spec fn is_nested(paths: Seq<String>, path: Seq<char>) -> bool {
    exists|j: int|
        {
            &&& 0 <= j < paths.len()
            &&& paths::location(#[trigger] paths[j]@) != paths::location(path)
            &&& paths::lies_under(path, paths[j]@)
        }
}

/// The paths that do not lie under others of them.
pub open spec fn outermost(paths: Seq<String>) -> Seq<String> {
    paths.filter(|p: String| !is_nested(paths, p@))
}

fn stands_before(paths: &Vec<String>, i: usize) -> (r: bool)
    requires
        i < paths@.len(),
    ensures
        r == !is_new(paths@.take(i + 1), i as int),
{
    let mut j: usize = 0;
    while j < i
        invariant
            j <= i < paths@.len(),
            forall|k: int|
                0 <= k < j ==> paths::location(#[trigger] paths@[k]@) != paths::location(
                    paths@[i as int]@,
                ),
        decreases i - j,
    {
        if same_path(paths[j].as_str(), paths[i].as_str()) {
            assert(paths@.take(i + 1)[j as int] == paths@[j as int]);
            return true;
        }
        j = j + 1;
    }
    assert(forall|k: int| 0 <= k < i ==> #[trigger] paths@.take(i + 1)[k] == paths@[k]);
    false
}

fn nested(paths: &Vec<String>, path: &str) -> (r: bool)
    ensures
        r == is_nested(paths@, path@),
{
    let mut j: usize = 0;
    while j < paths.len()
        invariant
            j <= paths@.len(),
            forall|k: int|
                0 <= k < j ==> !(paths::location(#[trigger] paths@[k]@) != paths::location(path@)
                    && paths::lies_under(path@, paths@[k]@)),
        decreases paths.len() - j,
    {
        if !same_path(paths[j].as_str(), path) && is_under(path, paths[j].as_str()) {
            return true;
        }
        j = j + 1;
    }
    false
}

/// The inputs to open: none twice, none that lies under another, in the natural
/// order of their file names.
pub fn arrange_inputs(inputs: &Vec<String>) -> (r: Vec<String>)
    ensures
        ordering::stably_sorted(ByFileName, outermost(deduplicated(inputs@)), r@),
{
    let mut fresh: Vec<String> = Vec::new();
    let mut i: usize = 0;
    assert(inputs@.take(0) =~= Seq::empty());
    while i < inputs.len()
        invariant
            i <= inputs@.len(),
            fresh@ == deduplicated(inputs@.take(i as int)),
        decreases inputs.len() - i,
    {
        assert(inputs@.take(i + 1).drop_last() =~= inputs@.take(i as int));
        assert(inputs@.take(i + 1).last() == inputs@[i as int]);
        if !stands_before(inputs, i) {
            fresh.push(inputs[i].clone());
        }
        i = i + 1;
    }
    assert(inputs@.take(inputs@.len() as int) =~= inputs@);
    let ghost all = fresh@;
    let ghost free = |p: String| !is_nested(all, p@);
    let mut kept: Vec<String> = Vec::new();
    let mut k: usize = 0;
    proof {
        reveal(Seq::filter);
        assert(all.take(0).filter(free) =~= Seq::empty());
    }
    while k < fresh.len()
        invariant
            k <= fresh@.len(),
            fresh@ == all,
            free == (|p: String| !is_nested(all, p@)),
            kept@ == all.take(k as int).filter(free),
        decreases fresh.len() - k,
    {
        proof {
            reveal(Seq::filter);
            assert(all.take(k + 1).drop_last() =~= all.take(k as int));
            assert(all.take(k + 1).last() == all[k as int]);
        }
        if !nested(&fresh, fresh[k].as_str()) {
            kept.push(fresh[k].clone());
        }
        k = k + 1;
    }
    assert(all.take(all.len() as int) =~= all);
    sort_paths_natural(kept)
}

/// What a folder holds.
pub struct ScannedEntry {
    pub path: String,
    pub is_file: bool,
    pub is_dir: bool,
    /// A link to another place; such entries are left out.
    pub is_reparse_point: bool,
}

/// The paths of the files among a folder's entries, in order.
pub open spec fn files_among(entries: Seq<ScannedEntry>) -> Seq<String> {
    entries.filter(|e: ScannedEntry| !e.is_reparse_point && e.is_file).map_values(
        |e: ScannedEntry| e.path,
    )
}

/// The paths of the folders among a folder's entries, in order.
pub open spec fn folders_among(entries: Seq<ScannedEntry>) -> Seq<String> {
    entries.filter(|e: ScannedEntry| !e.is_reparse_point && !e.is_file && e.is_dir).map_values(
        |e: ScannedEntry| e.path,
    )
}

proof fn among_grows(entries: Seq<ScannedEntry>, i: int)
    requires
        0 <= i < entries.len(),
    ensures
        files_among(entries.take(i + 1)) == if !entries[i].is_reparse_point && entries[i].is_file {
            files_among(entries.take(i)).push(entries[i].path)
        } else {
            files_among(entries.take(i))
        },
        folders_among(entries.take(i + 1)) == if !entries[i].is_reparse_point
            && !entries[i].is_file && entries[i].is_dir {
            folders_among(entries.take(i)).push(entries[i].path)
        } else {
            folders_among(entries.take(i))
        },
{
    reveal(Seq::filter);
    assert(entries.take(i + 1).drop_last() =~= entries.take(i));
    assert(entries.take(i + 1).last() == entries[i]);
    if !entries[i].is_reparse_point && entries[i].is_file {
        assert(files_among(entries.take(i + 1)) =~= files_among(entries.take(i)).push(
            entries[i].path,
        ));
    }
    if !entries[i].is_reparse_point && !entries[i].is_file && entries[i].is_dir {
        assert(folders_among(entries.take(i + 1)) =~= folders_among(entries.take(i)).push(
            entries[i].path,
        ));
    }
}

/// The files of a folder, and the folders in it that are to be entered, each in
/// the natural order of the names.
pub fn arrange_folder(entries: &Vec<ScannedEntry>) -> (r: (Vec<String>, Vec<String>))
    ensures
        ordering::stably_sorted(ByFileName, files_among(entries@), (r.0)@),
        ordering::stably_sorted(ByFileName, folders_among(entries@), (r.1)@),
{
    let mut files: Vec<String> = Vec::new();
    let mut folders: Vec<String> = Vec::new();
    let mut i: usize = 0;
    proof {
        reveal(Seq::filter);
        assert(files_among(entries@.take(0)) =~= Seq::empty());
        assert(folders_among(entries@.take(0)) =~= Seq::empty());
    }
    while i < entries.len()
        invariant
            i <= entries@.len(),
            files@ == files_among(entries@.take(i as int)),
            folders@ == folders_among(entries@.take(i as int)),
        decreases entries.len() - i,
    {
        let e = &entries[i];
        proof {
            among_grows(entries@, i as int);
        }
        if !e.is_reparse_point {
            if e.is_file {
                files.push(e.path.clone());
            } else if e.is_dir {
                folders.push(e.path.clone());
            }
        }
        i = i + 1;
    }
    assert(entries@.take(entries@.len() as int) =~= entries@);
    (sort_paths_natural(files), sort_paths_natural(folders))
}

/// How many images are decoded ahead in either direction.
#[derive(Debug, Clone, Copy, PartialEq, Eq, Structural)]
pub struct CacheRange {
    pub forward: usize,
    pub backward: usize,
}

pub open spec fn clamped(x: int, lo: int, hi: int) -> int {
    if x < lo {
        lo
    } else if x > hi {
        hi
    } else {
        x
    }
}

/// The images that fit into the budget, but three at least.
pub open spec fn slots(budget: int, base: int) -> int {
    if budget / base < 3 {
        3
    } else {
        budget / base
    }
}

/// The range for a budget: two thirds of the slots forward, one to four, and one
/// third backward, one or two.
pub fn update_cache_range(budget: usize, base_image_size: usize) -> (r: CacheRange)
    requires
        base_image_size > 0,
    ensures
        r.forward == clamped(slots(budget as int, base_image_size as int) * 2 / 3, 1, 4),
        r.backward == clamped(slots(budget as int, base_image_size as int) / 3, 1, 2),
{
    let slots: usize = if budget / base_image_size < 3 {
        3
    } else {
        budget / base_image_size
    };
    let two_thirds: u128 = slots as u128 * 2 / 3;
    let third: usize = slots / 3;
    let forward: usize = if two_thirds > 4 {
        4
    } else {
        two_thirds as usize
    };
    let backward: usize = if third > 2 {
        2
    } else {
        third
    };
    CacheRange { forward, backward }
}

/// What is decoded ahead in either direction fits into the slots, there is at least one
/// image each way, and no fewer ahead than behind. A larger budget never means fewer.
pub proof fn range_goes_by_budget(small: int, large: int, base: int)
    requires
        0 <= small <= large,
        0 < base,
    ensures
        ({
            let ahead = clamped(slots(small, base) * 2 / 3, 1, 4);
            let behind = clamped(slots(small, base) / 3, 1, 2);
            &&& 1 <= behind <= ahead
            &&& ahead + behind <= slots(small, base)
            &&& ahead <= clamped(slots(large, base) * 2 / 3, 1, 4)
            &&& behind <= clamped(slots(large, base) / 3, 1, 2)
            &&& small >= 6 * base ==> ahead == 4 && behind == 2
            &&& small < 4 * base ==> ahead == 2 && behind == 1
        }),
{
    vstd::arithmetic::div_mod::lemma_div_is_ordered(small, large, base);
    let q = small / base;
    vstd::arithmetic::div_mod::lemma_fundamental_div_mod(small, base);
    vstd::arithmetic::div_mod::lemma_mod_bound(small, base);
    assert(small >= 6 * base ==> q >= 6) by (nonlinear_arith)
        requires
            small == base * q + small % base,
            0 <= small % base < base,
    ;
    assert(small < 4 * base ==> q < 4) by (nonlinear_arith)
        requires
            small == base * q + small % base,
            0 <= small % base < base,
    ;
}

} // verus!
