//! Paths as text: an optional prefix, such as a drive or a share, an optional root,
//! and names between separators.

use vstd::prelude::*;

use crate::text::{chars_of, join2, join3, piece, same_chars, string_of, substring};

verus! {

/// Both slashes separate names.
pub open spec fn is_separator(c: char) -> bool {
    c == '/' || c == '\\'
}

pub open spec fn is_letter(c: char) -> bool {
    ('a' <= c && c <= 'z') || ('A' <= c && c <= 'Z')
}

/// What a path begins with.
#[derive(Debug, Clone, Copy, PartialEq, Eq, Structural)]
pub enum PrefixKind {
    /// Nothing but names and separators.
    Bare,
    /// A drive, such as `C:`.
    Drive,
    /// A share of a server, such as `\\server\share`.
    Share,
    /// A device, such as `\\.\COM42`.
    Device,
    /// A name that is taken as it is, such as `\\?\pictures`.
    Verbatim,
    /// A drive whose names are taken as they are, such as `\\?\C:`.
    VerbatimDrive,
    /// A share whose names are taken as they are, such as
    /// `\\?\UNC\server\share`.
    VerbatimShare,
}

/// The place of the first separator from `k` on; the end where there is none. Only
/// the backslash separates names that are taken as they are.
pub open spec fn part_end(s: Seq<char>, k: int, verbatim: bool) -> int
    decreases s.len() - k,
{
    if k >= s.len() {
        s.len() as int
    } else if s[k] == '\\' || (s[k] == '/' && !verbatim) {
        k
    } else {
        part_end(s, k + 1, verbatim)
    }
}

/// A letter and a colon stand at `k`.
pub open spec fn drive_at(s: Seq<char>, k: int) -> bool {
    k + 2 <= s.len() && is_letter(s[k]) && s[k + 1] == ':'
}

/// Two separators begin the path.
pub open spec fn doubly_rooted(s: Seq<char>) -> bool {
    s.len() >= 2 && is_separator(s[0]) && is_separator(s[1])
}

/// The path begins with `\\?\`.
pub open spec fn marked_verbatim(s: Seq<char>) -> bool {
    s.len() >= 4 && s[0] == '\\' && s[1] == '\\' && s[2] == '?' && s[3] == '\\'
}

/// `UNC` and a separator stand behind the first four characters.
pub open spec fn marked_share(s: Seq<char>) -> bool {
    s.len() >= 8 && s[4] == 'U' && s[5] == 'N' && s[6] == 'C' && is_separator(s[7])
}

/// What a path begins with.
pub open spec fn prefix_kind(s: Seq<char>) -> PrefixKind {
    if doubly_rooted(s) {
        if marked_verbatim(s) {
            if marked_share(s) {
                PrefixKind::VerbatimShare
            } else if drive_at(s, 4) && (s.len() == 6 || is_separator(s[6])) {
                PrefixKind::VerbatimDrive
            } else {
                PrefixKind::Verbatim
            }
        } else if s.len() >= 4 && s[2] == '.' && is_separator(s[3]) {
            PrefixKind::Device
        } else {
            let server = part_end(s, 2, false);
            if 2 < server && server + 1 < part_end(s, server + 1, false) {
                PrefixKind::Share
            } else {
                PrefixKind::Bare
            }
        }
    } else if drive_at(s, 0) {
        PrefixKind::Drive
    } else {
        PrefixKind::Bare
    }
}

/// The names of the path are taken as they are.
pub open spec fn is_verbatim(s: Seq<char>) -> bool {
    match prefix_kind(s) {
        PrefixKind::Verbatim | PrefixKind::VerbatimDrive | PrefixKind::VerbatimShare => true,
        _ => false,
    }
}

/// Where the first part of the prefix begins: a drive's letter, a server, a name.
pub open spec fn first_start(s: Seq<char>) -> int {
    match prefix_kind(s) {
        PrefixKind::Bare | PrefixKind::Drive => 0,
        PrefixKind::Share => 2,
        PrefixKind::Device | PrefixKind::Verbatim | PrefixKind::VerbatimDrive => 4,
        PrefixKind::VerbatimShare => 8,
    }
}

/// Where the first part of the prefix ends.
pub open spec fn first_end(s: Seq<char>) -> int {
    match prefix_kind(s) {
        PrefixKind::Bare => 0,
        PrefixKind::Drive => 1,
        PrefixKind::VerbatimDrive => 5,
        _ => part_end(s, first_start(s), is_verbatim(s)),
    }
}

/// Where the second part of the prefix begins: the share.
pub open spec fn second_start(s: Seq<char>) -> int {
    match prefix_kind(s) {
        PrefixKind::Share | PrefixKind::VerbatimShare => if first_end(s) < s.len() {
            first_end(s) + 1
        } else {
            first_end(s)
        },
        _ => first_end(s),
    }
}

/// Where the second part of the prefix ends.
pub open spec fn second_end(s: Seq<char>) -> int {
    match prefix_kind(s) {
        PrefixKind::Share | PrefixKind::VerbatimShare => part_end(
            s,
            second_start(s),
            is_verbatim(s),
        ),
        _ => second_start(s),
    }
}

/// Length of the prefix.
pub open spec fn prefix_len(s: Seq<char>) -> int {
    match prefix_kind(s) {
        PrefixKind::Bare => 0,
        PrefixKind::Drive => 2,
        PrefixKind::VerbatimDrive => 6,
        PrefixKind::Device | PrefixKind::Verbatim => first_end(s),
        PrefixKind::Share | PrefixKind::VerbatimShare => if second_start(s) < second_end(s) {
            second_end(s)
        } else {
            first_end(s)
        },
    }
}

/// The character separates names of the path.
pub open spec fn separates(s: Seq<char>, c: char) -> bool {
    c == '\\' || (c == '/' && !is_verbatim(s))
}

/// Whether a separator follows the prefix.
pub open spec fn has_root(s: Seq<char>) -> bool {
    prefix_len(s) < s.len() && is_separator(s[prefix_len(s)])
}

/// Where the names begin.
pub open spec fn body_start(s: Seq<char>) -> int {
    prefix_len(s) + if has_root(s) {
        1int
    } else {
        0
    }
}

/// The character before `e` ends no name: it is a separator, or a lone dot that
/// stands for the folder it is in.
pub open spec fn idle_at(s: Seq<char>, e: int) -> bool {
    separates(s, s[e - 1]) || (s[e - 1] == '.' && !is_verbatim(s) && (if e - 1 == body_start(
        s,
    ) {
        has_root(s)
    } else {
        separates(s, s[e - 2])
    }))
}

proof fn part_end_range(s: Seq<char>, k: int, verbatim: bool)
    requires
        0 <= k <= s.len(),
    ensures
        k <= part_end(s, k, verbatim) <= s.len(),
    decreases s.len() - k,
{
    if k < s.len() && !(s[k] == '\\' || (s[k] == '/' && !verbatim)) {
        part_end_range(s, k + 1, verbatim);
    }
}

/// The prefix and the root lie in the path.
pub proof fn body_in_range(s: Seq<char>)
    ensures
        0 <= prefix_len(s) <= body_start(s) <= s.len(),
{
    let k = first_start(s);
    if k <= s.len() {
        part_end_range(s, k, is_verbatim(s));
        let e = first_end(s);
        if 0 <= e < s.len() {
            part_end_range(s, e + 1, is_verbatim(s));
        }
    }
}

/// Where the last name that begins before `e` ends.
pub open spec fn names_end(s: Seq<char>, e: int) -> int
    decreases e - body_start(s),
{
    if e <= body_start(s) {
        body_start(s)
    } else if idle_at(s, e) {
        names_end(s, e - 1)
    } else {
        e
    }
}

/// Where the name that ends at `e` begins.
pub open spec fn name_start(s: Seq<char>, e: int) -> int
    decreases e - body_start(s),
{
    if e <= body_start(s) || separates(s, s[e - 1]) {
        e
    } else {
        name_start(s, e - 1)
    }
}

proof fn names_end_range(s: Seq<char>, e: int)
    ensures
        body_start(s) <= names_end(s, e),
        e >= body_start(s) ==> names_end(s, e) <= e,
        names_end(s, e) > body_start(s) ==> !separates(s, s[names_end(s, e) - 1]),
    decreases e,
{
    body_in_range(s);
    if e > body_start(s) && idle_at(s, e) {
        names_end_range(s, e - 1);
    }
}

proof fn name_start_range(s: Seq<char>, e: int)
    requires
        e >= body_start(s),
    ensures
        body_start(s) <= name_start(s, e) <= e,
        e > body_start(s) && !separates(s, s[e - 1]) ==> name_start(s, e) < e,
    decreases e,
{
    body_in_range(s);
    if e > body_start(s) && !separates(s, s[e - 1]) {
        name_start_range(s, e - 1);
    }
}

/// The names of the part of a path before `e`, first to last.
pub open spec fn names_before(s: Seq<char>, e: int) -> Seq<Seq<char>>
    decreases e - body_start(s),
{
    let end = names_end(s, e);
    let start = name_start(s, end);
    if end <= body_start(s) || !(body_start(s) <= start < end <= e) {
        Seq::empty()
    } else {
        names_before(s, start).push(s.subrange(start, end))
    }
}

/// What a path denotes: its prefix with a drive's letter in upper case, whether it
/// starts at the root, and its names.
pub struct Location {
    pub kind: PrefixKind,
    pub first: Seq<char>,
    pub second: Seq<char>,
    pub rooted: bool,
    pub names: Seq<Seq<char>>,
}

pub open spec fn upper_letter(c: char) -> char {
    if 'a' <= c && c <= 'z' {
        (c as u32 - 32) as char
    } else {
        c
    }
}

/// The first part of the prefix, with a drive's letter in upper case.
pub open spec fn first_part(s: Seq<char>) -> Seq<char> {
    match prefix_kind(s) {
        PrefixKind::Drive | PrefixKind::VerbatimDrive => seq![upper_letter(s[first_start(s)])],
        _ => s.subrange(first_start(s), first_end(s)),
    }
}

/// The path starts at the root: a separator says so, or it is that of a share or a
/// device.
pub open spec fn at_root(s: Seq<char>) -> bool {
    has_root(s) || prefix_kind(s) == PrefixKind::Share || prefix_kind(s) == PrefixKind::Device
}

/// What a path denotes. Two paths are the same when they denote the same.
pub open spec fn location(s: Seq<char>) -> Location {
    Location {
        kind: prefix_kind(s),
        first: first_part(s),
        second: s.subrange(second_start(s), second_end(s)),
        rooted: at_root(s),
        names: names_before(s, s.len() as int),
    }
}

/// The path without its last name; none for a path that has no name.
pub open spec fn spec_parent(s: Seq<char>) -> Option<Seq<char>> {
    let end = names_end(s, s.len() as int);
    if end <= body_start(s) {
        None
    } else {
        Some(s.subrange(0, names_end(s, name_start(s, end))))
    }
}

/// The last name of a path; none where it is missing or a dot name.
pub open spec fn spec_file_name(s: Seq<char>) -> Option<Seq<char>> {
    let end = names_end(s, s.len() as int);
    let name = s.subrange(name_start(s, end), end);
    if end <= body_start(s) || name == seq!['.'] || name == seq!['.', '.'] {
        None
    } else {
        Some(name)
    }
}

/// Position of the last dot before `e`; `-1` where there is none.
pub open spec fn last_dot(s: Seq<char>, e: int) -> int
    decreases e,
{
    if e <= 0 {
        -1
    } else if s[e - 1] == '.' {
        e - 1
    } else {
        last_dot(s, e - 1)
    }
}

/// The name without its extension. A dot at the start begins no extension.
pub open spec fn stem_of_name(name: Seq<char>) -> Seq<char> {
    let dot = last_dot(name, name.len() as int);
    if dot <= 0 {
        name
    } else {
        name.subrange(0, dot)
    }
}

/// The text behind the last dot of a name. A dot at the start begins no
/// extension.
pub open spec fn extension_of_name(name: Seq<char>) -> Option<Seq<char>> {
    let dot = last_dot(name, name.len() as int);
    if dot <= 0 {
        None
    } else {
        Some(name.subrange(dot + 1, name.len() as int))
    }
}

pub open spec fn spec_file_stem(s: Seq<char>) -> Option<Seq<char>> {
    match spec_file_name(s) {
        Some(name) => Some(stem_of_name(name)),
        None => None,
    }
}

pub open spec fn spec_extension(s: Seq<char>) -> Option<Seq<char>> {
    match spec_file_name(s) {
        Some(name) => extension_of_name(name),
        None => None,
    }
}

/// The views of an optional text.
pub open spec fn opt_text(o: Option<String>) -> Option<Seq<char>> {
    match o {
        Some(s) => Some(s@),
        None => None,
    }
}

/// The names with one more: a dot adds nothing, and two dots take the last name
/// away.
pub open spec fn with_name(names: Seq<Seq<char>>, name: Seq<char>) -> Seq<Seq<char>> {
    if name == seq!['.'] {
        names
    } else if name == seq!['.', '.'] {
        if names.len() > 0 && names.last() != seq!['.'] && names.last() != seq!['.', '.'] {
            names.drop_last()
        } else {
            names
        }
    } else {
        names.push(name)
    }
}

/// The names with several more.
pub open spec fn with_names(names: Seq<Seq<char>>, more: Seq<Seq<char>>) -> Seq<Seq<char>>
    decreases more.len(),
{
    if more.len() == 0 {
        names
    } else {
        with_name(with_names(names, more.drop_last()), more.last())
    }
}

/// The names, each behind a backslash.
pub open spec fn spelled(names: Seq<Seq<char>>) -> Seq<char>
    decreases names.len(),
{
    if names.len() == 0 {
        Seq::empty()
    } else {
        spelled(names.drop_last()) + seq!['\\'] + names.last()
    }
}

/// A name under a folder whose names are taken as they are: the path is spelled
/// anew, and the name's dots are followed.
pub open spec fn verbatim_join(dir: Seq<char>, name: Seq<char>) -> Seq<char> {
    let start = if has_root(name) {
        Seq::empty()
    } else {
        names_before(dir, dir.len() as int)
    };
    let names = with_names(start, names_before(name, name.len() as int));
    let head = dir.subrange(0, prefix_len(dir));
    if names.len() > 0 {
        head + spelled(names)
    } else if has_root(dir) || has_root(name) {
        head + seq!['\\']
    } else {
        head
    }
}

/// A name under a folder. A name with a prefix stands for itself; one that starts
/// at the root keeps the folder's prefix.
pub open spec fn spec_join(dir: Seq<char>, name: Seq<char>) -> Seq<char> {
    if prefix_kind(name) != PrefixKind::Bare {
        name
    } else if is_verbatim(dir) && name.len() > 0 {
        verbatim_join(dir, name)
    } else if has_root(name) {
        dir.subrange(0, prefix_len(dir)) + name
    } else if dir.len() == 0 || is_separator(dir[dir.len() - 1]) || (prefix_kind(dir)
        == PrefixKind::Drive && dir.len() == 2) {
        dir + name
    } else {
        dir + seq!['\\'] + name
    }
}

/// `below` is `above` or lies under it.
pub open spec fn lies_under(below: Seq<char>, above: Seq<char>) -> bool {
    let b = location(below);
    let a = location(above);
    a.kind == b.kind && a.first == b.first && a.second == b.second && a.rooted == b.rooted
        && a.names.len() <= b.names.len() && b.names.take(a.names.len() as int) == a.names
}

fn separator(c: char) -> (r: bool)
    ensures
        r == is_separator(c),
{
    c == '/' || c == '\\'
}

fn end_of_part(s: &Vec<char>, from: usize, verbatim: bool) -> (r: usize)
    requires
        from <= s@.len(),
    ensures
        r == part_end(s@, from as int, verbatim),
        from <= r <= s@.len(),
{
    let mut k: usize = from;
    while k < s.len() && s[k] != '\\' && (s[k] != '/' || verbatim)
        invariant
            from <= k <= s@.len(),
            part_end(s@, from as int, verbatim) == part_end(s@, k as int, verbatim),
        decreases s.len() - k,
    {
        k = k + 1;
    }
    k
}

fn has_drive(s: &Vec<char>, k: usize) -> (r: bool)
    requires
        k <= s@.len(),
    ensures
        r == drive_at(s@, k as int),
{
    s.len() - k >= 2 && (('a' <= s[k] && s[k] <= 'z') || ('A' <= s[k] && s[k] <= 'Z')) && s[k
        + 1] == ':'
}

fn kind_of(s: &Vec<char>) -> (r: PrefixKind)
    ensures
        r == prefix_kind(s@),
{
    if s.len() >= 2 && separator(s[0]) && separator(s[1]) {
        if s.len() >= 4 && s[0] == '\\' && s[1] == '\\' && s[2] == '?' && s[3] == '\\' {
            if s.len() >= 8 && s[4] == 'U' && s[5] == 'N' && s[6] == 'C' && separator(s[7]) {
                PrefixKind::VerbatimShare
            } else if has_drive(s, 4) && (s.len() == 6 || separator(s[6])) {
                PrefixKind::VerbatimDrive
            } else {
                PrefixKind::Verbatim
            }
        } else if s.len() >= 4 && s[2] == '.' && separator(s[3]) {
            PrefixKind::Device
        } else {
            let server: usize = end_of_part(s, 2, false);
            if 2 < server && server < s.len() && server + 1 < end_of_part(s, server + 1, false) {
                PrefixKind::Share
            } else {
                PrefixKind::Bare
            }
        }
    } else if has_drive(s, 0) {
        PrefixKind::Drive
    } else {
        PrefixKind::Bare
    }
}

fn taken_as_is(kind: PrefixKind) -> (r: bool)
    ensures
        forall|s: Seq<char>| prefix_kind(s) == kind ==> r == #[trigger] is_verbatim(s),
{
    match kind {
        PrefixKind::Verbatim | PrefixKind::VerbatimDrive | PrefixKind::VerbatimShare => true,
        _ => false,
    }
}

/// What the exec functions know of the beginning of a path.
struct Head {
    kind: PrefixKind,
    verbatim: bool,
    first: (usize, usize),
    second: (usize, usize),
    len: usize,
    root: bool,
    body: usize,
}

impl Head {
    spec fn heads(&self, s: Seq<char>) -> bool {
        &&& self.kind == prefix_kind(s)
        &&& self.verbatim == is_verbatim(s)
        &&& self.first.0 == first_start(s)
        &&& self.first.1 == first_end(s)
        &&& self.second.0 == second_start(s)
        &&& self.second.1 == second_end(s)
        &&& self.len == prefix_len(s)
        &&& self.root == has_root(s)
        &&& self.body == body_start(s)
        &&& self.first.0 <= self.first.1 <= s.len()
        &&& self.second.0 <= self.second.1 <= s.len()
        &&& self.len <= self.body <= s.len()
    }
}

fn head(s: &Vec<char>) -> (r: Head)
    ensures
        r.heads(s@),
{
    let kind = kind_of(s);
    let verbatim = taken_as_is(kind);
    let start: usize = match kind {
        PrefixKind::Bare | PrefixKind::Drive => 0,
        PrefixKind::Share => 2,
        PrefixKind::Device | PrefixKind::Verbatim | PrefixKind::VerbatimDrive => 4,
        PrefixKind::VerbatimShare => 8,
    };
    let end: usize = match kind {
        PrefixKind::Bare => 0,
        PrefixKind::Drive => 1,
        PrefixKind::VerbatimDrive => 5,
        _ => end_of_part(s, start, verbatim),
    };
    let shared = match kind {
        PrefixKind::Share | PrefixKind::VerbatimShare => true,
        _ => false,
    };
    let second: usize = if shared && end < s.len() {
        end + 1
    } else {
        end
    };
    let last: usize = if shared {
        end_of_part(s, second, verbatim)
    } else {
        second
    };
    let len: usize = match kind {
        PrefixKind::Bare => 0,
        PrefixKind::Drive => 2,
        PrefixKind::VerbatimDrive => 6,
        PrefixKind::Device | PrefixKind::Verbatim => end,
        PrefixKind::Share | PrefixKind::VerbatimShare => if second < last {
            last
        } else {
            end
        },
    };
    let root = len < s.len() && separator(s[len]);
    let body: usize = if root {
        len + 1
    } else {
        len
    };
    Head { kind, verbatim, first: (start, end), second: (second, last), len, root, body }
}

fn rooted(s: &Vec<char>) -> (r: bool)
    ensures
        r == has_root(s@),
{
    head(s).root
}

fn body(s: &Vec<char>) -> (r: usize)
    ensures
        r == body_start(s@),
        r <= s@.len(),
{
    head(s).body
}

fn divides(c: char, verbatim: bool) -> (r: bool)
    ensures
        forall|s: Seq<char>| verbatim == is_verbatim(s) ==> r == #[trigger] separates(s, c),
{
    c == '\\' || (c == '/' && !verbatim)
}

fn idle(s: &Vec<char>, e: usize, head: &Head) -> (r: bool)
    requires
        head.heads(s@),
        head.body < e <= s@.len(),
    ensures
        r == idle_at(s@, e as int),
{
    if divides(s[e - 1], head.verbatim) {
        true
    } else if s[e - 1] != '.' || head.verbatim {
        false
    } else if e - 1 == head.body {
        head.root
    } else {
        divides(s[e - 2], head.verbatim)
    }
}

fn end_of_names(s: &Vec<char>, from: usize) -> (r: usize)
    requires
        body_start(s@) <= from <= s@.len(),
    ensures
        r == names_end(s@, from as int),
        body_start(s@) <= r <= from,
        r > body_start(s@) ==> !separates(s@, s@[r - 1]),
{
    let h = head(s);
    let mut e: usize = from;
    proof {
        names_end_range(s@, from as int);
    }
    while e > h.body && idle(s, e, &h)
        invariant
            h.heads(s@),
            h.body <= e <= from <= s@.len(),
            names_end(s@, e as int) == names_end(s@, from as int),
        decreases e,
    {
        e = e - 1;
    }
    e
}

fn start_of_name(s: &Vec<char>, end: usize) -> (r: usize)
    requires
        body_start(s@) <= end <= s@.len(),
    ensures
        r == name_start(s@, end as int),
        body_start(s@) <= r <= end,
        end > body_start(s@) && !separates(s@, s@[end - 1]) ==> r < end,
{
    let h = head(s);
    let mut e: usize = end;
    proof {
        name_start_range(s@, end as int);
    }
    while e > h.body && !divides(s[e - 1], h.verbatim)
        invariant
            h.heads(s@),
            h.body <= e <= end <= s@.len(),
            name_start(s@, e as int) == name_start(s@, end as int),
        decreases e,
    {
        e = e - 1;
    }
    e
}

/// The path without its last name; none for a path that has no name.
pub fn parent_of(path: &str) -> (r: Option<String>)
    ensures
        opt_text(r) == spec_parent(path@),
{
    let s = chars_of(path);
    proof {
        body_in_range(s@);
    }
    let end: usize = end_of_names(&s, s.len());
    if end <= body(&s) {
        return None;
    }
    let start: usize = start_of_name(&s, end);
    let cut: usize = end_of_names(&s, start);
    Some(substring(&s, 0, cut))
}

/// A parent is shorter than its path, and the path begins with it.
pub proof fn parent_is_prefix(s: Seq<char>)
    ensures
        spec_parent(s) matches Some(p) ==> p.len() < s.len() && p == s.take(p.len() as int),
{
    let n = s.len() as int;
    body_in_range(s);
    names_end_range(s, n);
    let end = names_end(s, n);
    if end > body_start(s) {
        name_start_range(s, end);
        names_end_range(s, name_start(s, end));
        let k = names_end(s, name_start(s, end));
        assert(s.subrange(0, k) =~= s.take(k));
    }
}

/// The last name of a path; none where it is missing or a dot name.
pub fn file_name_of(path: &str) -> (r: Option<String>)
    ensures
        opt_text(r) == spec_file_name(path@),
{
    let s = chars_of(path);
    proof {
        body_in_range(s@);
    }
    let end: usize = end_of_names(&s, s.len());
    if end <= body(&s) {
        return None;
    }
    let start: usize = start_of_name(&s, end);
    let ghost name = s@.subrange(start as int, end as int);
    let one_dot = end - start == 1 && s[start] == '.';
    let two_dots = end - start == 2 && s[start] == '.' && s[start + 1] == '.';
    proof {
        assert(one_dot == (name == seq!['.'])) by {
            if one_dot {
                assert(name =~= seq!['.']);
            }
            if name == seq!['.'] {
                assert(name.len() == 1 && name[0] == '.');
            }
        }
        assert(two_dots == (name == seq!['.', '.'])) by {
            if two_dots {
                assert(name =~= seq!['.', '.']);
            }
            if name == seq!['.', '.'] {
                assert(name.len() == 2 && name[0] == '.' && name[1] == '.');
            }
        }
    }
    if one_dot || two_dots {
        None
    } else {
        Some(substring(&s, start, end))
    }
}

/// The position behind the last dot; zero where there is none.
fn after_last_dot(s: &Vec<char>) -> (r: usize)
    ensures
        r == last_dot(s@, s@.len() as int) + 1,
        r <= s@.len(),
{
    let mut e: usize = s.len();
    while e > 0 && s[e - 1] != '.'
        invariant
            e <= s@.len(),
            last_dot(s@, e as int) == last_dot(s@, s@.len() as int),
        decreases e,
    {
        e = e - 1;
    }
    e
}

/// The last name of a path without its extension.
pub fn file_stem_of(path: &str) -> (r: Option<String>)
    ensures
        opt_text(r) == spec_file_stem(path@),
{
    match file_name_of(path) {
        Some(name) => {
            let cs = chars_of(name.as_str());
            let d: usize = after_last_dot(&cs);
            if d <= 1 {
                Some(name)
            } else {
                Some(substring(&cs, 0, d - 1))
            }
        },
        None => None,
    }
}

/// The extension of a path's last name, without the dot.
pub fn extension_of(path: &str) -> (r: Option<String>)
    ensures
        opt_text(r) == spec_extension(path@),
{
    match file_name_of(path) {
        Some(name) => {
            let cs = chars_of(name.as_str());
            let d: usize = after_last_dot(&cs);
            if d <= 1 {
                None
            } else {
                Some(substring(&cs, d, cs.len()))
            }
        },
        None => None,
    }
}

/// The names of a list of characters.
spec fn name_views(names: Seq<Vec<char>>) -> Seq<Seq<char>> {
    names.map_values(|n: Vec<char>| n@)
}

/// The names of a path's part before `e`.
fn list_names(s: &Vec<char>, e: usize) -> (r: Vec<Vec<char>>)
    requires
        body_start(s@) <= e <= s@.len(),
    ensures
        name_views(r@) == names_before(s@, e as int),
    decreases e,
{
    let end: usize = end_of_names(s, e);
    if end <= body(s) {
        let r: Vec<Vec<char>> = Vec::new();
        assert(name_views(r@) =~= Seq::empty());
        return r;
    }
    let start: usize = start_of_name(s, end);
    let mut r = list_names(s, start);
    let ghost before = r@;
    r.push(piece(s, start, end));
    assert(name_views(r@) =~= name_views(before).push(s@.subrange(start as int, end as int)));
    r
}

fn is_dot(name: &Vec<char>) -> (r: bool)
    ensures
        r == (name@ == seq!['.']),
{
    let r = name.len() == 1 && name[0] == '.';
    proof {
        if r {
            assert(name@ =~= seq!['.']);
        }
    }
    r
}

fn is_two_dots(name: &Vec<char>) -> (r: bool)
    ensures
        r == (name@ == seq!['.', '.']),
{
    let r = name.len() == 2 && name[0] == '.' && name[1] == '.';
    proof {
        if r {
            assert(name@ =~= seq!['.', '.']);
        }
    }
    r
}

fn add_name(names: &mut Vec<Vec<char>>, name: Vec<char>)
    ensures
        name_views(final(names)@) == with_name(name_views(old(names)@), name@),
{
    let ghost before = names@;
    if is_dot(&name) {
        return;
    }
    if is_two_dots(&name) {
        assert(name@ != seq!['.']);
        let n: usize = names.len();
        if n > 0 && !is_dot(&names[n - 1]) && !is_two_dots(&names[n - 1]) {
            let _ = names.pop();
            assert(name_views(names@) =~= name_views(before).drop_last());
        }
        return;
    }
    names.push(name);
    assert(name_views(names@) =~= name_views(before).push(name@));
}

fn join_verbatim(d: &Vec<char>, n: &Vec<char>) -> (r: String)
    ensures
        r@ == verbatim_join(d@, n@),
{
    let h = head(d);
    let name_rooted = rooted(n);
    proof {
        body_in_range(n@);
    }
    let mut names: Vec<Vec<char>> = if name_rooted {
        Vec::new()
    } else {
        list_names(d, d.len())
    };
    let ghost start = if has_root(n@) {
        Seq::empty()
    } else {
        names_before(d@, d@.len() as int)
    };
    assert(name_views(names@) =~= start);
    let more = list_names(n, n.len());
    let ghost all = name_views(more@);
    let mut i: usize = 0;
    assert(all.take(0) =~= Seq::empty());
    while i < more.len()
        invariant
            i <= more@.len(),
            all == name_views(more@),
            name_views(names@) == with_names(start, all.take(i as int)),
        decreases more.len() - i,
    {
        assert(all.take(i + 1).drop_last() =~= all.take(i as int));
        assert(all.take(i + 1).last() == more@[i as int]@);
        add_name(&mut names, piece(&more[i], 0, more[i].len()));
        assert(more@[i as int]@.subrange(0, more@[i as int]@.len() as int) =~= more@[i as int]@);
        i = i + 1;
    }
    assert(all.take(all.len() as int) =~= all);
    let ghost whole = name_views(names@);
    let mut r = substring(d, 0, h.len);
    if names.len() == 0 {
        if h.root || name_rooted {
            r.push('\\');
            assert(r@ =~= d@.subrange(0, h.len as int) + seq!['\\']);
        }
        return r;
    }
    let ghost front = r@;
    let mut j: usize = 0;
    assert(whole.take(0) =~= Seq::empty());
    assert(front + spelled(whole.take(0)) =~= front);
    while j < names.len()
        invariant
            j <= names@.len(),
            whole == name_views(names@),
            r@ == front + spelled(whole.take(j as int)),
        decreases names.len() - j,
    {
        assert(whole.take(j + 1).drop_last() =~= whole.take(j as int));
        assert(whole.take(j + 1).last() == names@[j as int]@);
        let ghost so_far = r@;
        r.push('\\');
        let text = string_of(&names[j]);
        r = join2(r.as_str(), text.as_str());
        assert(r@ =~= front + spelled(whole.take(j + 1)));
        j = j + 1;
    }
    assert(whole.take(whole.len() as int) =~= whole);
    r
}

/// A name under a folder.
pub fn join(dir: &str, name: &str) -> (r: String)
    ensures
        r@ == spec_join(dir@, name@),
{
    let d = chars_of(dir);
    let n = chars_of(name);
    let h = head(&d);
    if kind_of(&n) != PrefixKind::Bare {
        name.to_owned()
    } else if h.verbatim && n.len() > 0 {
        join_verbatim(&d, &n)
    } else if rooted(&n) {
        let front = substring(&d, 0, h.len);
        join2(front.as_str(), name)
    } else if d.len() == 0 || separator(d[d.len() - 1]) || (h.kind == PrefixKind::Drive && d.len()
        == 2) {
        join2(dir, name)
    } else {
        proof {
            reveal_strlit("\\");
            assert("\\"@ =~= seq!['\\']);
        }
        join3(dir, "\\", name)
    }
}

/// Whether the parts of two paths before the given ends have the same names.
fn same_names(a: &Vec<char>, ae: usize, b: &Vec<char>, be: usize) -> (r: bool)
    requires
        body_start(a@) <= ae <= a@.len(),
        body_start(b@) <= be <= b@.len(),
    ensures
        r == (names_before(a@, ae as int) == names_before(b@, be as int)),
    decreases ae,
{
    let a_end: usize = end_of_names(a, ae);
    let b_end: usize = end_of_names(b, be);
    let a_none = a_end <= body(a);
    let b_none = b_end <= body(b);
    let a_start: usize = start_of_name(a, a_end);
    let b_start: usize = start_of_name(b, b_end);
    let ghost an = names_before(a@, ae as int);
    let ghost bn = names_before(b@, be as int);
    if a_none || b_none {
        assert(!a_none ==> an.len() > 0);
        assert(!b_none ==> bn.len() > 0);
        return a_none && b_none;
    }
    let x = piece(a, a_start, a_end);
    let y = piece(b, b_start, b_end);
    assert(an.last() == x@ && an.drop_last() =~= names_before(a@, a_start as int));
    assert(bn.last() == y@ && bn.drop_last() =~= names_before(b@, b_start as int));
    let r = same_chars(&x, &y) && same_names(a, a_start, b, b_start);
    proof {
        if r {
            assert(an =~= bn);
        }
    }
    r
}

fn upper(c: char) -> (r: char)
    requires
        is_letter(c),
    ensures
        r == upper_letter(c),
{
    if 'a' <= c && c <= 'z' {
        (c as u8 - 32) as char
    } else {
        c
    }
}

fn start_of(s: &Vec<char>, h: &Head) -> (r: Vec<char>)
    requires
        h.heads(s@),
    ensures
        r@ == first_part(s@),
{
    match h.kind {
        PrefixKind::Drive | PrefixKind::VerbatimDrive => {
            let mut r: Vec<char> = Vec::new();
            r.push(upper(s[h.first.0]));
            assert(r@ =~= first_part(s@));
            r
        },
        _ => piece(s, h.first.0, h.first.1),
    }
}

fn same_base(a: &Vec<char>, b: &Vec<char>) -> (r: bool)
    ensures
        r == (location(a@).kind == location(b@).kind && location(a@).first == location(b@).first
            && location(a@).second == location(b@).second && location(a@).rooted == location(
            b@,
        ).rooted),
{
    let x = head(a);
    let y = head(b);
    let implied = x.kind == PrefixKind::Share || x.kind == PrefixKind::Device;
    x.kind == y.kind && (implied || x.root == y.root) && same_chars(
        &start_of(a, &x),
        &start_of(b, &y),
    ) && same_chars(
        &piece(a, x.second.0, x.second.1),
        &piece(b, y.second.0, y.second.1),
    )
}

/// Whether two paths denote the same.
pub fn same_path(a: &str, b: &str) -> (r: bool)
    ensures
        r == (location(a@) == location(b@)),
{
    let x = chars_of(a);
    let y = chars_of(b);
    proof {
        body_in_range(x@);
        body_in_range(y@);
    }
    same_base(&x, &y) && same_names(&x, x.len(), &y, y.len())
}

/// The number of names of a path's part before `e`.
fn count_names(s: &Vec<char>, e: usize) -> (r: usize)
    requires
        body_start(s@) <= e <= s@.len(),
    ensures
        r == names_before(s@, e as int).len(),
        r <= e,
    decreases e,
{
    let end: usize = end_of_names(s, e);
    if end <= body(s) {
        return 0;
    }
    let start: usize = start_of_name(s, end);
    count_names(s, start) + 1
}

/// A lone dot at `k`, before `end`, stands for the folder it is in. One that begins
/// a path without a root is a name.
pub open spec fn dot_at(s: Seq<char>, k: int, end: int) -> bool {
    &&& s[k] == '.'
    &&& !is_verbatim(s)
    &&& k + 1 >= end || separates(s, s[k + 1])
    &&& k != body_start(s) || has_root(s)
}

/// The first place from `k` on, before `end`, where a name begins.
pub open spec fn name_from(s: Seq<char>, k: int, end: int) -> int
    decreases end - k,
{
    if k < end && (separates(s, s[k]) || dot_at(s, k, end)) {
        name_from(s, k + 1, end)
    } else {
        k
    }
}

/// The part of a path behind its first `k` characters, from the first name to
/// the last.
pub open spec fn rest_behind(s: Seq<char>, k: int) -> Seq<char> {
    let end = names_end(s, s.len() as int);
    let from = name_from(s, k, end);
    if from < end {
        s.subrange(from, end)
    } else {
        Seq::empty()
    }
}

/// The part of a path behind its first `k` characters, from the first name to
/// the last.
pub fn rest_of(path: &str, k: usize) -> (r: String)
    requires
        k <= path@.len(),
    ensures
        r@ == rest_behind(path@, k as int),
{
    let s = chars_of(path);
    proof {
        body_in_range(s@);
    }
    let end: usize = end_of_names(&s, s.len());
    let mut from: usize = k;
    let h = head(&s);
    while from < end && (divides(s[from], h.verbatim) || (s[from] == '.' && !h.verbatim && (from + 1
        >= end || divides(s[from + 1], h.verbatim)) && (from != h.body || h.root)))
        invariant
            h.heads(s@),
            k <= from <= s@.len(),
            end <= s@.len(),
            s@ == path@,
            name_from(s@, k as int, end as int) == name_from(s@, from as int, end as int),
        decreases end - from,
    {
        from = from + 1;
    }
    if from < end {
        substring(&s, from, end)
    } else {
        let r = String::new();
        assert(r@ =~= rest_behind(path@, k as int));
        r
    }
}

/// Whether a path is another or lies under it.
pub fn is_under(below: &str, above: &str) -> (r: bool)
    ensures
        r == lies_under(below@, above@),
{
    let b = chars_of(below);
    let a = chars_of(above);
    if !same_base(&a, &b) {
        return false;
    }
    proof {
        body_in_range(a@);
        body_in_range(b@);
    }
    let want: usize = count_names(&a, a.len());
    let mut have: usize = count_names(&b, b.len());
    let mut e: usize = b.len();
    let ghost all = names_before(b@, b@.len() as int);
    assert(all.take(all.len() as int) =~= all);
    while have > want
        invariant
            body_start(b@) <= e <= b@.len(),
            have == names_before(b@, e as int).len(),
            have <= all.len(),
            have >= want || have == all.len(),
            names_before(b@, e as int) == all.take(have as int),
        decreases have,
    {
        let end: usize = end_of_names(&b, e);
        let start: usize = start_of_name(&b, end);
        assert(names_before(b@, start as int) =~= all.take(have - 1)) by {
            assert(names_before(b@, e as int).drop_last() =~= names_before(b@, start as int));
        }
        e = start;
        have = have - 1;
    }
    have == want && same_names(&b, e, &a, a.len())
}

/// A plain name: no separator and no colon in it, and no dots only.
pub open spec fn is_plain_name(name: Seq<char>) -> bool {
    &&& name.len() > 0
    &&& forall|i: int| 0 <= i < name.len() ==> !is_separator(#[trigger] name[i]) && name[i] != ':'
    &&& name != seq!['.'] && name != seq!['.', '.']
}

proof fn name_begins(s: Seq<char>, start: int, e: int)
    requires
        body_start(s) <= start <= e <= s.len(),
        forall|i: int| start <= i < e ==> !separates(s, #[trigger] s[i]),
        start == body_start(s) || separates(s, s[start - 1]),
    ensures
        name_start(s, e) == start,
    decreases e,
{
    body_in_range(s);
    if start < e {
        assert(!separates(s, s[e - 1]));
        name_begins(s, start, e - 1);
    }
}

/// A plain name under a folder of a drive is the last name of the path.
pub proof fn joined_name_is_last(dir: Seq<char>, name: Seq<char>)
    requires
        prefix_kind(dir) == PrefixKind::Drive,
        is_plain_name(name),
    ensures
        spec_file_name(spec_join(dir, name)) == Some(name),
{
    let s = spec_join(dir, name);
    assert(!drive_at(name, 0)) by {
        if name.len() >= 2 {
            assert(name[1] != ':');
        }
    }
    assert(!is_separator(name[0]) && name[0] != ':');
    assert(prefix_kind(name) == PrefixKind::Bare);
    assert(!has_root(name));
    assert(s[0] == dir[0] && s[1] == dir[1]);
    assert(prefix_kind(s) == PrefixKind::Drive);
    body_in_range(s);
    let n = s.len() as int;
    let start = n - name.len();
    assert(s.subrange(start, n) =~= name);
    assert forall|i: int| start <= i < n implies !separates(s, #[trigger] s[i]) by {
        assert(s[i] == name[i - start]);
        assert(!is_separator(name[i - start]));
    }
    assert(start == body_start(s) || is_separator(s[start - 1]));
    assert(!idle_at(s, n)) by {
        assert(!separates(s, s[n - 1]));
        if s[n - 1] == '.' {
            if name.len() == 1 {
                assert(name =~= seq!['.']);
            } else {
                assert(!separates(s, s[n - 2]));
            }
        }
    }
    assert(names_end(s, n) == n);
    name_begins(s, start, n);
}

proof fn dot_is_last(s: Seq<char>, k: int, e: int)
    requires
        0 <= k < e <= s.len(),
        s[k] == '.',
        forall|i: int| k < i < e ==> #[trigger] s[i] != '.',
    ensures
        last_dot(s, e) == k,
    decreases e,
{
    if e - 1 > k {
        assert(s[e - 1] != '.');
        dot_is_last(s, k, e - 1);
    }
}

/// A name is taken apart at its last dot: into a stem and an extension without dots.
pub proof fn name_is_stem_and_extension(stem: Seq<char>, ext: Seq<char>)
    requires
        stem.len() > 0,
        forall|i: int| 0 <= i < ext.len() ==> #[trigger] ext[i] != '.',
    ensures
        stem_of_name(stem + seq!['.'] + ext) == stem,
        extension_of_name(stem + seq!['.'] + ext) == Some(ext),
{
    let s = stem + seq!['.'] + ext;
    let k = stem.len() as int;
    assert forall|i: int| k < i < s.len() implies #[trigger] s[i] != '.' by {
        assert(s[i] == ext[i - k - 1]);
    }
    dot_is_last(s, k, s.len() as int);
    assert(s.subrange(0, k) =~= stem);
    assert(s.subrange(k + 1, s.len() as int) =~= ext);
}

/// A name without a dot behind its first character has no extension and is its own stem.
pub proof fn name_without_extension(name: Seq<char>)
    requires
        forall|i: int| 0 < i < name.len() ==> #[trigger] name[i] != '.',
    ensures
        stem_of_name(name) == name,
        extension_of_name(name) is None,
{
    no_late_dot(name, name.len() as int);
}

proof fn no_late_dot(name: Seq<char>, e: int)
    requires
        0 <= e <= name.len(),
        forall|i: int| 0 < i < name.len() ==> #[trigger] name[i] != '.',
    ensures
        last_dot(name, e) <= 0,
    decreases e,
{
    if e > 0 {
        if e > 1 {
            assert(name[e - 1] != '.');
        }
        no_late_dot(name, e - 1);
    }
}

} // verus!
