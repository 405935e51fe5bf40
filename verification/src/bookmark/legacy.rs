//! Bookmarks of the older form: UTF-16 text with sections.
//!
//! ```text
//! [gvbookmark/ver:1]
//! current:
//! <path of the shown file>
//! files:
//! <path>
//! ...
//! archives:
//! <path>
//! ...
//! ```

use vstd::prelude::*;

use super::BookmarkData;
use crate::archive::ArchiveManager;
use crate::bookmark;
use crate::extension_registry;
use crate::file_info::{FileSource, SourceView};
use crate::paths;
use crate::paths::{parent_of, rest_of};
use crate::text;
use crate::text::{
    chars_of, equals_ignoring_case, find_char, piece, same_chars, string_of, trim,
};

verus! {

/// Something that tells archives from other paths.
pub trait ArchiveTest {
    spec fn archive(&self, path: Seq<char>) -> bool;

    fn tells_archive(&self, path: &str) -> (r: bool)
        ensures
            r == self.archive(path@),
    ;
}

impl ArchiveTest for ArchiveManager {
    open spec fn archive(&self, path: Seq<char>) -> bool {
        paths::spec_file_name(path) matches Some(name) && extension_registry::name_listed(
            self.registry.archives@,
            name,
        )
    }

    fn tells_archive(&self, path: &str) -> (r: bool) {
        self.is_archive(path)
    }
}

/// The first unit of a pair that stands for one character.
pub open spec fn is_high(unit: u16) -> bool {
    0xd800 <= unit <= 0xdbff
}

/// The second unit of a pair that stands for one character.
pub open spec fn is_low(unit: u16) -> bool {
    0xdc00 <= unit <= 0xdfff
}

/// The character of a pair of units.
pub open spec fn paired(high: u16, low: u16) -> char {
    (0x10000 + (high - 0xd800) * 0x400 + (low - 0xdc00)) as char
}

/// The text of UTF-16 units. Half of a pair alone stands for U+FFFD.
pub open spec fn utf16_text(units: Seq<u16>) -> Seq<char>
    decreases units.len(),
{
    if units.len() == 0 {
        Seq::empty()
    } else if units.len() >= 2 && is_high(units[0]) && is_low(units[1]) {
        seq![paired(units[0], units[1])] + utf16_text(units.skip(2))
    } else if is_high(units[0]) || is_low(units[0]) {
        seq!['\u{fffd}'] + utf16_text(units.skip(1))
    } else {
        seq![units[0] as char] + utf16_text(units.skip(1))
    }
}

/// `String::from_utf16_lossy` of std. Claimed: it decodes UTF-16, and puts U+FFFD
/// for each half of a pair that stands alone.
#[verifier::external_body]
fn text_of_units(units: &Vec<u16>) -> (r: String)
    ensures
        r@ == utf16_text(units@),
{
    String::from_utf16_lossy(units)
}

/// The UTF-16 units of a character.
pub open spec fn units_of_char(c: char) -> Seq<u16> {
    if c as u32 <= 0xffff {
        seq![c as u16]
    } else {
        let rest = c as int - 0x10000;
        seq![(0xd800 + rest / 0x400) as u16, (0xdc00 + rest % 0x400) as u16]
    }
}

/// The UTF-16 units of a text.
pub open spec fn units_of_text(s: Seq<char>) -> Seq<u16>
    decreases s.len(),
{
    if s.len() == 0 {
        Seq::empty()
    } else {
        units_of_char(s[0]) + units_of_text(s.skip(1))
    }
}

/// The bytes of units, low byte first.
pub open spec fn bytes_of(units: Seq<u16>) -> Seq<u8> {
    Seq::new(
        2 * units.len(),
        |i: int|
            if i % 2 == 0 {
                (units[i / 2] % 256) as u8
            } else {
                (units[i / 2] / 256) as u8
            },
    )
}

proof fn char_is_read_back(c: char, rest: Seq<u16>)
    ensures
        utf16_text(units_of_char(c) + rest) == seq![c] + utf16_text(rest),
{
    let all = units_of_char(c) + rest;
    let v = c as int;
    if c as u32 <= 0xffff {
        assert(all[0] == c as u16);
        assert(all.skip(1) =~= rest);
        assert(!(0xd800 <= v <= 0xdfff));
        assert((c as u16) as int == v);
        assert((c as u16) as char == c);
    } else {
        let (high, low) = (all[0], all[1]);
        let over = v - 0x10000;
        assert(0 <= over < 0x100000);
        assert(over == 0x400 * (over / 0x400) + over % 0x400);
        assert(is_high(high) && is_low(low));
        assert(paired(high, low) == c);
        assert(all.skip(2) =~= rest);
    }
}

/// Decoding the UTF-16 units of a text gives the text.
pub proof fn units_are_read_back(s: Seq<char>)
    ensures
        utf16_text(units_of_text(s)) == s,
    decreases s.len(),
{
    if s.len() > 0 {
        units_are_read_back(s.skip(1));
        char_is_read_back(s[0], units_of_text(s.skip(1)));
        assert(seq![s[0]] + s.skip(1) =~= s);
    } else {
        assert(utf16_text(units_of_text(s)) =~= s);
    }
}

/// Decoding the UTF-16 bytes of a text gives the text, and an odd byte behind them
/// changes nothing.
pub proof fn bytes_are_read_back(s: Seq<char>, odd: u8)
    ensures
        utf16_text(units_of(bytes_of(units_of_text(s)))) == s,
        utf16_text(units_of(bytes_of(units_of_text(s)).push(odd))) == s,
{
    let units = units_of_text(s);
    let bytes = bytes_of(units);
    assert forall|i: int| 0 <= i < units.len() implies units_of(bytes)[i] == units[i]
        && units_of(bytes.push(odd))[i] == units[i] by {
        let u = units[i] as int;
        assert((2 * i) % 2 == 0 && (2 * i) / 2 == i && (2 * i + 1) % 2 == 1 && (2 * i + 1) / 2
            == i);
        assert(bytes[2 * i] == (units[i] % 256) as u8);
        assert(bytes[2 * i + 1] == (units[i] / 256) as u8);
        assert(u == u % 256 + 256 * (u / 256));
    }
    assert(units_of(bytes) =~= units);
    assert(units_of(bytes.push(odd)) =~= units);
    units_are_read_back(s);
}

/// The units of bytes, low byte first; an odd byte at the end is dropped.
pub open spec fn units_of(bytes: Seq<u8>) -> Seq<u16> {
    Seq::new(bytes.len() / 2, |i: int| (bytes[2 * i] + 256 * bytes[2 * i + 1]) as u16)
}

/// Decodes UTF-16 bytes, low byte first.
pub fn decode_utf16le_lossy(bytes: &[u8]) -> (r: String)
    ensures
        r@ == utf16_text(units_of(bytes@)),
{
    let mut units: Vec<u16> = Vec::new();
    let n: usize = bytes.len() / 2;
    let mut i: usize = 0;
    while i < n
        invariant
            i <= n,
            n == bytes@.len() / 2,
            bytes@.len() <= usize::MAX,
            units@ == units_of(bytes@).take(i as int),
        decreases n - i,
    {
        let unit: u16 = bytes[2 * i] as u16 + 256 * bytes[2 * i + 1] as u16;
        units.push(unit);
        i = i + 1;
        assert(units@ =~= units_of(bytes@).take(i as int));
    }
    assert(units@ =~= units_of(bytes@));
    text_of_units(&units)
}

/// Where a line stands.
#[derive(Debug, Clone, Copy, PartialEq, Eq, Structural)]
pub enum Section {
    Outside,
    Current,
    Files,
    Archives,
}

/// The sections of a bookmark.
pub struct ParsedSections {
    pub current: Option<String>,
    pub files: Vec<String>,
    /// Archives, among them those of which no file is listed.
    pub archives: Vec<String>,
}

/// What has been read of the sections.
pub struct SectionsRead {
    pub section: Section,
    pub current: Option<Seq<char>>,
    pub files: Seq<Seq<char>>,
    pub archives: Seq<Seq<char>>,
}

/// A trimmed line added to what has been read. A line in brackets ends a
/// section; of the current paths the first counts; a line outside the sections
/// is a file's.
pub open spec fn with_row(r: SectionsRead, line: Seq<char>) -> SectionsRead {
    if line.len() == 0 {
        r
    } else if line[0] == '[' && line.last() == ']' {
        SectionsRead { section: Section::Outside, ..r }
    } else if line == "current:"@ {
        SectionsRead { section: Section::Current, ..r }
    } else if line == "files:"@ {
        SectionsRead { section: Section::Files, ..r }
    } else if line == "archives:"@ {
        SectionsRead { section: Section::Archives, ..r }
    } else {
        match r.section {
            Section::Current => SectionsRead {
                current: if r.current is None {
                    Some(line)
                } else {
                    r.current
                },
                ..r
            },
            Section::Archives => SectionsRead { archives: r.archives.push(line), ..r },
            _ => SectionsRead { files: r.files.push(line), ..r },
        }
    }
}

/// The lines of a text, trimmed, added to what has been read.
pub open spec fn sections_on(s: Seq<char>, r: SectionsRead) -> SectionsRead
    decreases s.len(),
{
    let i = text::place_of(s, '\n', 0);
    let next = with_row(r, text::trimmed(s.take(i)));
    if i >= s.len() || i < 0 {
        next
    } else {
        sections_on(s.skip(i + 1), next)
    }
}

/// The sections that a text holds.
pub open spec fn sections_in(s: Seq<char>) -> SectionsRead {
    sections_on(
        s,
        (SectionsRead {
            section: Section::Outside,
            current: None,
            files: Seq::empty(),
            archives: Seq::empty(),
        }),
    )
}

/// What has been read, of the values at hand.
pub open spec fn read_so_far(p: ParsedSections, section: Section) -> SectionsRead {
    SectionsRead {
        section,
        current: paths::opt_text(p.current),
        files: extension_registry::texts(p.files@),
        archives: extension_registry::texts(p.archives@),
    }
}

fn read_row(line: &Vec<char>, p: &mut ParsedSections, section: Section) -> (r: Section)
    ensures
        read_so_far(*final(p), r) == with_row(read_so_far(*old(p), section), line@),
{
    if line.len() == 0 {
        return section;
    }
    if line[0] == '[' && line[line.len() - 1] == ']' {
        return Section::Outside;
    }
    if same_chars(line, &chars_of("current:")) {
        return Section::Current;
    }
    if same_chars(line, &chars_of("files:")) {
        return Section::Files;
    }
    if same_chars(line, &chars_of("archives:")) {
        return Section::Archives;
    }
    let row = string_of(line);
    match section {
        Section::Current => {
            if p.current.is_none() {
                p.current = Some(row);
            }
        },
        Section::Archives => {
            p.archives.push(row);
            assert(extension_registry::texts(p.archives@) =~= extension_registry::texts(
                old(p).archives@,
            ).push(line@));
        },
        _ => {
            p.files.push(row);
            assert(extension_registry::texts(p.files@) =~= extension_registry::texts(
                old(p).files@,
            ).push(line@));
        },
    }
    section
}

/// Splits a text into its sections.
pub fn parse_sections(content: &str) -> (r: ParsedSections)
    ensures
        paths::opt_text(r.current) == sections_in(content@).current,
        extension_registry::texts(r.files@) == sections_in(content@).files,
        extension_registry::texts(r.archives@) == sections_in(content@).archives,
{
    let cs = chars_of(content);
    let mut p = ParsedSections { current: None, files: Vec::new(), archives: Vec::new() };
    let mut section = Section::Outside;
    let mut pos: usize = 0;
    let mut more = true;
    assert(extension_registry::texts(p.files@) =~= Seq::empty());
    assert(extension_registry::texts(p.archives@) =~= Seq::empty());
    assert(cs@.skip(0) =~= cs@);
    while more
        invariant
            pos <= cs@.len(),
            cs@ == content@,
            sections_in(content@) == (if more {
                sections_on(cs@.skip(pos as int), read_so_far(p, section))
            } else {
                read_so_far(p, section)
            }),
        decreases
            if more {
                1int
            } else {
                0
            },
            cs.len() - pos,
    {
        let ghost rest = cs@.skip(pos as int);
        let ghost start = pos;
        let end: usize = find_char(&cs, '\n', pos);
        proof {
            bookmark::skip_finds(cs@, '\n', pos as int);
        }
        let line = piece(&cs, pos, end);
        assert(line@ =~= rest.take(end - pos));
        let line = trim(&line);
        section = read_row(&line, &mut p, section);
        if end >= cs.len() {
            more = false;
        } else {
            pos = end + 1;
            assert(cs@.skip(pos as int) =~= rest.skip(end - start + 1));
        }
    }
    p
}

/// The archive nearest to the root among the folders of a path.
pub open spec fn outer_archive<T: ArchiveTest>(t: T, path: Seq<char>) -> Option<Seq<char>>
    decreases path.len(),
{
    match paths::spec_parent(path) {
        None => None,
        Some(p) => if p.len() == 0 || p.len() >= path.len() {
            None
        } else {
            match outer_archive(t, p) {
                Some(a) => Some(a),
                None => if t.archive(p) {
                    Some(p)
                } else {
                    None
                },
            }
        },
    }
}

/// Backslashes turned into slashes.
pub open spec fn slashed(s: Seq<char>) -> Seq<char> {
    Seq::new(
        s.len(),
        |i: int|
            if s[i] == '\\' {
                '/'
            } else {
                s[i]
            },
    )
}

/// The path of an archive and the path of an entry in it.
pub open spec fn split_at_archive<T: ArchiveTest>(t: T, path: Seq<char>) -> Option<
    (Seq<char>, Seq<char>),
> {
    match outer_archive(t, path) {
        Some(a) => {
            let entry = slashed(paths::rest_behind(path, a.len() as int));
            if entry.len() == 0 {
                None
            } else {
                Some((a, entry))
            }
        },
        None => None,
    }
}

/// The source that a path of a bookmark denotes.
pub open spec fn denoted<T: ArchiveTest>(t: T, path: Seq<char>) -> SourceView {
    match split_at_archive(t, path) {
        Some((archive, entry)) => SourceView::ArchiveEntry { archive, entry, on_demand: false },
        None => if t.archive(path) {
            SourceView::PendingContainer(path)
        } else {
            SourceView::File(path)
        },
    }
}

/// An outer archive is where the path begins.
proof fn outer_is_prefix<T: ArchiveTest>(t: T, path: Seq<char>)
    ensures
        outer_archive(t, path) matches Some(a) ==> a.len() <= path.len(),
    decreases path.len(),
{
    paths::parent_is_prefix(path);
    if let Some(p) = paths::spec_parent(path) {
        if p.len() < path.len() {
            outer_is_prefix(t, p);
        }
    }
}

fn find_outer<T: ArchiveTest>(t: &T, path: &str) -> (r: Option<String>)
    ensures
        paths::opt_text(r) == outer_archive(*t, path@),
{
    let mut found: Option<String> = None;
    let mut here: String = path.to_owned();
    let mut more = true;
    while more
        invariant
            outer_archive(*t, path@) == (match outer_archive(*t, here@) {
                Some(a) if more => Some(a),
                _ => paths::opt_text(found),
            }),
        decreases
            if more {
                1int
            } else {
                0
            },
            here@.len(),
    {
        proof {
            paths::parent_is_prefix(here@);
        }
        match parent_of(here.as_str()) {
            None => {
                more = false;
            },
            Some(p) => {
                if chars_of(p.as_str()).len() == 0 {
                    more = false;
                } else {
                    if t.tells_archive(p.as_str()) {
                        found = Some(p.clone());
                    }
                    here = p;
                }
            },
        }
    }
    found
}

fn with_slashes(s: &str) -> (r: String)
    ensures
        r@ == slashed(s@),
{
    let cs = chars_of(s);
    let mut r = String::new();
    let mut i: usize = 0;
    while i < cs.len()
        invariant
            i <= cs@.len(),
            cs@ == s@,
            r@ == slashed(s@).take(i as int),
        decreases cs.len() - i,
    {
        r.push(
            if cs[i] == '\\' {
                '/'
            } else {
                cs[i]
            },
        );
        i = i + 1;
        assert(r@ =~= slashed(s@).take(i as int));
    }
    assert(r@ =~= slashed(s@));
    r
}

/// Splits a path into an archive and the path of an entry in it. Of archives
/// within archives the outermost counts.
pub fn split_archive_path<T: ArchiveTest>(raw: &str, is_archive: &T) -> (r: Option<
    (String, String),
>)
    ensures
        split_at_archive(*is_archive, raw@) == (match r {
            Some((a, e)) => Some((a@, e@)),
            None => None,
        }),
{
    proof {
        outer_is_prefix(*is_archive, raw@);
    }
    match find_outer(is_archive, raw) {
        None => None,
        Some(archive) => {
            let n: usize = chars_of(archive.as_str()).len();
            let rest = rest_of(raw, n);
            let entry = with_slashes(rest.as_str());
            if chars_of(entry.as_str()).len() == 0 {
                None
            } else {
                Some((archive, entry))
            }
        },
    }
}

/// The source that a path of a bookmark denotes: an entry of an archive, an
/// archive, or a file.
pub fn classify_raw_path<T: ArchiveTest>(raw: &str, is_archive: &T) -> (r: FileSource)
    ensures
        r@ == denoted(*is_archive, raw@),
{
    match split_archive_path(raw, is_archive) {
        Some((archive, entry)) => FileSource::ArchiveEntry { archive, entry, on_demand: false },
        None => if is_archive.tells_archive(raw) {
            FileSource::PendingContainer { container_path: raw.to_owned() }
        } else {
            FileSource::File(raw.to_owned())
        },
    }
}

/// The first file from `k` on that is the current one, up to the case of its
/// letters; the first of all where none is.
pub open spec fn current_from(files: Seq<Seq<char>>, current: Seq<char>, k: int) -> int
    decreases files.len() - k,
{
    if k >= files.len() {
        0
    } else if text::same_ignoring_case(files[k], current) {
        k
    } else {
        current_from(files, current, k + 1)
    }
}

fn position_of(files: &Vec<String>, current: &str) -> (r: usize)
    ensures
        r == current_from(extension_registry::texts(files@), current@, 0),
{
    let ghost all = extension_registry::texts(files@);
    let mut i: usize = 0;
    while i < files.len()
        invariant
            i <= files@.len(),
            all == extension_registry::texts(files@),
            current_from(all, current@, 0) == current_from(all, current@, i as int),
        decreases files.len() - i,
    {
        if equals_ignoring_case(files[i].as_str(), current) {
            return i;
        }
        i = i + 1;
    }
    0
}

/// The sources of the listed files.
pub open spec fn all_denoted<T: ArchiveTest>(t: T, files: Seq<Seq<char>>) -> Seq<SourceView> {
    Seq::new(files.len(), |i: int| denoted(t, files[i]))
}

/// A source lies in an archive with the path, or is it.
pub open spec fn of_archive(source: SourceView, path: Seq<char>) -> bool {
    match source {
        SourceView::ArchiveEntry { archive, .. } => text::same_ignoring_case(archive, path),
        SourceView::PendingContainer(archive) => text::same_ignoring_case(archive, path),
        _ => false,
    }
}

/// One of the sources lies in the archive or is it.
pub open spec fn knows_archive(sources: Seq<SourceView>, path: Seq<char>) -> bool {
    exists|i: int| 0 <= i < sources.len() && of_archive(#[trigger] sources[i], path)
}

/// The first `n` listed archives that are not known, as containers to expand.
pub open spec fn further(
    sources: Seq<SourceView>,
    archives: Seq<Seq<char>>,
    n: nat,
) -> Seq<SourceView>
    decreases n,
{
    if n == 0 {
        Seq::empty()
    } else {
        let before = further(sources, archives, (n - 1) as nat);
        if knows_archive(sources, archives[n - 1]) {
            before
        } else {
            before.push(SourceView::PendingContainer(archives[n - 1]))
        }
    }
}

/// What an older bookmark's text denotes: the listed files, then the archives
/// that no file is of, and the position of the current file.
pub open spec fn legacy_meaning<T: ArchiveTest>(t: T, s: Seq<char>) -> bookmark::Read {
    let p = sections_in(s);
    let listed = all_denoted(t, p.files);
    let entries = listed + further(listed, p.archives, p.archives.len());
    let index = match p.current {
        Some(c) => current_from(p.files, c, 0),
        None => 0,
    };
    bookmark::Read {
        entries,
        index: if entries.len() == 0 {
            0
        } else {
            bookmark::in_list(index as nat, entries.len())
        },
    }
}

fn is_known(entries: &Vec<FileSource>, n: usize, path: &str) -> (r: bool)
    requires
        n <= entries@.len(),
    ensures
        r == knows_archive(bookmark::views(entries@).take(n as int), path@),
{
    let ghost known = bookmark::views(entries@).take(n as int);
    let mut i: usize = 0;
    while i < n
        invariant
            i <= n <= entries@.len(),
            known == bookmark::views(entries@).take(n as int),
            forall|k: int| 0 <= k < i ==> !of_archive(#[trigger] known[k], path@),
        decreases n - i,
    {
        assert(known[i as int] == entries@[i as int]@);
        let same = match &entries[i] {
            FileSource::ArchiveEntry { archive, .. } => equals_ignoring_case(
                archive.as_str(),
                path,
            ),
            FileSource::PendingContainer { container_path } => equals_ignoring_case(
                container_path.as_str(),
                path,
            ),
            _ => false,
        };
        if same {
            return true;
        }
        i = i + 1;
    }
    false
}

/// Reads an older bookmark's text.
pub fn parse_legacy_bookmark<T: ArchiveTest>(content: &str, is_archive: &T) -> (r: BookmarkData)
    ensures
        bookmark::views(r.entries@) == legacy_meaning(*is_archive, content@).entries,
        r.index == legacy_meaning(*is_archive, content@).index,
{
    let p = parse_sections(content);
    let ghost files = sections_in(content@).files;
    let ghost archives = sections_in(content@).archives;
    let mut index: usize = 0;
    if let Some(current) = &p.current {
        index = position_of(&p.files, current.as_str());
    }
    let mut entries: Vec<FileSource> = Vec::new();
    let mut i: usize = 0;
    while i < p.files.len()
        invariant
            i <= p.files@.len(),
            files == extension_registry::texts(p.files@),
            bookmark::views(entries@) == all_denoted(*is_archive, files).take(i as int),
            entries@.len() == i,
        decreases p.files.len() - i,
    {
        let ghost before = bookmark::views(entries@);
        let e = classify_raw_path(p.files[i].as_str(), is_archive);
        entries.push(e);
        i = i + 1;
        assert(bookmark::views(entries@) =~= before.push(e@));
        assert(bookmark::views(entries@) =~= all_denoted(*is_archive, files).take(i as int));
    }
    let ghost listed = all_denoted(*is_archive, files);
    let n: usize = entries.len();
    assert(bookmark::views(entries@) =~= listed);
    assert(listed + further(listed, archives, 0) =~= listed);
    let mut j: usize = 0;
    while j < p.archives.len()
        invariant
            j <= p.archives@.len(),
            archives == extension_registry::texts(p.archives@),
            n == listed.len(),
            n <= entries@.len(),
            bookmark::views(entries@) == listed + further(listed, archives, j as nat),
        decreases p.archives.len() - j,
    {
        let ghost before = bookmark::views(entries@);
        assert(before.take(n as int) =~= listed);
        if !is_known(&entries, n, p.archives[j].as_str()) {
            entries.push(
                FileSource::PendingContainer { container_path: p.archives[j].clone() },
            );
            assert(bookmark::views(entries@) =~= before.push(
                SourceView::PendingContainer(archives[j as int]),
            ));
        }
        j = j + 1;
        assert(bookmark::views(entries@) =~= listed + further(listed, archives, j as nat));
    }
    if entries.len() == 0 {
        index = 0;
    } else if index >= entries.len() {
        index = entries.len() - 1;
    }
    BookmarkData { entries, index }
}

/// Reads an older bookmark from its bytes, without the byte order mark.
pub fn parse_legacy_bookmark_utf16le<T: ArchiveTest>(utf16le_bytes: &[u8], is_archive: &T) -> (
    r: BookmarkData)
    ensures
        bookmark::views(r.entries@) == legacy_meaning(
            *is_archive,
            utf16_text(units_of(utf16le_bytes@)),
        ).entries,
        r.index == legacy_meaning(*is_archive, utf16_text(units_of(utf16le_bytes@))).index,
{
    let content = decode_utf16le_lossy(utf16le_bytes);
    parse_legacy_bookmark(content.as_str(), is_archive)
}

/// The archive that a path leads into is the outermost one on its way: it is an archive,
/// and nothing above it is. Where there is none, no folder on the way is an archive.
pub proof fn outer_archive_is_outermost<T: ArchiveTest>(t: T, path: Seq<char>)
    ensures
        outer_archive(t, path) matches Some(a) ==> t.archive(a) && outer_archive(t, a) is None,
        outer_archive(t, path) is None ==> (paths::spec_parent(path) matches Some(p) ==> p.len()
            == 0 || !t.archive(p) && outer_archive(t, p) is None),
    decreases path.len(),
{
    paths::parent_is_prefix(path);
    if let Some(p) = paths::spec_parent(path) {
        if p.len() > 0 {
            outer_archive_is_outermost(t, p);
        }
    }
}

/// The current file of a bookmark in the old form is the first of the listed files with
/// its path, up to the case of letters; the first of all where none has it.
pub proof fn current_is_first_of_path(files: Seq<Seq<char>>, current: Seq<char>, k: int)
    requires
        0 <= k <= files.len(),
    ensures
        ({
            let i = current_from(files, current, k);
            ||| k <= i < files.len() && text::same_ignoring_case(files[i], current) && forall|j: int|
                k <= j < i ==> !text::same_ignoring_case(#[trigger] files[j], current)
            ||| i == 0 && forall|j: int|
                k <= j < files.len() ==> !text::same_ignoring_case(#[trigger] files[j], current)
        }),
    decreases files.len() - k,
{
    if k < files.len() && !text::same_ignoring_case(files[k], current) {
        current_is_first_of_path(files, current, k + 1);
    }
}

} // verus!
