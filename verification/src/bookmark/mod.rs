//! Bookmarks: a list's sources and position as text.

use vstd::prelude::*;

pub mod legacy;

use self::legacy::parse_legacy_bookmark_utf16le;
use crate::file_info::{FileInfo, FileSource, SourceView};
use crate::file_list::FileList;
use crate::paths;
use crate::paths::extension_of;
use crate::text;
use crate::text::{
    chars_of, decimal_text, equals_ignoring_case, find_char, parse_number, piece, same_chars, string_of, trim,
};

verus! {

/// The path is a bookmark's, by its extension.
pub open spec fn is_bookmark(path: Seq<char>) -> bool {
    paths::spec_extension(path) matches Some(ext) && (text::same_ignoring_case(ext, "gvbm"@)
        || text::same_ignoring_case(ext, "gv3bm"@) || text::same_ignoring_case(ext, "gvb"@))
}

/// Whether the path is a bookmark's, by its extension.
pub fn is_bookmark_file(path: &str) -> (r: bool)
    ensures
        r == is_bookmark(path@),
{
    match extension_of(path) {
        Some(ext) => equals_ignoring_case(ext.as_str(), "gvbm") || equals_ignoring_case(
            ext.as_str(),
            "gv3bm",
        ) || equals_ignoring_case(ext.as_str(), "gvb"),
        None => false,
    }
}

/// What a bookmark holds.
#[derive(Debug)]
pub struct BookmarkData {
    pub entries: Vec<FileSource>,
    pub index: usize,
}

/// The views of sources.
pub open spec fn views(entries: Seq<FileSource>) -> Seq<SourceView> {
    Seq::new(entries.len(), |i: int| entries[i]@)
}

/// What has been read of a bookmark: the entries, and the position it gives.
pub struct Read {
    pub entries: Seq<SourceView>,
    pub index: nat,
}

/// A line's parts: what stands before its first tab, between the first and the
/// second, and behind that.
pub open spec fn fields(line: Seq<char>) -> Seq<Seq<char>> {
    let i = text::place_of(line, '\t', 0);
    if i >= line.len() {
        seq![line]
    } else {
        let j = text::place_of(line, '\t', i + 1);
        if j >= line.len() {
            seq![line.subrange(0, i), line.subrange(i + 1, line.len() as int)]
        } else {
            seq![
                line.subrange(0, i),
                line.subrange(i + 1, j),
                line.subrange(j + 1, line.len() as int),
            ]
        }
    }
}

/// The entry on a line; none for a page whose number cannot be read. A line of
/// no known form is a file's path.
pub open spec fn entry_on(line: Seq<char>) -> Option<SourceView> {
    let f = fields(line);
    if f.len() == 2 && f[0] == "file"@ {
        Some(SourceView::File(f[1]))
    } else if f.len() == 3 && f[0] == "archive"@ {
        Some(SourceView::ArchiveEntry { archive: f[1], entry: f[2], on_demand: false })
    } else if f.len() == 3 && f[0] == "pdf"@ {
        match text::number_in(f[2], u32::MAX as nat) {
            Some(n) => Some(SourceView::PdfPage { pdf_path: f[1], page_index: n as u32 }),
            None => None,
        }
    } else {
        Some(SourceView::File(line))
    }
}

/// The position that a comment gives.
pub open spec fn index_on(line: Seq<char>) -> Option<nat> {
    let head = "# index:"@;
    if line.len() >= head.len() && line.take(head.len() as int) == head {
        text::number_in(text::trimmed(line.skip(head.len() as int)), usize::MAX as nat)
    } else {
        None
    }
}

/// A trimmed line added to what has been read.
pub open spec fn with_line(r: Read, line: Seq<char>) -> Read {
    if line.len() == 0 {
        r
    } else if line[0] == '#' {
        match index_on(line) {
            Some(n) => Read { entries: r.entries, index: n },
            None => r,
        }
    } else {
        match entry_on(line) {
            Some(e) => Read { entries: r.entries.push(e), index: r.index },
            None => r,
        }
    }
}

/// The lines of a text, trimmed, added to what has been read.
pub open spec fn read_on(s: Seq<char>, r: Read) -> Read
    decreases s.len(),
{
    let i = text::place_of(s, '\n', 0);
    let next = with_line(r, text::trimmed(s.take(i)));
    if i >= s.len() || i < 0 {
        next
    } else {
        read_on(s.skip(i + 1), next)
    }
}

/// A position moved into a list; an empty list moves none.
pub open spec fn in_list(index: nat, len: nat) -> nat {
    if len > 0 && index >= len {
        (len - 1) as nat
    } else {
        index
    }
}

/// What a bookmark's text denotes.
pub open spec fn meaning(s: Seq<char>) -> Read {
    let r = read_on(s, (Read { entries: Seq::empty(), index: 0 }));
    Read { entries: r.entries, index: in_list(r.index, r.entries.len()) }
}

/// Whether the text begins with another.
fn begins_with(cs: &Vec<char>, head: &Vec<char>) -> (r: bool)
    ensures
        r == (cs@.len() >= head@.len() && cs@.take(head@.len() as int) == head@),
{
    if cs.len() < head.len() {
        return false;
    }
    let front = piece(cs, 0, head.len());
    assert(front@ =~= cs@.take(head@.len() as int));
    same_chars(&front, head)
}

/// The parts of a line.
fn split_fields(line: &Vec<char>) -> (r: Vec<Vec<char>>)
    ensures
        r@.len() == fields(line@).len(),
        forall|i: int| 0 <= i < r@.len() ==> #[trigger] r@[i]@ == fields(line@)[i],
{
    let mut r: Vec<Vec<char>> = Vec::new();
    let i: usize = find_char(line, '\t', 0);
    if i >= line.len() {
        let whole = piece(line, 0, line.len());
        assert(whole@ =~= line@);
        r.push(whole);
        return r;
    }
    r.push(piece(line, 0, i));
    let j: usize = find_char(line, '\t', i + 1);
    if j >= line.len() {
        r.push(piece(line, i + 1, line.len()));
    } else {
        r.push(piece(line, i + 1, j));
        r.push(piece(line, j + 1, line.len()));
    }
    r
}

fn parse_entry(line: &Vec<char>) -> (r: Option<FileSource>)
    ensures
        entry_on(line@) == (match r {
            Some(e) => Some(e@),
            None => None,
        }),
{
    let f = split_fields(line);
    let file = chars_of("file");
    let archive = chars_of("archive");
    let pdf = chars_of("pdf");
    if f.len() == 2 && same_chars(&f[0], &file) {
        Some(FileSource::File(string_of(&f[1])))
    } else if f.len() == 3 && same_chars(&f[0], &archive) {
        Some(
            FileSource::ArchiveEntry {
                archive: string_of(&f[1]),
                entry: string_of(&f[2]),
                on_demand: false,
            },
        )
    } else if f.len() == 3 && same_chars(&f[0], &pdf) {
        match parse_number(&f[2], u32::MAX as u64) {
            Some(n) => Some(
                FileSource::PdfPage { pdf_path: string_of(&f[1]), page_index: n as u32 },
            ),
            None => None,
        }
    } else {
        Some(FileSource::File(string_of(line)))
    }
}

fn parse_index(line: &Vec<char>) -> (r: Option<u64>)
    ensures
        index_on(line@) == (match r {
            Some(n) => Some(n as nat),
            None => None,
        }),
        r matches Some(n) ==> n <= usize::MAX,
{
    let head = chars_of("# index:");
    if begins_with(line, &head) {
        let rest = piece(line, head.len(), line.len());
        assert(rest@ =~= line@.skip(head@.len() as int));
        let rest = trim(&rest);
        parse_number(&rest, usize::MAX as u64)
    } else {
        None
    }
}

/// Reads a bookmark's text.
pub fn parse_bookmark(content: &str) -> (r: BookmarkData)
    ensures
        views(r.entries@) == meaning(content@).entries,
        r.index == meaning(content@).index,
{
    let cs = chars_of(content);
    let mut entries: Vec<FileSource> = Vec::new();
    let mut index: usize = 0;
    let mut pos: usize = 0;
    let mut more = true;
    let ghost all = read_on(content@, (Read { entries: Seq::empty(), index: 0 }));
    assert(views(entries@) =~= Seq::empty());
    assert(cs@.skip(0) =~= cs@);
    while more
        invariant
            pos <= cs@.len(),
            cs@ == content@,
            all == (if more {
                read_on(
                    cs@.skip(pos as int),
                    (Read { entries: views(entries@), index: index as nat }),
                )
            } else {
                Read { entries: views(entries@), index: index as nat }
            }),
        decreases
            if more {
                1int
            } else {
                0
            },
            cs.len() - pos,
    {
        let ghost rest = cs@.skip(pos as int);
        let ghost start = pos;
        let end: usize = find_char(&cs, '\n', pos);
        proof {
            skip_finds(cs@, '\n', pos as int);
        }
        let line = piece(&cs, pos, end);
        assert(line@ =~= rest.take(end - pos));
        let line = trim(&line);
        let ghost before = views(entries@);
        if line.len() > 0 {
            if line[0] == '#' {
                if let Some(n) = parse_index(&line) {
                    index = n as usize;
                }
            } else {
                if let Some(e) = parse_entry(&line) {
                    entries.push(e);
                    assert(views(entries@) =~= before.push(e@));
                }
            }
        }
        if end >= cs.len() {
            more = false;
        } else {
            pos = end + 1;
            assert(cs@.skip(pos as int) =~= rest.skip(end - start + 1));
        }
    }
    if entries.len() > 0 && index >= entries.len() {
        index = entries.len() - 1;
    }
    BookmarkData { entries, index }
}

/// `String::from_utf8` of std; none where it refuses the bytes. Claimed: it takes
/// bytes that are UTF-8, and no others, and gives the text that they stand for.
#[verifier::external_body]
fn text_of_bytes(bytes: &[u8]) -> (r: Option<String>)
    ensures
        match r {
            Some(text) => vstd::utf8::valid_utf8(bytes@) && text@ == vstd::utf8::decode_utf8(
                bytes@,
            ),
            None => !vstd::utf8::valid_utf8(bytes@),
        },
{
    String::from_utf8(bytes.to_vec()).ok()
}

/// The path is that of a bookmark in the old form, by its extension.
pub open spec fn is_old_form(path: Seq<char>) -> bool {
    paths::spec_extension(path) matches Some(ext) && text::same_ignoring_case(ext, "gvb"@)
}

/// The bytes begin with the mark of UTF-16 with the low byte first.
pub open spec fn has_mark(bytes: Seq<u8>) -> bool {
    bytes.len() >= 2 && bytes[0] == 0xff && bytes[1] == 0xfe
}

/// The bytes behind the mark, where there is one.
pub open spec fn unmarked(bytes: Seq<u8>) -> Seq<u8> {
    if has_mark(bytes) {
        bytes.skip(2)
    } else {
        bytes
    }
}

/// What the bytes of a bookmark's file mean: UTF-16 text with a mark in the old
/// form, UTF-8 text in the present one. None where they are no such text.
pub open spec fn file_meaning<T: legacy::ArchiveTest>(
    t: T,
    path: Seq<char>,
    bytes: Seq<u8>,
) -> Option<Read> {
    if is_old_form(path) {
        Some(
            legacy::legacy_meaning(t, legacy::utf16_text(legacy::units_of(unmarked(bytes)))),
        )
    } else if vstd::utf8::valid_utf8(bytes) {
        Some(meaning(vstd::utf8::decode_utf8(bytes)))
    } else {
        None
    }
}

/// A text that is written to a file in UTF-8, under a name of the present form, is
/// read back.
pub proof fn file_is_read_back<T: legacy::ArchiveTest>(t: T, path: Seq<char>, content: Seq<char>)
    requires
        !is_old_form(path),
    ensures
        file_meaning(t, path, vstd::utf8::encode_utf8(content)) == Some(meaning(content)),
{
    vstd::utf8::encode_utf8_valid_utf8(content);
    vstd::utf8::encode_utf8_decode_utf8(content);
}

/// Reads the bytes of a bookmark's file. None where they are no text.
pub fn parse_bookmark_file<T: legacy::ArchiveTest>(path: &str, bytes: &[u8], is_archive: &T) -> (
    r: Option<BookmarkData>)
    ensures
        match r {
            Some(data) => file_meaning(*is_archive, path@, bytes@) == Some(
                Read { entries: views(data.entries@), index: data.index as nat },
            ),
            None => file_meaning(*is_archive, path@, bytes@) is None,
        },
{
    let old_form = match extension_of(path) {
        Some(ext) => equals_ignoring_case(ext.as_str(), "gvb"),
        None => false,
    };
    if old_form {
        if bytes.len() >= 2 && bytes[0] == 0xff && bytes[1] == 0xfe {
            let rest = vstd::slice::slice_subrange(bytes, 2, bytes.len());
            assert(rest@ =~= unmarked(bytes@));
            Some(parse_legacy_bookmark_utf16le(rest, is_archive))
        } else {
            Some(parse_legacy_bookmark_utf16le(bytes, is_archive))
        }
    } else {
        match text_of_bytes(bytes) {
            Some(content) => Some(parse_bookmark(content.as_str())),
            None => None,
        }
    }
}

/// A character is found at the same place in a text and behind a cut before it.
pub proof fn skip_finds(s: Seq<char>, c: char, k: int)
    requires
        0 <= k <= s.len(),
    ensures
        text::place_of(s.skip(k), c, 0) == text::place_of(s, c, k) - k,
{
    let t = s.skip(k);
    let n = text::place_of(s, c, k);
    text::place_of_range(s, c, k);
    assert forall|i: int| 0 <= i < n - k implies #[trigger] t[i] != c by {
        assert(t[i] == s[i + k]);
    }
    text::place_of_is(t, c, 0, n - k);
}

/// The line of a source; none for a container that is not expanded.
pub open spec fn line_of(source: SourceView) -> Option<Seq<char>> {
    match source {
        SourceView::File(path) => Some("file\t"@ + path),
        SourceView::ArchiveEntry { archive, entry, .. } => Some(
            "archive\t"@ + archive + "\t"@ + entry,
        ),
        SourceView::PdfPage { pdf_path, page_index } => Some(
            "pdf\t"@ + pdf_path + "\t"@ + text::decimal(page_index as nat),
        ),
        SourceView::PendingContainer(_) => None,
    }
}

/// The lines of the first `n` entries.
pub open spec fn lines_of(files: Seq<FileInfo>, n: nat) -> Seq<char>
    decreases n,
{
    if n == 0 {
        Seq::empty()
    } else {
        let before = lines_of(files, (n - 1) as nat);
        match line_of(files[n - 1].source@) {
            Some(line) => before + line + "\n"@,
            None => before,
        }
    }
}

/// A bookmark's text.
pub open spec fn saved(files: Seq<FileInfo>, index: nat) -> Seq<char> {
    "# gv3 bookmark v1\n"@ + ("# index: "@ + text::decimal(index) + "\n"@) + lines_of(
        files,
        files.len(),
    )
}

/// The text under which a list and a position are saved. Containers that are not
/// expanded are left out.
pub fn bookmark_text(file_list: &FileList, current_index: Option<usize>) -> (r: String)
    ensures
        r@ == saved(
            file_list@.files,
            match current_index {
                Some(i) => i as nat,
                None => 0,
            },
        ),
{
    let files = file_list.files();
    let index: usize = match current_index {
        Some(i) => i,
        None => 0,
    };
    let mut content = String::new();
    let number = decimal_text(index as u64);
    content.append("# gv3 bookmark v1\n");
    content.append("# index: ");
    content.append(number.as_str());
    content.append("\n");
    let ghost head = content@;
    proof {
        assert(head =~= "# gv3 bookmark v1\n"@ + ("# index: "@ + text::decimal(index as nat)
            + "\n"@));
        assert(head + lines_of(files@, 0) =~= head);
    }
    let mut i: usize = 0;
    while i < files.len()
        invariant
            i <= files@.len(),
            content@ == head + lines_of(files@, i as nat),
        decreases files.len() - i,
    {
        let ghost before = content@;
        match &files[i].source {
            FileSource::File(path) => {
                content.append("file\t");
                content.append(path.as_str());
                content.append("\n");
            },
            FileSource::ArchiveEntry { archive, entry, .. } => {
                content.append("archive\t");
                content.append(archive.as_str());
                content.append("\t");
                content.append(entry.as_str());
                content.append("\n");
            },
            FileSource::PdfPage { pdf_path, page_index } => {
                let page = decimal_text(*page_index as u64);
                content.append("pdf\t");
                content.append(pdf_path.as_str());
                content.append("\t");
                content.append(page.as_str());
                content.append("\n");
            },
            FileSource::PendingContainer { .. } => {},
        }
        i = i + 1;
        assert(content@ =~= head + lines_of(files@, i as nat));
    }
    content
}

/// The file name offered for a bookmark that is saved at the given time, in
/// seconds from the start of 1970.
pub fn default_bookmark_name(now: u64) -> (r: String)
    ensures
        r@ == "bookmark_"@ + text::decimal(now as nat) + ".gvbm"@,
{
    let n = decimal_text(now);
    text::join3("bookmark_", n.as_str(), ".gvbm")
}

/// The text is on one line and holds no tab.
pub open spec fn plain(s: Seq<char>) -> bool {
    forall|i: int| 0 <= i < s.len() ==> #[trigger] s[i] != '\n' && s[i] != '\t'
}

/// The text is on one line, not empty, and ends in no white space.
pub open spec fn solid(s: Seq<char>) -> bool {
    &&& s.len() > 0
    &&& !text::is_space(s.last())
    &&& forall|i: int| 0 <= i < s.len() ==> #[trigger] s[i] != '\n'
}

/// The source can be saved and read back.
pub open spec fn savable(source: SourceView) -> bool {
    match source {
        SourceView::File(path) => plain(path) && solid(path),
        SourceView::ArchiveEntry { archive, entry, .. } => plain(archive) && solid(entry),
        SourceView::PdfPage { pdf_path, .. } => plain(pdf_path),
        SourceView::PendingContainer(_) => true,
    }
}

/// What is read back of a source: entries of archives are not on demand yet, and
/// containers that are not expanded are left out.
pub open spec fn read_back(source: SourceView) -> Option<SourceView> {
    match source {
        SourceView::ArchiveEntry { archive, entry, .. } => Some(
            SourceView::ArchiveEntry { archive, entry, on_demand: false },
        ),
        SourceView::PendingContainer(_) => None,
        _ => Some(source),
    }
}

/// What is read back of the first `n` entries.
pub open spec fn all_read_back(files: Seq<FileInfo>, n: nat) -> Seq<SourceView>
    decreases n,
{
    if n == 0 {
        Seq::empty()
    } else {
        let before = all_read_back(files, (n - 1) as nat);
        match read_back(files[n - 1].source@) {
            Some(s) => before.push(s),
            None => before,
        }
    }
}

/// Reading a text whose first line ends at `i` adds that line and reads on.
proof fn read_line(s: Seq<char>, line: Seq<char>, rest: Seq<char>, r: Read)
    requires
        s == line + "\n"@ + rest,
        forall|i: int| 0 <= i < line.len() ==> #[trigger] line[i] != '\n',
    ensures
        read_on(s, r) == read_on(rest, with_line(r, text::trimmed(line))),
{
    reveal_strlit("\n");
    let n = line.len() as int;
    assert(s[n] == '\n');
    assert forall|i: int| 0 <= i < n implies #[trigger] s[i] != '\n' by {
        assert(s[i] == line[i]);
    }
    text::place_of_is(s, '\n', 0, n);
    assert(s.take(n) =~= line);
    assert(s.skip(n + 1) =~= rest);
}

/// The line of a source denotes what is read back of it.
proof fn line_denotes(source: SourceView)
    requires
        savable(source),
        line_of(source) is Some,
    ensures
        ({
            let line = line_of(source)->0;
            &&& text::trimmed(line) == line
            &&& line.len() > 0
            &&& line[0] != '#'
            &&& entry_on(line) == read_back(source)
            &&& forall|i: int| 0 <= i < line.len() ==> #[trigger] line[i] != '\n'
        }),
{
    reveal_strlit("file\t");
    reveal_strlit("archive\t");
    reveal_strlit("pdf\t");
    reveal_strlit("\t");
    reveal_strlit("file");
    reveal_strlit("archive");
    reveal_strlit("pdf");
    let line = line_of(source)->0;
    match source {
        SourceView::File(path) => {
            let n = line.len() as int;
            assert(line.last() == path.last());
            assert forall|i: int| 5 <= i < n implies line[i] == #[trigger] path[i - 5] by {}
            assert forall|i: int| 5 <= i < n implies #[trigger] line[i] != '\t' by {
                assert(line[i] == path[i - 5]);
            }
            assert forall|i: int| 0 <= i < n implies #[trigger] line[i] != '\n' by {
                if i >= 5 {
                    assert(line[i] == path[i - 5]);
                }
            }
            text::place_of_is(line, '\t', 0, 4);
            text::place_of_is(line, '\t', 5, n);
            assert(line.subrange(0, 4) =~= "file"@);
            assert(line.subrange(5, n) =~= path);
        },
        SourceView::ArchiveEntry { archive, entry, .. } => {
            let n = line.len() as int;
            let k: int = 8 + archive.len() as int;
            assert(line.last() == entry.last());
            assert forall|i: int| 0 <= i < n implies #[trigger] line[i] != '\n' && (8 <= i < k
                ==> line[i] != '\t') by {
                if 8 <= i < k {
                    assert(line[i] == archive[i - 8]);
                } else if i > k {
                    assert(line[i] == entry[i - k - 1]);
                }
            }
            assert(line[k] == '\t');
            text::place_of_is(line, '\t', 0, 7);
            text::place_of_is(line, '\t', 8, k);
            assert(line.subrange(0, 7) =~= "archive"@);
            assert(line.subrange(8, k) =~= archive);
            assert(line.subrange(k + 1, n) =~= entry);
        },
        SourceView::PdfPage { pdf_path, page_index } => {
            let n = line.len() as int;
            let k: int = 4 + pdf_path.len() as int;
            let number = text::decimal(page_index as nat);
            text::decimal_denotes(page_index as nat);
            text::decimal_read_back(page_index as nat, u32::MAX as nat);
            assert(line.last() == number.last());
            assert(text::is_digit(number[number.len() - 1]));
            assert forall|i: int| 0 <= i < n implies #[trigger] line[i] != '\n' && (4 <= i < k
                ==> line[i] != '\t') by {
                if 4 <= i < k {
                    assert(line[i] == pdf_path[i - 4]);
                } else if i > k {
                    assert(line[i] == number[i - k - 1]);
                    assert(text::is_digit(number[i - k - 1]));
                }
            }
            assert(line[k] == '\t');
            text::place_of_is(line, '\t', 0, 3);
            text::place_of_is(line, '\t', 4, k);
            assert(line.subrange(0, 3) =~= "pdf"@);
            assert(line.subrange(4, k) =~= pdf_path);
            assert(line.subrange(k + 1, n) =~= number);
            assert("archive"@.len() != "pdf"@.len());
        },
        _ => {},
    }
    text::trimmed_same(line);
    let f = fields(line);
    assert("file"@.len() == 4 && "archive"@.len() == 7 && "pdf"@.len() == 3);
}

/// Reading the lines of the first `n` entries, and then more text, gives what is
/// read back of them.
proof fn lines_read_back(files: Seq<FileInfo>, n: nat, more: Seq<char>, r: Read)
    requires
        n <= files.len(),
        forall|i: int| 0 <= i < n ==> savable((#[trigger] files[i]).source@),
    ensures
        read_on(lines_of(files, n) + more, r) == read_on(
            more,
            (Read { entries: r.entries + all_read_back(files, n), index: r.index }),
        ),
    decreases n,
{
    if n == 0 {
        assert(lines_of(files, 0) + more =~= more);
        assert(r.entries + all_read_back(files, 0) =~= r.entries);
    } else {
        let k = (n - 1) as nat;
        let source = files[n - 1].source@;
        match line_of(source) {
            Some(line) => {
                line_denotes(source);
                let tail = line + "\n"@ + more;
                assert(lines_of(files, n) + more =~= lines_of(files, k) + tail);
                lines_read_back(files, k, tail, r);
                let mid = Read { entries: r.entries + all_read_back(files, k), index: r.index };
                read_line(tail, line, more, mid);
                assert(mid.entries.push(read_back(source)->0) =~= r.entries + all_read_back(
                    files,
                    n,
                ));
            },
            None => {
                lines_read_back(files, k, more, r);
            },
        }
    }
}

/// A saved bookmark is read back: the same sources in the same order, without
/// containers that are not expanded, and the position, moved into the list.
pub proof fn saved_is_read_back(files: Seq<FileInfo>, index: nat)
    requires
        index <= usize::MAX,
        forall|i: int| 0 <= i < files.len() ==> savable((#[trigger] files[i]).source@),
    ensures
        meaning(saved(files, index)).entries == all_read_back(files, files.len()),
        meaning(saved(files, index)).index == in_list(
            index,
            all_read_back(files, files.len()).len(),
        ),
{
    reveal_strlit("# gv3 bookmark v1\n");
    reveal_strlit("# gv3 bookmark v1");
    reveal_strlit("# index: ");
    reveal_strlit("# index:");
    reveal_strlit("\n");
    let start = Read { entries: Seq::empty(), index: 0 };
    let title = "# gv3 bookmark v1"@;
    let number = text::decimal(index);
    let second = "# index: "@ + number;
    let lines = lines_of(files, files.len());
    let all = saved(files, index);
    text::decimal_denotes(index);
    text::decimal_read_back(index, usize::MAX as nat);
    assert(text::is_digit(number[0]) && text::is_digit(number[number.len() - 1]));
    // The title is a comment without a position.
    assert(all =~= title + "\n"@ + (second + "\n"@ + lines));
    read_line(all, title, second + "\n"@ + lines, start);
    text::trimmed_same(title);
    let head = "# index:"@;
    assert(title.take(head.len() as int) != head) by {
        assert(title.take(head.len() as int)[2] == 'g');
        assert(head[2] == 'i');
    }
    // The second line gives the position.
    assert forall|i: int| 0 <= i < second.len() implies #[trigger] second[i] != '\n' by {
        if i >= 9 {
            assert(second[i] == number[i - 9]);
            assert(text::is_digit(number[i - 9]));
        }
    }
    assert(second.last() == number.last());
    read_line(second + "\n"@ + lines, second, lines, start);
    text::trimmed_same(second);
    assert(second.take(head.len() as int) =~= head);
    let rest = second.skip(head.len() as int);
    assert(rest =~= seq![' '] + number);
    assert(text::trimmed(rest) == number) by {
        assert(text::after_spaces(rest, 1) == 1) by {
            assert(rest[1] == number[0]);
        }
        assert(text::after_spaces(rest, 0) == 1);
        assert(rest.last() == number.last());
        assert(text::before_spaces(rest, 1, rest.len() as int) == rest.len());
        assert(rest.subrange(1, rest.len() as int) =~= number);
    }
    let mid = Read { entries: Seq::empty(), index };
    lines_read_back(files, files.len(), Seq::empty(), mid);
    assert(lines + Seq::<char>::empty() =~= lines);
    let end = Read { entries: mid.entries + all_read_back(files, files.len()), index };
    assert(mid.entries + all_read_back(files, files.len()) =~= all_read_back(files, files.len()));
    let e = Seq::<char>::empty();
    assert(text::place_of(e, '\n', 0) == 0);
    assert(e.take(0) =~= e);
    text::trimmed_same(e);
    assert(read_on(e, end) == end);
}

} // verus!
