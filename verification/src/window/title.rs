//! Texts that the window shows.

use vstd::prelude::*;

use super::{AppWindow, WinView};
use crate::document::states;
use crate::file_info::FileInfo;
use crate::image::ImageMetadata;
use crate::selection::PixelRect;
use crate::text;
use crate::text::{chars_of, decimal_text, join2, join3};

verus! {

/// A signed number in decimal digits.
pub open spec fn signed_decimal(n: int) -> Seq<char> {
    if n < 0 {
        "-"@ + text::decimal((-n) as nat)
    } else {
        text::decimal(n as nat)
    }
}

fn signed_text(n: i32) -> (r: String)
    ensures
        r@ == signed_decimal(n as int),
{
    if n < 0 {
        let digits = decimal_text((-(n as i64)) as u64);
        join2("-", digits.as_str())
    } else {
        decimal_text(n as u64)
    }
}

/// The place in the list and its length.
pub open spec fn page_part(current: int, len: int) -> Seq<char> {
    " ["@ + text::decimal((current + 1) as nat) + "/"@ + (text::decimal(len as nat) + "]"@)
}

/// The selected rectangle.
pub open spec fn selection_part(rect: PixelRect) -> Seq<char> {
    " 選択: ("@ + signed_decimal(rect.x as int) + ", "@ + (signed_decimal(rect.y as int) + ") "@
        + signed_decimal(rect.width as int) + ("×"@ + signed_decimal(rect.height as int)))
}

/// How far the expansion of containers is.
pub open spec fn progress_part(done: nat, total: nat) -> Seq<char> {
    " 読込: "@ + text::decimal(done) + ("/"@ + text::decimal(total))
}

/// The window's title: the current entry, its place, the selection and the
/// expansion; without an entry the program's name and version.
pub open spec fn title_of(w: WinView, version: Seq<char>) -> Seq<char> {
    match w.doc.list.current {
        Some(i) => {
            let source = w.doc.list.files[i].source;
            (if source is PendingContainer {
                "読み込み中: "@
            } else {
                ""@
            }) + source.shown() + page_part(i, w.doc.list.files.len() as int) + ((
            match w.selection {
                Some(rect) => selection_part(rect),
                None => ""@,
            }) + (match states::progress(w.doc.states) {
                Some((done, total)) => progress_part(done, total),
                None => ""@,
            }) + " - ぐらびゅ"@)
        },
        None => "ぐらびゅ v"@ + version,
    }
}

fn page_text(current: usize, len: usize) -> (r: String)
    requires
        current < len,
    ensures
        r@ == page_part(current as int, len as int),
{
    let place = decimal_text(current as u64 + 1);
    let count = decimal_text(len as u64);
    let head = join3(" [", place.as_str(), "/");
    let tail = join2(count.as_str(), "]");
    join2(head.as_str(), tail.as_str())
}

fn selection_text(rect: &PixelRect) -> (r: String)
    ensures
        r@ == selection_part(*rect),
{
    let x = signed_text(rect.x);
    let y = signed_text(rect.y);
    let width = signed_text(rect.width);
    let height = signed_text(rect.height);
    let head = join3(" 選択: (", x.as_str(), ", ");
    let middle = join3(y.as_str(), ") ", width.as_str());
    let tail = join2("×", height.as_str());
    let rest = join2(middle.as_str(), tail.as_str());
    join2(head.as_str(), rest.as_str())
}

fn progress_text(done: usize, total: usize) -> (r: String)
    ensures
        r@ == progress_part(done as nat, total as nat),
{
    let d = decimal_text(done as u64);
    let t = decimal_text(total as u64);
    let tail = join2("/", t.as_str());
    join3(" 読込: ", d.as_str(), tail.as_str())
}

impl AppWindow {
    /// The window's title.
    pub fn title(&self, version: &str) -> (r: String)
        requires
            self.wf(),
        ensures
            r@ == title_of(self@, version@),
    {
        let index: usize = match self.document.file_list.current_index() {
            Some(i) => i,
            None => {
                return join2("ぐらびゅ v", version);
            },
        };
        let files = self.document.file_list.files();
        let source = &files[index].source;
        let prefix = if source.is_pending_container() {
            "読み込み中: "
        } else {
            ""
        };
        let shown = source.display_path();
        let place = page_text(index, files.len());
        let selected = match &self.selection {
            Some(rect) => selection_text(rect),
            None => "".to_owned(),
        };
        let progress = match self.document.expand_progress() {
            Some((done, total)) => progress_text(done, total),
            None => "".to_owned(),
        };
        let head = join3(prefix, shown.as_str(), place.as_str());
        let tail = join3(selected.as_str(), progress.as_str(), " - ぐらびゅ");
        join2(head.as_str(), tail.as_str())
    }
}

/// The title that shows an error.
pub fn error_title(message: &str) -> (r: String)
    ensures
        r@ == "ぐらびゅ - エラー: "@ + message@,
{
    join2("ぐらびゅ - エラー: ", message)
}

/// Digits in groups of three, counted from the end.
pub open spec fn grouped(s: Seq<char>) -> Seq<char>
    decreases s.len(),
{
    if s.len() <= 3 {
        s
    } else {
        grouped(s.take(s.len() - 3)) + ","@ + s.skip(s.len() - 3)
    }
}

/// What stands before place `i` of the grouped digits.
spec fn grouped_upto(s: Seq<char>, i: int) -> Seq<char>
    decreases i,
{
    if i <= 0 {
        Seq::empty()
    } else {
        let before = grouped_upto(s, i - 1);
        let parted = if i - 1 > 0 && (s.len() - (i - 1)) % 3 == 0 {
            before + ","@
        } else {
            before
        };
        parted.push(s[i - 1])
    }
}

proof fn upto_of_prefix(s: Seq<char>, t: Seq<char>, i: int)
    requires
        0 <= i <= t.len() <= s.len(),
        (s.len() - t.len()) % 3 == 0,
        forall|k: int| 0 <= k < t.len() ==> s[k] == t[k],
    ensures
        grouped_upto(s, i) == grouped_upto(t, i),
    decreases i,
{
    if i > 0 {
        upto_of_prefix(s, t, i - 1);
        assert((s.len() - (i - 1)) % 3 == (t.len() - (i - 1)) % 3) by (nonlinear_arith)
            requires
                (s.len() - t.len()) % 3 == 0,
        ;
    }
}

proof fn upto_is_grouped(s: Seq<char>)
    ensures
        grouped_upto(s, s.len() as int) == grouped(s),
    decreases s.len(),
{
    let n = s.len() as int;
    reveal_with_fuel(grouped_upto, 4);
    if n <= 3 {
        assert(grouped_upto(s, n) =~= s);
    } else {
        let t = s.take(n - 3);
        upto_is_grouped(t);
        upto_of_prefix(s, t, n - 3);
        assert(grouped_upto(s, n) =~= grouped(t) + ","@ + s.skip(n - 3)) by {
            assert(grouped_upto(s, n - 3) == grouped(t));
            assert((n - (n - 3)) % 3 == 0);
        }
    }
}

/// A number with its digits in groups of three.
pub fn format_with_commas(n: u64) -> (r: String)
    ensures
        r@ == grouped(text::decimal(n as nat)),
{
    let digits = decimal_text(n);
    let s = chars_of(digits.as_str());
    let mut r = String::new();
    let mut i: usize = 0;
    assert(r@ =~= grouped_upto(s@, 0));
    while i < s.len()
        invariant
            i <= s@.len(),
            r@ == grouped_upto(s@, i as int),
        decreases s.len() - i,
    {
        if i > 0 && (s.len() - i) % 3 == 0 {
            r.append(",");
        }
        r.push(s[i]);
        i = i + 1;
    }
    proof {
        upto_is_grouped(s@);
    }
    r
}

/// Lines with an empty line between each two.
pub open spec fn spaced(lines: Seq<Seq<char>>) -> Seq<char>
    decreases lines.len(),
{
    if lines.len() == 0 {
        Seq::empty()
    } else if lines.len() == 1 {
        lines[0]
    } else {
        spaced(lines.drop_last()) + "\n\n"@ + lines.last()
    }
}

/// The texts of lines.
pub open spec fn line_texts(lines: Seq<String>) -> Seq<Seq<char>> {
    lines.map_values(|s: String| s@)
}

fn join_lines(lines: &Vec<String>) -> (r: String)
    ensures
        r@ == spaced(line_texts(lines@)),
{
    let mut r = String::new();
    let mut i: usize = 0;
    let ghost all = line_texts(lines@);
    assert(all.take(0) =~= Seq::empty());
    assert(r@ =~= spaced(all.take(0)));
    while i < lines.len()
        invariant
            i <= lines@.len(),
            all == line_texts(lines@),
            r@ == spaced(all.take(i as int)),
        decreases lines.len() - i,
    {
        assert(all.take(i + 1).drop_last() =~= all.take(i as int));
        assert(all.take(i + 1).last() == lines@[i as int]@);
        r =
        if i == 0 {
            lines[i].clone()
        } else {
            join3(r.as_str(), "\n\n", lines[i].as_str())
        };
        i = i + 1;
    }
    assert(all.take(all.len() as int) =~= all);
    r
}

/// The notes of a camera as lines.
pub open spec fn note_lines(exif: Seq<(String, String)>) -> Seq<Seq<char>> {
    exif.map_values(|e: (String, String)| (e.0)@ + ": "@ + (e.1)@)
}

/// The lines on the metadata.
pub open spec fn metadata_lines(m: ImageMetadata) -> Seq<Seq<char>> {
    seq!["フォーマット: "@ + m.format@] + line_texts(m.comments@) + (if m.exif@.len() == 0 {
        Seq::empty()
    } else {
        seq![""@, "--- EXIF ---"@] + note_lines(m.exif@)
    })
}

/// The lines on an entry, its image and its metadata.
pub open spec fn info_lines(
    info: FileInfo,
    size: Option<(u32, u32)>,
    metadata: Option<ImageMetadata>,
) -> Seq<Seq<char>> {
    seq![
        "パス: "@ + info.source.shown(),
        "ファイルサイズ: "@ + grouped(text::decimal((info.file_size / 1024) as nat)) + " KiB"@,
    ] + (match size {
        Some((w, h)) => seq![
            "画像サイズ: "@ + text::decimal(w as nat) + (" x "@ + text::decimal(h as nat)),
        ],
        None => Seq::empty(),
    }) + (match metadata {
        Some(m) => metadata_lines(m),
        None => Seq::empty(),
    })
}

fn add_line(lines: &mut Vec<String>, line: String)
    ensures
        line_texts(final(lines)@) == line_texts(old(lines)@).push(line@),
{
    lines.push(line);
    assert(line_texts(lines@) =~= line_texts(old(lines)@).push(line@));
}

fn add_comments(lines: &mut Vec<String>, comments: &Vec<String>)
    ensures
        line_texts(final(lines)@) == line_texts(old(lines)@) + line_texts(comments@),
{
    let ghost before = line_texts(lines@);
    let ghost all = line_texts(comments@);
    let mut i: usize = 0;
    assert(before + all.take(0) =~= before);
    while i < comments.len()
        invariant
            i <= comments@.len(),
            all == line_texts(comments@),
            line_texts(lines@) == before + all.take(i as int),
        decreases comments.len() - i,
    {
        add_line(lines, comments[i].clone());
        assert(before + all.take(i + 1) =~= (before + all.take(i as int)).push(comments@[i as int]@));
        i = i + 1;
    }
    assert(all.take(all.len() as int) =~= all);
}

fn add_notes(lines: &mut Vec<String>, exif: &Vec<(String, String)>)
    ensures
        line_texts(final(lines)@) == line_texts(old(lines)@) + note_lines(exif@),
{
    let ghost before = line_texts(lines@);
    let ghost all = note_lines(exif@);
    let mut i: usize = 0;
    assert(before + all.take(0) =~= before);
    while i < exif.len()
        invariant
            i <= exif@.len(),
            all == note_lines(exif@),
            line_texts(lines@) == before + all.take(i as int),
        decreases exif.len() - i,
    {
        let line = join3(exif[i].0.as_str(), ": ", exif[i].1.as_str());
        assert(all[i as int] == line@);
        add_line(lines, line);
        assert(before + all.take(i + 1) =~= (before + all.take(i as int)).push(line@));
        i = i + 1;
    }
    assert(all.take(all.len() as int) =~= all);
}

/// What is shown of an entry: its path and size, the size of the image, and the
/// metadata where it could be read.
pub fn show_image_info(
    info: &FileInfo,
    size: Option<(u32, u32)>,
    metadata: Option<&ImageMetadata>,
) -> (r: String)
    ensures
        r@ == spaced(
            info_lines(
                *info,
                size,
                match metadata {
                    Some(m) => Some(*m),
                    None => None,
                },
            ),
        ),
{
    let mut lines: Vec<String> = Vec::new();
    assert(line_texts(lines@) =~= Seq::empty());
    let path = info.source.display_path();
    add_line(&mut lines, join2("パス: ", path.as_str()));
    let bytes = format_with_commas(info.file_size / 1024);
    add_line(&mut lines, join3("ファイルサイズ: ", bytes.as_str(), " KiB"));
    match size {
        Some((w, h)) => {
            let width = decimal_text(w as u64);
            let height = decimal_text(h as u64);
            let tail = join2(" x ", height.as_str());
            add_line(&mut lines, join3("画像サイズ: ", width.as_str(), tail.as_str()));
        },
        None => {},
    }
    let ghost head = line_texts(lines@);
    match metadata {
        Some(m) => {
            add_line(&mut lines, join2("フォーマット: ", m.format.as_str()));
            add_comments(&mut lines, &m.comments);
            if m.exif.len() > 0 {
                add_line(&mut lines, "".to_owned());
                add_line(&mut lines, "--- EXIF ---".to_owned());
                add_notes(&mut lines, &m.exif);
            }
            assert(line_texts(lines@) =~= head + metadata_lines(*m));
        },
        None => {},
    }
    assert(line_texts(lines@) =~= info_lines(
        *info,
        size,
        match metadata {
            Some(m) => Some(*m),
            None => None,
        },
    ));
    join_lines(&lines)
}

} // verus!
