//! What the slide show, page numbers, the title and the mouse come to.

use vstd::prelude::*;

use super::action::Move;
use super::events;
use super::messages;
use super::messages::Route;
use super::title;
use super::WinView;
use crate::document::{list, DocView};
use crate::file_info::FileInfo;
use crate::file_list;
use crate::file_list::NavigationDirection;
use crate::image::ImageMetadata;
use crate::text;
use crate::window;
use crate::window::action_laws;

verus! {

/// A tick of the running slide show shows the next image. After the last one it shows the
/// first again where the show repeats; else the show stops there.
pub proof fn tick_shows_next(before: WinView, after: WinView)
    requires
        before.doc.list.valid(),
        before.doc.list.current is Some,
        before.slideshow.active,
        forall|k: int|
            0 <= k < before.doc.list.files.len()
                ==> !(#[trigger] before.doc.list.files[k]).load_failed,
        events::ticked(before, after),
    ensures
        after.doc.list.files == before.doc.list.files,
        ({
            let (i, n) = (before.doc.list.current->0, before.doc.list.files.len());
            &&& i + 1 < n ==> after.doc.list.current == Some(i + 1) && after.slideshow
                == before.slideshow
            &&& i + 1 == n && before.slideshow.repeat ==> after.doc.list.current == Some(0int)
                && after.slideshow == before.slideshow
            &&& i + 1 == n && !before.slideshow.repeat ==> after.doc == before.doc
                && !after.slideshow.active
        }),
{
    let v = before.doc.list;
    let (i, n) = (v.current->0, v.files.len() as int);
    if i + 1 >= n {
        if before.slideshow.repeat {
            let doc = choose|doc: DocView| #[trigger]
                window::moves(before.doc, Move::First, doc) && after == window::with_doc(
                    before,
                    doc,
                );
            let (l, m) = file_list::moved_to(v, 0);
            action_laws::navigated_list(before.doc, NavigationDirection::Forward, l, m, doc);
        }
    } else {
        let doc = choose|doc: DocView| #[trigger]
            window::moves(before.doc, Move::By(1), doc) && after == window::with_doc(before, doc);
        let (l, m) = file_list::moved_by(v, 1);
        action_laws::navigated_list(before.doc, list::towards(1), l, m, doc);
        action_laws::stride_in_sound_list(v, 1);
        action_laws::next_places(i, n);
    }
}

/// A tick without a running slide show does nothing.
pub proof fn tick_without_show(before: WinView, after: WinView)
    requires
        !before.slideshow.active,
        events::ticked(before, after),
    ensures
        after == before,
{
}

/// Asking for a page shows the entry of that number, counted from one; beyond either end,
/// the entry there.
pub proof fn page_is_shown(before: WinView, page: int, after: WinView)
    requires
        before.doc.list.valid(),
        before.doc.list.current is Some,
        events::jumped(
            before,
            events::page_index(page, before.doc.list.files.len() as int),
            after,
        ),
    ensures
        after.doc.list.files == before.doc.list.files,
        ({
            let n = before.doc.list.files.len();
            &&& 1 <= page <= n ==> after.doc.list.current == Some(page - 1)
            &&& page < 1 ==> after.doc.list.current == Some(0int)
            &&& page > n ==> after.doc.list.current == Some(n - 1)
        }),
{
    let n = before.doc.list.files.len() as int;
    let index = events::page_index(page, n);
    let w = window::stopped(before);
    let doc = choose|doc: DocView|
        {
            &&& #[trigger] events::jump(w.doc, index, doc)
            &&& after == window::with_doc(w, doc)
        };
    let (l, m) = file_list::moved_to(w.doc.list, index);
    action_laws::navigated_list(w.doc, NavigationDirection::Forward, l, m, doc);
}

/// Choosing a line of the panel shows the entry on it.
pub proof fn chosen_entry_is_shown(before: WinView, index: int, after: WinView)
    requires
        before.doc.list.valid(),
        0 <= index < before.doc.list.files.len(),
        events::jumped(before, index, after),
    ensures
        after.doc.list.files == before.doc.list.files,
        after.doc.list.current == Some(index),
        !after.slideshow.active,
{
    let w = window::stopped(before);
    let doc = choose|doc: DocView|
        {
            &&& #[trigger] events::jump(w.doc, index, doc)
            &&& after == window::with_doc(w, doc)
        };
    let (l, m) = file_list::moved_to(w.doc.list, index);
    action_laws::navigated_list(w.doc, NavigationDirection::Forward, l, m, doc);
}

/// The title of the window begins with the current entry's path and its number among all,
/// counted from one, and ends with the program's name.
pub proof fn title_tells_entry(w: WinView, version: Seq<char>)
    requires
        w.doc.list.current is Some,
        !(w.doc.list.files[w.doc.list.current->0].source is PendingContainer),
    ensures
        ({
            let t = title::title_of(w, version);
            let i = w.doc.list.current->0;
            let path = w.doc.list.files[i].source.shown();
            let place = " ["@ + text::decimal((i + 1) as nat) + "/"@ + text::decimal(
                w.doc.list.files.len(),
            ) + "]"@;
            let name = " - ぐらびゅ"@;
            &&& t.len() >= path.len() + place.len() + name.len()
            &&& t.take(path.len() as int) == path
            &&& t.subrange(path.len() as int, (path.len() + place.len()) as int) == place
            &&& t.skip(t.len() - name.len()) == name
        }),
{
    let t = title::title_of(w, version);
    let i = w.doc.list.current->0;
    let path = w.doc.list.files[i].source.shown();
    let place = " ["@ + text::decimal((i + 1) as nat) + "/"@ + text::decimal(
        w.doc.list.files.len(),
    ) + "]"@;
    let name = " - ぐらびゅ"@;
    reveal_strlit("");
    assert(title::page_part(i, w.doc.list.files.len() as int) =~= place);
    assert(""@ + path =~= path);
    assert(t.take(path.len() as int) =~= path);
    assert(t.subrange(path.len() as int, (path.len() + place.len()) as int) =~= place);
    assert(t.skip(t.len() - name.len()) =~= name);
}

/// What is told of an image names its path first, and each of the camera's notes on a line
/// of its own, its label before a colon.
pub proof fn notes_are_told(
    info: FileInfo,
    size: Option<(u32, u32)>,
    metadata: ImageMetadata,
    i: int,
)
    requires
        0 <= i < metadata.exif@.len(),
    ensures
        title::info_lines(info, size, Some(metadata))[0] == "パス: "@ + info.source.shown(),
        title::info_lines(info, size, Some(metadata)).contains(
            (metadata.exif@[i].0)@ + ": "@ + (metadata.exif@[i].1)@,
        ),
        size matches Some((w, h)) ==> title::info_lines(info, size, Some(metadata)).contains(
            "画像サイズ: "@ + text::decimal(w as nat) + (" x "@ + text::decimal(h as nat)),
        ),
{
    let lines = title::info_lines(info, size, Some(metadata));
    let told = title::metadata_lines(metadata);
    let notes = title::note_lines(metadata.exif@);
    let first = lines.len() - told.len();
    let note = told.len() - notes.len();
    assert(told[note + i] == notes[i]);
    assert(lines[first + note + i] == notes[i]);
    if size is Some {
        assert(lines[2] == "画像サイズ: "@ + text::decimal((size->0).0 as nat) + (" x "@
            + text::decimal((size->0).1 as nat)));
    }
}

/// Digits in groups of three: seen from the end, every fourth character is a comma and
/// there is no other, and no comma stands first.
pub proof fn digits_in_threes(s: Seq<char>, k: int)
    requires
        forall|i: int| 0 <= i < s.len() ==> #[trigger] s[i] != ',',
        0 <= k < title::grouped(s).len(),
    ensures
        title::grouped(s)[title::grouped(s).len() - 1 - k] == ',' <==> k % 4 == 3,
        title::grouped(s).len() == s.len() + if s.len() == 0 {
            0
        } else {
            (s.len() - 1) / 3
        },
    decreases s.len(),
{
    reveal_strlit(",");
    let g = title::grouped(s);
    if s.len() > 3 {
        let front = s.take(s.len() - 3);
        assert forall|i: int| 0 <= i < front.len() implies #[trigger] front[i] != ',' by {
            assert(front[i] == s[i]);
        }
        let h = title::grouped(front);
        grouped_is_filled(front);
        assert(g == h + ","@ + s.skip(s.len() - 3));
        digits_in_threes(
            front,
            if k >= 4 {
                k - 4
            } else {
                0
            },
        );
        if k >= 4 {
            assert(g[g.len() - 1 - k] == h[h.len() - 1 - (k - 4)]);
        } else if k < 3 {
            assert(g[g.len() - 1 - k] == s[s.len() - 1 - k]);
        } else {
            assert(g[g.len() - 1 - k] == ',');
        }
    }
}

proof fn grouped_is_filled(s: Seq<char>)
    requires
        s.len() > 0,
    ensures
        title::grouped(s).len() > 0,
    decreases s.len(),
{
    if s.len() > 3 {
        grouped_is_filled(s.take(s.len() - 3));
    }
}

/// The digits in groups are the digits, once the commas are left out.
pub proof fn grouped_digits_stay(s: Seq<char>)
    requires
        forall|i: int| 0 <= i < s.len() ==> #[trigger] s[i] != ',',
    ensures
        title::grouped(s).filter(|c: char| c != ',') == s,
    decreases s.len(),
{
    reveal_strlit(",");
    let p = |c: char| c != ',';
    if s.len() > 3 {
        let (front, end) = (s.take(s.len() - 3), s.skip(s.len() - 3));
        assert forall|i: int| 0 <= i < front.len() implies #[trigger] front[i] != ',' by {
            assert(front[i] == s[i]);
        }
        grouped_digits_stay(front);
        Seq::filter_distributes_over_add(title::grouped(front) + ","@, end, p);
        Seq::filter_distributes_over_add(title::grouped(front), ","@, p);
        assert forall|i: int| 0 <= i < end.len() implies p(#[trigger] end[i]) by {
            assert(end[i] == s[s.len() - 3 + i]);
        }
        all_stay(end, p);
        assert(","@.filter(p) =~= Seq::<char>::empty()) by {
            reveal_with_fuel(Seq::filter, 3);
            assert(","@.drop_last() =~= Seq::<char>::empty());
            assert(","@.last() == ',');
        }
        assert(front + Seq::<char>::empty() + end =~= s);
    } else {
        all_stay(s, p);
    }
}

proof fn all_stay(s: Seq<char>, p: spec_fn(char) -> bool)
    requires
        forall|i: int| 0 <= i < s.len() ==> p(#[trigger] s[i]),
    ensures
        s.filter(p) == s,
    decreases s.len(),
{
    reveal(Seq::filter);
    if s.len() > 0 {
        assert forall|i: int| 0 <= i < s.drop_last().len() implies p(#[trigger] s.drop_last()[i]) by {
            assert(s.drop_last()[i] == s[i]);
        }
        all_stay(s.drop_last(), p);
        assert(p(s[s.len() - 1]));
        assert(s.drop_last().push(s.last()) =~= s);
    } else {
        assert(s.filter(p) =~= s);
    }
}

/// The two halves of a mouse position, as the system packs them.
pub open spec fn packed(x: i16, y: i16) -> u64 {
    ((x as int % 0x10000) + (y as int % 0x10000) * 0x10000) as u64
}

/// Where the button was pressed and where the mouse went is read as the system packed it,
/// left of and above the window too.
pub proof fn mouse_position_is_read(w: WinView, wparam: u64, x: i16, y: i16)
    ensures
        messages::route_of(w, messages::WM_LBUTTONDOWN, wparam, packed(x, y)) == (Route::LeftDown {
            x,
            y,
        }),
        messages::route_of(w, messages::WM_MOUSEMOVE, wparam, packed(x, y)) == (Route::MouseMove {
            x,
            y,
            wake_cursor: w.fullscreen,
        }),
{
    let p = packed(x, y);
    assert(messages::low_word(p) == x as int % 0x10000);
    assert(messages::high_word(p) == y as int % 0x10000);
    assert(messages::signed_word(x as int % 0x10000) == x);
    assert(messages::signed_word(y as int % 0x10000) == y);
}

/// Turning the wheel away from the user goes up, whatever keys are held.
pub proof fn wheel_direction_is_read(w: WinView, keys: i16, delta: i16, lparam: u64)
    ensures
        messages::route_of(w, messages::WM_MOUSEWHEEL, packed(keys, delta), lparam) == (
        Route::Wheel { up: delta > 0 }),
{
    let p = packed(keys, delta);
    assert(messages::high_word(p) == delta as int % 0x10000);
    assert(messages::signed_word(delta as int % 0x10000) == delta);
}

} // verus!
