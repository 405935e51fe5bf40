//! The camera's notes in an image file.

use vstd::prelude::*;

use crate::text;
use crate::text::{chars_of, decimal_text, join2, join3, same_text, string_of, strip, trim};

verus! {

/// The part of the notes that a tag belongs to.
#[derive(Debug, Clone, Copy, PartialEq, Eq, Structural)]
pub enum TagArea {
    Tiff,
    Exif,
    Gps,
}

/// A tag of the Exif standard.
#[derive(Debug, Clone, Copy, PartialEq, Eq, Structural)]
pub struct ExifTag {
    pub area: TagArea,
    pub number: u16,
}

/// The camera's model.
pub const MODEL: u16 = 0x110;

/// The lens.
pub const LENS_MODEL: u16 = 0xa434;

/// The focal length in millimetres.
pub const FOCAL_LENGTH: u16 = 0x920a;

/// The aperture.
pub const F_NUMBER: u16 = 0x829d;

/// The exposure in seconds.
pub const EXPOSURE_TIME: u16 = 0x829a;

/// The sensitivity.
pub const SENSITIVITY: u16 = 0x8827;

/// When the picture was taken.
pub const DATE_TIME_ORIGINAL: u16 = 0x9003;

/// North or south.
pub const LATITUDE_REF: u16 = 1;

/// Degrees, minutes and seconds of latitude.
pub const LATITUDE: u16 = 2;

/// East or west.
pub const LONGITUDE_REF: u16 = 3;

/// Degrees, minutes and seconds of longitude.
pub const LONGITUDE: u16 = 4;

/// A tag of the part on the file format.
#[verifier::allow_in_spec]
pub fn tiff_tag(number: u16) -> ExifTag
    returns
        (ExifTag { area: TagArea::Tiff, number }),
{
    ExifTag { area: TagArea::Tiff, number }
}

/// A tag of the part on the camera.
#[verifier::allow_in_spec]
pub fn exif_tag(number: u16) -> ExifTag
    returns
        (ExifTag { area: TagArea::Exif, number }),
{
    ExifTag { area: TagArea::Exif, number }
}

/// A tag of the part on the place.
#[verifier::allow_in_spec]
pub fn gps_tag(number: u16) -> ExifTag
    returns
        (ExifTag { area: TagArea::Gps, number }),
{
    ExifTag { area: TagArea::Gps, number }
}

/// The parsed notes of the `exif` crate.
#[verifier::external_type_specification]
#[verifier::external_body]
pub struct ExExif(::exif::Exif);

/// A note.
pub struct Note {
    /// The value as text.
    pub text: String,
    /// The value as an unsigned integer, where it is one.
    pub whole: Option<u32>,
    /// The values as numerators and denominators, where they are such.
    pub ratios: Option<Vec<(u32, u32)>>,
}

/// What is known of a note.
#[verifier::ext_equal]
pub struct NoteView {
    pub text: Seq<char>,
    pub whole: Option<u32>,
    pub ratios: Option<Seq<(u32, u32)>>,
}

impl View for Note {
    type V = NoteView;

    open spec fn view(&self) -> NoteView {
        NoteView {
            text: self.text@,
            whole: self.whole,
            ratios: match self.ratios {
                Some(v) => Some(v@),
                None => None,
            },
        }
    }
}

/// The notes that the parsed notes hold of the primary image.
pub uninterp spec fn contents(exif: ::exif::Exif) -> Map<ExifTag, NoteView>;

/// The notes that `exif` finds in a file's bytes; none where it finds none.
pub uninterp spec fn noted(data: Seq<u8>) -> Option<Map<ExifTag, NoteView>>;

/// `exif::Reader::read_from_container` on bytes in memory. Claimed: whether it
/// succeeds, and what the notes are, depends on the bytes alone.
#[verifier::external_body]
fn open_notes(data: &[u8]) -> (r: Option<::exif::Exif>)
    ensures
        noted(data@) == (match r {
            Some(e) => Some(contents(e)),
            None => None,
        }),
{
    ::exif::Reader::new().read_from_container(&mut std::io::Cursor::new(data)).ok()
}

/// `exif::Exif::get_field` for the primary image, with the field's
/// `display_value`, `get_uint` and rational values. Claimed: it is the note under
/// the tag.
#[verifier::external_body]
fn find_note(exif: &::exif::Exif, tag: ExifTag) -> (r: Option<Note>)
    ensures
        match r {
            Some(n) => contents(*exif).contains_key(tag) && n@ == contents(*exif)[tag],
            None => !contents(*exif).contains_key(tag),
        },
{
    let area = match tag.area {
        TagArea::Tiff => ::exif::Context::Tiff,
        TagArea::Exif => ::exif::Context::Exif,
        TagArea::Gps => ::exif::Context::Gps,
    };
    let field = exif.get_field(::exif::Tag(area, tag.number), ::exif::In::PRIMARY)?;
    let ratios = match &field.value {
        ::exif::Value::Rational(v) => Some(v.iter().map(|r| (r.num, r.denom)).collect()),
        _ => None,
    };
    Some(Note { text: field.display_value().to_string(), whole: field.value.get_uint(0), ratios })
}

/// A place on a meridian or a parallel. A denominator may be zero.
#[derive(Debug, Clone, Copy, PartialEq, Eq)]
pub struct GpsCoordinate {
    pub degrees: (u32, u32),
    pub minutes: (u32, u32),
    pub seconds: (u32, u32),
    /// South or west.
    pub negative: bool,
}

/// The value of a field. Quotients are left as numerator and denominator, the
/// latter never zero.
#[derive(Debug)]
pub enum FieldValue {
    Text(String),
    Millimetres(u32, u32),
    Aperture(u32, u32),
    Seconds(u32, u32),
    Position(GpsCoordinate, GpsCoordinate),
}

/// What is known of a field's value.
pub enum FieldValueView {
    Text(Seq<char>),
    Millimetres(u32, u32),
    Aperture(u32, u32),
    Seconds(u32, u32),
    Position(GpsCoordinate, GpsCoordinate),
}

impl View for FieldValue {
    type V = FieldValueView;

    open spec fn view(&self) -> FieldValueView {
        match self {
            FieldValue::Text(s) => FieldValueView::Text(s@),
            FieldValue::Millimetres(n, d) => FieldValueView::Millimetres(*n, *d),
            FieldValue::Aperture(n, d) => FieldValueView::Aperture(*n, *d),
            FieldValue::Seconds(n, d) => FieldValueView::Seconds(*n, *d),
            FieldValue::Position(a, b) => FieldValueView::Position(*a, *b),
        }
    }
}

/// A labelled value.
#[derive(Debug)]
pub struct ExifField {
    pub label: String,
    pub value: FieldValue,
}

/// What is known of a field: its label and its value.
pub type FieldView = (Seq<char>, FieldValueView);

/// The views of fields.
pub open spec fn field_views(fields: Seq<ExifField>) -> Seq<FieldView> {
    fields.map_values(|f: ExifField| (f.label@, f.value@))
}

/// The text of a note without white space and quotes at its ends.
pub open spec fn bare_text(s: Seq<char>) -> Seq<char> {
    text::trimmed(text::stripped(text::trimmed(s), '"'))
}

/// The bare text under a tag; none where it is empty.
pub open spec fn text_under(notes: Map<ExifTag, NoteView>, tag: ExifTag) -> Option<Seq<char>> {
    if notes.contains_key(tag) && bare_text(notes[tag].text).len() > 0 {
        Some(bare_text(notes[tag].text))
    } else {
        None
    }
}

/// The first quotient under a tag.
pub open spec fn ratio_under(notes: Map<ExifTag, NoteView>, tag: ExifTag) -> Option<(u32, u32)> {
    if notes.contains_key(tag) {
        match notes[tag].ratios {
            Some(v) => if v.len() > 0 {
                Some(v[0])
            } else {
                None
            },
            None => None,
        }
    } else {
        None
    }
}

/// South or west stands under the tag.
pub open spec fn is_negative(notes: Map<ExifTag, NoteView>, tag: ExifTag) -> bool {
    notes.contains_key(tag) && {
        let s = text::stripped(text::trimmed(notes[tag].text), '"');
        s == "S"@ || s == "W"@
    }
}

/// The coordinate under a tag, with the hemisphere under another.
pub open spec fn coordinate_under(
    notes: Map<ExifTag, NoteView>,
    tag: ExifTag,
    hemisphere: ExifTag,
) -> Option<GpsCoordinate> {
    if notes.contains_key(tag) {
        match notes[tag].ratios {
            Some(v) => if v.len() >= 3 {
                Some(
                    GpsCoordinate {
                        degrees: v[0],
                        minutes: v[1],
                        seconds: v[2],
                        negative: is_negative(notes, hemisphere),
                    },
                )
            } else {
                None
            },
            None => None,
        }
    } else {
        None
    }
}

/// The exposure as it is shown: a fraction of a second, or seconds.
pub open spec fn exposure_value(ratio: (u32, u32)) -> Option<FieldValueView> {
    if ratio.0 == 0 || ratio.1 == 0 {
        None
    } else if ratio.0 >= ratio.1 {
        Some(FieldValueView::Seconds(ratio.0, ratio.1))
    } else {
        Some(
            FieldValueView::Text(
                text::decimal(ratio.0 as nat) + "/"@ + text::decimal(ratio.1 as nat) + " 秒"@,
            ),
        )
    }
}

/// A field where there is a value, else nothing.
pub open spec fn labelled(label: Seq<char>, value: Option<FieldValueView>) -> Seq<FieldView> {
    match value {
        Some(v) => seq![(label, v)],
        None => Seq::empty(),
    }
}

/// A text as a value.
pub open spec fn text_value(s: Option<Seq<char>>) -> Option<FieldValueView> {
    match s {
        Some(s) => Some(FieldValueView::Text(s)),
        None => None,
    }
}

/// The focal length; none where the denominator is zero.
pub open spec fn focal_value(notes: Map<ExifTag, NoteView>) -> Option<FieldValueView> {
    match ratio_under(notes, exif_tag(FOCAL_LENGTH)) {
        Some(r) => if r.1 == 0 {
            None
        } else {
            Some(FieldValueView::Millimetres(r.0, r.1))
        },
        None => None,
    }
}

/// The aperture; none where the denominator is zero.
pub open spec fn aperture_value(notes: Map<ExifTag, NoteView>) -> Option<FieldValueView> {
    match ratio_under(notes, exif_tag(F_NUMBER)) {
        Some(r) => if r.1 == 0 {
            None
        } else {
            Some(FieldValueView::Aperture(r.0, r.1))
        },
        None => None,
    }
}

/// The exposure.
pub open spec fn shutter_value(notes: Map<ExifTag, NoteView>) -> Option<FieldValueView> {
    match ratio_under(notes, exif_tag(EXPOSURE_TIME)) {
        Some(r) => exposure_value(r),
        None => None,
    }
}

/// The sensitivity.
pub open spec fn sensitivity_value(notes: Map<ExifTag, NoteView>) -> Option<FieldValueView> {
    if notes.contains_key(exif_tag(SENSITIVITY)) {
        match notes[exif_tag(SENSITIVITY)].whole {
            Some(n) => Some(FieldValueView::Text("ISO "@ + text::decimal(n as nat))),
            None => None,
        }
    } else {
        None
    }
}

/// Where the picture was taken; none unless both coordinates are there.
pub open spec fn position_value(notes: Map<ExifTag, NoteView>) -> Option<FieldValueView> {
    match (
        coordinate_under(notes, gps_tag(LATITUDE), gps_tag(LATITUDE_REF)),
        coordinate_under(notes, gps_tag(LONGITUDE), gps_tag(LONGITUDE_REF)),
    ) {
        (Some(a), Some(b)) => Some(FieldValueView::Position(a, b)),
        _ => None,
    }
}

/// The fields of the notes in their order.
pub open spec fn fields_of(notes: Map<ExifTag, NoteView>) -> Seq<FieldView> {
    labelled("カメラ"@, text_value(text_under(notes, tiff_tag(MODEL)))) + labelled(
        "レンズ"@,
        text_value(text_under(notes, exif_tag(LENS_MODEL))),
    ) + labelled("焦点距離"@, focal_value(notes)) + labelled("F値"@, aperture_value(notes))
        + labelled("シャッター速度"@, shutter_value(notes)) + labelled(
        "ISO感度"@,
        sensitivity_value(notes),
    ) + labelled("撮影日時"@, text_value(text_under(notes, exif_tag(DATE_TIME_ORIGINAL)))) + labelled(
        "GPS"@,
        position_value(notes),
    )
}

/// The text without white space and quotes at its ends; none where it is empty.
pub fn bare(note: &str) -> (r: Option<String>)
    ensures
        match r {
            Some(s) => s@ == bare_text(note@) && s@.len() > 0,
            None => bare_text(note@).len() == 0,
        },
{
    let inner = strip(&trim(&chars_of(note)), '"');
    let cs = trim(&inner);
    if cs.len() == 0 {
        None
    } else {
        Some(string_of(&cs))
    }
}

fn note_text(exif: &::exif::Exif, tag: ExifTag) -> (r: Option<FieldValue>)
    ensures
        text_value(text_under(contents(*exif), tag)) == (match r {
            Some(v) => Some(v@),
            None => None,
        }),
{
    match find_note(exif, tag) {
        Some(n) => match bare(n.text.as_str()) {
            Some(s) => Some(FieldValue::Text(s)),
            None => None,
        },
        None => None,
    }
}

fn note_ratio(exif: &::exif::Exif, tag: ExifTag) -> (r: Option<(u32, u32)>)
    ensures
        r == ratio_under(contents(*exif), tag),
{
    match find_note(exif, tag) {
        Some(n) => match &n.ratios {
            Some(v) => if v.len() > 0 {
                Some(v[0])
            } else {
                None
            },
            None => None,
        },
        None => None,
    }
}

/// The exposure as it is shown.
pub fn format_exposure_time(ratio: (u32, u32)) -> (r: Option<FieldValue>)
    ensures
        exposure_value(ratio) == (match r {
            Some(v) => Some(v@),
            None => None,
        }),
{
    let (num, denom) = ratio;
    if num == 0 || denom == 0 {
        None
    } else if num >= denom {
        Some(FieldValue::Seconds(num, denom))
    } else {
        let n = decimal_text(num as u64);
        let d = decimal_text(denom as u64);
        let quotient = join3(n.as_str(), "/", d.as_str());
        Some(FieldValue::Text(join2(quotient.as_str(), " 秒")))
    }
}

/// South or west.
pub fn points_back(note: &str) -> (r: bool)
    ensures
        r == ({
            let s = text::stripped(text::trimmed(note@), '"');
            s == "S"@ || s == "W"@
        }),
{
    let cs = strip(&trim(&chars_of(note)), '"');
    let s = string_of(&cs);
    same_text(s.as_str(), "S") || same_text(s.as_str(), "W")
}

fn note_coordinate(exif: &::exif::Exif, tag: ExifTag, hemisphere: ExifTag) -> (r: Option<
    GpsCoordinate,
>)
    ensures
        r == coordinate_under(contents(*exif), tag, hemisphere),
{
    let (degrees, minutes, seconds) = match find_note(exif, tag) {
        Some(n) => match &n.ratios {
            Some(v) => if v.len() >= 3 {
                (v[0], v[1], v[2])
            } else {
                return None;
            },
            None => {
                return None;
            },
        },
        None => {
            return None;
        },
    };
    let negative = match find_note(exif, hemisphere) {
        Some(n) => points_back(n.text.as_str()),
        None => false,
    };
    Some(GpsCoordinate { degrees, minutes, seconds, negative })
}

fn add_field(fields: &mut Vec<ExifField>, label: &str, value: Option<FieldValue>)
    ensures
        field_views(final(fields)@) == field_views(old(fields)@) + labelled(
            label@,
            match value {
                Some(v) => Some(v@),
                None => None,
            },
        ),
{
    match value {
        Some(value) => {
            let ghost before = fields@;
            fields.push(ExifField { label: label.to_owned(), value });
            assert(field_views(fields@) =~= field_views(before) + seq![(label@, value@)]);
        },
        None => {
            assert(field_views(fields@) =~= field_views(fields@) + Seq::<FieldView>::empty());
        },
    }
}

/// The camera's notes as labelled values in a fixed order; empty where there are
/// none or they cannot be read.
pub fn read_exif_fields(data: &[u8]) -> (r: Vec<ExifField>)
    ensures
        field_views(r@) == (match noted(data@) {
            Some(notes) => fields_of(notes),
            None => Seq::empty(),
        }),
{
    let mut fields: Vec<ExifField> = Vec::new();
    assert(field_views(fields@) =~= Seq::empty());
    let exif = match open_notes(data) {
        Some(e) => e,
        None => {
            return fields;
        },
    };
    let ghost notes = contents(exif);
    let camera = note_text(&exif, tiff_tag(MODEL));
    add_field(&mut fields, "カメラ", camera);
    let lens = note_text(&exif, exif_tag(LENS_MODEL));
    add_field(&mut fields, "レンズ", lens);
    let focal = match note_ratio(&exif, exif_tag(FOCAL_LENGTH)) {
        Some((n, d)) => if d == 0 {
            None
        } else {
            Some(FieldValue::Millimetres(n, d))
        },
        None => None,
    };
    add_field(&mut fields, "焦点距離", focal);
    let aperture = match note_ratio(&exif, exif_tag(F_NUMBER)) {
        Some((n, d)) => if d == 0 {
            None
        } else {
            Some(FieldValue::Aperture(n, d))
        },
        None => None,
    };
    add_field(&mut fields, "F値", aperture);
    let shutter = match note_ratio(&exif, exif_tag(EXPOSURE_TIME)) {
        Some(ratio) => format_exposure_time(ratio),
        None => None,
    };
    add_field(&mut fields, "シャッター速度", shutter);
    let sensitivity = match find_note(&exif, exif_tag(SENSITIVITY)) {
        Some(n) => match n.whole {
            Some(v) => {
                let digits = decimal_text(v as u64);
                Some(FieldValue::Text(join2("ISO ", digits.as_str())))
            },
            None => None,
        },
        None => None,
    };
    add_field(&mut fields, "ISO感度", sensitivity);
    let taken = note_text(&exif, exif_tag(DATE_TIME_ORIGINAL));
    add_field(&mut fields, "撮影日時", taken);
    let latitude = note_coordinate(&exif, gps_tag(LATITUDE), gps_tag(LATITUDE_REF));
    let longitude = note_coordinate(&exif, gps_tag(LONGITUDE), gps_tag(LONGITUDE_REF));
    let position = match (latitude, longitude) {
        (Some(a), Some(b)) => Some(FieldValue::Position(a, b)),
        _ => None,
    };
    add_field(&mut fields, "GPS", position);
    assert(field_views(fields@) =~= fields_of(notes));
    fields
}

/// No two of the labels are the same.
proof fn labels_differ()
    ensures
        all_labels().no_duplicates(),
{
    reveal_strlit("カメラ");
    reveal_strlit("レンズ");
    reveal_strlit("焦点距離");
    reveal_strlit("F値");
    reveal_strlit("シャッター速度");
    reveal_strlit("ISO感度");
    reveal_strlit("撮影日時");
    reveal_strlit("GPS");
    let l = all_labels();
    assert(l[0][0] == 'カ' && l[1][0] == 'レ' && l[2][0] == '焦' && l[3][0] == 'F' && l[4][0] == 'シ'
        && l[5][0] == 'I' && l[6][0] == '撮' && l[7][0] == 'G');
}

/// The labels in the order in which the fields are shown.
pub open spec fn all_labels() -> Seq<Seq<char>> {
    seq![
        "カメラ"@,
        "レンズ"@,
        "焦点距離"@,
        "F値"@,
        "シャッター速度"@,
        "ISO感度"@,
        "撮影日時"@,
        "GPS"@,
    ]
}

/// The text under a tag as a value.
spec fn text_shown(notes: Map<ExifTag, NoteView>, tag: ExifTag) -> Option<FieldValueView> {
    text_value(text_under(notes, tag))
}

/// The values of the fields, in the order of the labels.
spec fn all_values(notes: Map<ExifTag, NoteView>) -> Seq<Option<FieldValueView>> {
    seq![
        text_shown(notes, tiff_tag(MODEL)),
        text_shown(notes, exif_tag(LENS_MODEL)),
        focal_value(notes),
        aperture_value(notes),
        shutter_value(notes),
        sensitivity_value(notes),
        text_shown(notes, exif_tag(DATE_TIME_ORIGINAL)),
        position_value(notes),
    ]
}

/// The fields of the first `n` labels.
spec fn first_fields(notes: Map<ExifTag, NoteView>, n: nat) -> Seq<FieldView>
    decreases n,
{
    if n == 0 {
        Seq::empty()
    } else {
        first_fields(notes, (n - 1) as nat) + labelled(all_labels()[n - 1], all_values(notes)[n - 1])
    }
}

proof fn fields_are_first(notes: Map<ExifTag, NoteView>)
    ensures
        fields_of(notes) == first_fields(notes, 8),
{
    reveal_with_fuel(first_fields, 9);
    assert(fields_of(notes) =~= first_fields(notes, 8));
}

/// Where the fields of the first labels come from: each is of one of them.
proof fn first_fields_hold(notes: Map<ExifTag, NoteView>, n: nat)
    requires
        n <= 8,
    ensures
        forall|i: int|
            0 <= i < first_fields(notes, n).len() ==> exists|g: int|
                0 <= g < n && (#[trigger] first_fields(notes, n)[i]).0 == #[trigger] all_labels()[g]
                    && all_values(notes)[g] == Some(first_fields(notes, n)[i].1),
        forall|g: int|
            0 <= g < n && (#[trigger] all_values(notes)[g]) is Some ==> first_fields(
                notes,
                n,
            ).contains((all_labels()[g], all_values(notes)[g]->0)),
    decreases n,
{
    if n > 0 {
        let less = (n - 1) as nat;
        first_fields_hold(notes, less);
        let (before, all) = (first_fields(notes, less), first_fields(notes, n));
        assert forall|i: int| 0 <= i < all.len() implies exists|g: int|
            0 <= g < n && (#[trigger] all[i]).0 == #[trigger] all_labels()[g] && all_values(notes)[g]
                == Some(all[i].1) by {
            if i < before.len() {
                assert(all[i] == before[i]);
                let g = choose|g: int|
                    0 <= g < less && before[i].0 == #[trigger] all_labels()[g] && all_values(
                        notes,
                    )[g] == Some(before[i].1);
                assert(0 <= g < n && all[i].0 == all_labels()[g] && all_values(notes)[g] == Some(
                    all[i].1,
                ));
            } else {
                assert(all[i].0 == all_labels()[n - 1] && all_values(notes)[n - 1] == Some(
                    all[i].1,
                ));
            }
        }
        assert forall|g: int|
            0 <= g < n && (#[trigger] all_values(notes)[g]) is Some implies all.contains(
            (all_labels()[g], all_values(notes)[g]->0),
        ) by {
            let f = (all_labels()[g], all_values(notes)[g]->0);
            if g < less {
                let i = choose|i: int| 0 <= i < before.len() && before[i] == f;
                assert(all[i] == f);
            } else {
                assert(all[before.len() as int] == f);
            }
        }
    }
}

/// A field with a label is shown exactly with the label's value.
proof fn field_is_of_label(notes: Map<ExifTag, NoteView>, g: int, v: FieldValueView)
    requires
        0 <= g < 8,
    ensures
        fields_of(notes).contains((all_labels()[g], v)) <==> all_values(notes)[g] == Some(v),
{
    fields_are_first(notes);
    first_fields_hold(notes, 8);
    labels_differ();
    let all = fields_of(notes);
    if all.contains((all_labels()[g], v)) {
        let i = choose|i: int| 0 <= i < all.len() && all[i] == (all_labels()[g], v);
        let h = choose|h: int|
            0 <= h < 8 && all[i].0 == #[trigger] all_labels()[h] && all_values(notes)[h] == Some(
                all[i].1,
            );
        assert(all_labels()[h] == all_labels()[g]);
        assert(h == g);
    }
}

/// The field labelled 撮影日時 shows when the picture was taken: it is there exactly where the note
/// under `DateTimeOriginal` has a bare text, and shows that text. No other note changes it.
pub proof fn date_is_shown(notes: Map<ExifTag, NoteView>, v: FieldValueView)
    ensures
        fields_of(notes).contains(("撮影日時"@, v)) <==> ({
            let tag = ExifTag { area: TagArea::Exif, number: 0x9003 };
            &&& notes.contains_key(tag)
            &&& bare_text(notes[tag].text).len() > 0
            &&& v == FieldValueView::Text(bare_text(notes[tag].text))
        }),
{
    field_is_of_label(notes, 6, v);
}

/// The field labelled カメラ shows the camera: it is there exactly where the note
/// under `Model` has a bare text, and shows that text. No other note changes it.
pub proof fn camera_is_shown(notes: Map<ExifTag, NoteView>, v: FieldValueView)
    ensures
        fields_of(notes).contains(("カメラ"@, v)) <==> ({
            let tag = ExifTag { area: TagArea::Tiff, number: 0x110 };
            &&& notes.contains_key(tag)
            &&& bare_text(notes[tag].text).len() > 0
            &&& v == FieldValueView::Text(bare_text(notes[tag].text))
        }),
{
    field_is_of_label(notes, 0, v);
}

/// The field labelled レンズ shows the lens: it is there exactly where the note
/// under `LensModel` has a bare text, and shows that text. No other note changes it.
pub proof fn lens_is_shown(notes: Map<ExifTag, NoteView>, v: FieldValueView)
    ensures
        fields_of(notes).contains(("レンズ"@, v)) <==> ({
            let tag = ExifTag { area: TagArea::Exif, number: 0xa434 };
            &&& notes.contains_key(tag)
            &&& bare_text(notes[tag].text).len() > 0
            &&& v == FieldValueView::Text(bare_text(notes[tag].text))
        }),
{
    field_is_of_label(notes, 1, v);
}

/// The field labelled 焦点距離 shows the focal length: the first quotient of its note, where
/// there is one whose denominator is not zero.
pub proof fn focal_length_is_shown(notes: Map<ExifTag, NoteView>, v: FieldValueView)
    ensures
        fields_of(notes).contains(("焦点距離"@, v)) <==> ({
            let tag = ExifTag { area: TagArea::Exif, number: 0x920a };
            &&& notes.contains_key(tag)
            &&& notes[tag].ratios matches Some(q) && q.len() > 0 && q[0].1 != 0 && v
                == FieldValueView::Millimetres(q[0].0, q[0].1)
        }),
{
    field_is_of_label(notes, 2, v);
}

/// The field labelled F値 shows the aperture: the first quotient of its note, where
/// there is one whose denominator is not zero.
pub proof fn aperture_is_shown(notes: Map<ExifTag, NoteView>, v: FieldValueView)
    ensures
        fields_of(notes).contains(("F値"@, v)) <==> ({
            let tag = ExifTag { area: TagArea::Exif, number: 0x829d };
            &&& notes.contains_key(tag)
            &&& notes[tag].ratios matches Some(q) && q.len() > 0 && q[0].1 != 0 && v
                == FieldValueView::Aperture(q[0].0, q[0].1)
        }),
{
    field_is_of_label(notes, 3, v);
}

/// The field labelled シャッター速度 shows the exposure: seconds from one second on,
/// below that the fraction as it is noted. An exposure without length is not shown.
pub proof fn exposure_is_shown(notes: Map<ExifTag, NoteView>, v: FieldValueView)
    ensures
        fields_of(notes).contains(("シャッター速度"@, v)) <==> ({
            let tag = ExifTag { area: TagArea::Exif, number: 0x829a };
            &&& notes.contains_key(tag)
            &&& notes[tag].ratios matches Some(q) && q.len() > 0 && q[0].0 != 0 && q[0].1 != 0 && (if q[0].0
                >= q[0].1 {
                v == FieldValueView::Seconds(q[0].0, q[0].1)
            } else {
                v == FieldValueView::Text(
                    text::decimal(q[0].0 as nat) + "/"@ + text::decimal(q[0].1 as nat) + " 秒"@,
                )
            })
        }),
{
    field_is_of_label(notes, 4, v);
}

/// The field labelled ISO感度 shows the sensitivity: the number of its note.
pub proof fn sensitivity_is_shown(notes: Map<ExifTag, NoteView>, v: FieldValueView)
    ensures
        fields_of(notes).contains(("ISO感度"@, v)) <==> ({
            let tag = ExifTag { area: TagArea::Exif, number: 0x8827 };
            &&& notes.contains_key(tag)
            &&& notes[tag].whole matches Some(n) && v == FieldValueView::Text(
                "ISO "@ + text::decimal(n as nat),
            )
        }),
{
    field_is_of_label(notes, 5, v);
}

/// A coordinate is noted: degrees, minutes and seconds under one tag, and the
/// hemisphere under another, where `S` and `W` are the negative ones.
pub open spec fn is_noted_coordinate(
    notes: Map<ExifTag, NoteView>,
    number: u16,
    hemisphere: u16,
    g: GpsCoordinate,
) -> bool {
    let tag = ExifTag { area: TagArea::Gps, number };
    let side = ExifTag { area: TagArea::Gps, number: hemisphere };
    &&& notes.contains_key(tag)
    &&& notes[tag].ratios matches Some(q) && q.len() >= 3 && g.degrees == q[0] && g.minutes == q[1]
        && g.seconds == q[2]
    &&& g.negative == (notes.contains_key(side) && ({
        let s = text::stripped(text::trimmed(notes[side].text), '"');
        s == "S"@ || s == "W"@
    }))
}

/// The field labelled GPS shows the latitude and the longitude, in this order, where
/// both are noted.
pub proof fn position_is_shown(notes: Map<ExifTag, NoteView>, v: FieldValueView)
    ensures
        fields_of(notes).contains(("GPS"@, v)) <==> (v matches FieldValueView::Position(a, b)
            && is_noted_coordinate(notes, 2, 1, a) && is_noted_coordinate(notes, 4, 3, b)),
{
    field_is_of_label(notes, 7, v);
}

/// No label stands twice, and the fields stand in the order of the labels.
pub proof fn fields_follow_labels(notes: Map<ExifTag, NoteView>, i: int, j: int, g: int, h: int)
    requires
        0 <= i < j < fields_of(notes).len(),
        0 <= g < 8,
        0 <= h < 8,
        fields_of(notes)[i].0 == all_labels()[g],
        fields_of(notes)[j].0 == all_labels()[h],
    ensures
        g < h,
{
    labels_differ();
    fields_are_first(notes);
    first_fields_ascend(notes, 8, i, j, g, h);
}

proof fn first_fields_ascend(
    notes: Map<ExifTag, NoteView>,
    n: nat,
    i: int,
    j: int,
    g: int,
    h: int,
)
    requires
        n <= 8,
        all_labels().no_duplicates(),
        0 <= i < j < first_fields(notes, n).len(),
        0 <= g < 8,
        0 <= h < 8,
        first_fields(notes, n)[i].0 == all_labels()[g],
        first_fields(notes, n)[j].0 == all_labels()[h],
    ensures
        g < h,
    decreases n,
{
    let less = (n - 1) as nat;
    let before = first_fields(notes, less);
    first_fields_hold(notes, less);
    if j < before.len() {
        first_fields_ascend(notes, less, i, j, g, h);
    } else {
        assert(first_fields(notes, n)[j].0 == all_labels()[n - 1]);
        assert(h == n - 1);
        assert(first_fields(notes, n)[i] == before[i]);
        let k = choose|k: int|
            0 <= k < less && before[i].0 == #[trigger] all_labels()[k] && all_values(notes)[k]
                == Some(before[i].1);
        assert(g == k);
    }
}

/// A text in quotes with white space around them is shown without both, and any text
/// without the white space around it.
pub proof fn quotes_are_not_shown(left: Seq<char>, t: Seq<char>, right: Seq<char>)
    requires
        t.len() > 0,
        !text::is_space(t[0]) && t[0] != '"',
        !text::is_space(t.last()) && t.last() != '"',
        forall|i: int| 0 <= i < left.len() ==> text::is_space(#[trigger] left[i]),
        forall|i: int| 0 <= i < right.len() ==> text::is_space(#[trigger] right[i]),
    ensures
        bare_text(left + (seq!['"'] + t + seq!['"']) + right) == t,
        bare_text(left + t + right) == t,
{
    let quote = seq!['"'];
    text::trimmed_of_framed(left, quote + t + quote, right);
    text::trimmed_of_framed(left, t, right);
    text::stripped_of_framed(quote, t, quote, '"');
    text::stripped_of_framed(Seq::empty(), t, Seq::empty(), '"');
    text::trimmed_of_framed(Seq::empty(), t, Seq::empty());
    assert(Seq::<char>::empty() + t + Seq::<char>::empty() =~= t);
}

/// What is shown of a note is a part of its text, and only white space and quotes stand
/// before and behind it.
pub proof fn shown_text_is_of_note(s: Seq<char>) -> (r: (int, int))
    ensures
        0 <= r.0 <= r.1 <= s.len(),
        bare_text(s) == s.subrange(r.0, r.1),
        forall|i: int|
            0 <= i < s.len() && (i < r.0 || r.1 <= i) ==> text::is_space(#[trigger] s[i]) || s[i]
                == '"',
{
    let (a, b) = text::trimmed_is_middle(s);
    let t = text::trimmed(s);
    let (c, d) = text::stripped_is_middle(t, '"');
    let u = text::stripped(t, '"');
    let (e, f) = text::trimmed_is_middle(u);
    let r = (a + c + e, a + c + f);
    assert(bare_text(s) =~= s.subrange(r.0, r.1));
    assert forall|i: int| 0 <= i < s.len() && (i < r.0 || r.1 <= i) implies text::is_space(
        #[trigger] s[i],
    ) || s[i] == '"' by {
        if a <= i < b {
            assert(s[i] == t[i - a]);
            if c <= i - a < d {
                assert(t[i - a] == u[i - a - c]);
            }
        }
    }
    r
}

} // verus!
