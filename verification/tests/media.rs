use std::io::Cursor;

use exif::experimental::Writer;
use exif::{Field, In, Rational, Tag, Value};
use gv::export::{export_bytes, export_name, export_outcome, ExportFormat};
use gv::file_ops::{
    move_failure, move_single_failure, move_target, MoveError, SaveFileDialogParams,
};
use gv::image::exif_reader::{
    bare, format_exposure_time, points_back, read_exif_fields, FieldValue, GpsCoordinate,
};
use gv::image::susie::SusieImageDecoder;
use gv::image::{DecodeError, DecodedImage, DecoderChain, ImageDecoder, ImageMetadata};
use gv::pdf_renderer::{check_page, page_image, page_of_pixels, renderable_path, PdfError};
use image::{ImageBuffer, ImageFormat, Rgba};

fn white_pixel() -> DecodedImage {
    DecodedImage { data: vec![255, 255, 255, 255], width: 1, height: 1 }
}

fn create_1x1_white_png() -> Vec<u8> {
    let img: ImageBuffer<Rgba<u8>, Vec<u8>> =
        ImageBuffer::from_pixel(1, 1, Rgba([255, 255, 255, 255]));
    let mut buf = Cursor::new(Vec::new());
    img.write_to(&mut buf, ImageFormat::Png).unwrap();
    buf.into_inner()
}

#[test]
fn write_png_with_extensionless_path_succeeds() {
    let bytes = export_bytes(&white_pixel(), ExportFormat::Png).unwrap();
    assert_eq!(&bytes[..8], &[0x89, b'P', b'N', b'G', 0x0D, 0x0A, 0x1A, 0x0A]);
}

#[test]
fn write_jpg_with_txt_extension_writes_jpeg_bytes() {
    let bytes = export_bytes(&white_pixel(), ExportFormat::Jpg).unwrap();
    assert_eq!(&bytes[..2], &[0xFF, 0xD8]); // JPEG SOI マーカー
}

#[test]
fn write_bmp_with_extensionless_path_succeeds() {
    let bytes = export_bytes(&white_pixel(), ExportFormat::Bmp).unwrap();
    assert_eq!(&bytes[..2], b"BM");
}

#[test]
fn export_format_returns_expected_extensions() {
    assert_eq!(ExportFormat::Png.extension(), "png");
    assert_eq!(ExportFormat::Jpg.extension(), "jpg");
    assert_eq!(ExportFormat::Bmp.extension(), "bmp");
}

#[test]
fn export_dialogs_name_the_format() {
    assert_eq!(ExportFormat::Jpg.filter_name(), "JPEG画像");
    assert_eq!(ExportFormat::Bmp.filter_spec(), "*.bmp");
    assert_eq!(export_name("photo", ExportFormat::Png), "photo.png");
    let failed = export_outcome(Err("x".to_string())).unwrap_err();
    assert_eq!(failed.message, "画像の書き出しに失敗しました: x");
    assert_eq!(export_outcome(Ok(vec![1, 2])).unwrap(), vec![1, 2]);
}

#[test]
fn exported_png_is_read_back() {
    let image = DecodedImage {
        data: vec![1, 2, 3, 255, 4, 5, 6, 128],
        width: 2,
        height: 1,
    };
    let png = export_bytes(&image, ExportFormat::Png).unwrap();
    let back = page_image(&png).unwrap();
    assert_eq!((back.width, back.height), (2, 1));
    assert_eq!(back.data, image.data);
}

#[test]
fn pdf_pages_are_checked() {
    assert!(check_page(0, 1).is_ok());
    let e = check_page(3, 3).unwrap_err();
    assert_eq!(e.message(), "ページインデックスが範囲外: 3 (総ページ数: 3)");
    assert_eq!(renderable_path("C:\\a.pdf").unwrap(), "C:\\a.pdf");
    let e = renderable_path("").unwrap_err();
    assert_eq!(e.message(), "無効なパス: ");
    assert!(matches!(page_image(b"junk"), Err(PdfError::Unreadable)));
    assert!(page_of_pixels(None).is_err());
    assert!(page_of_pixels(Some((2, 2, vec![0; 4]))).is_err());
    assert_eq!(page_of_pixels(Some((1, 1, vec![7; 4]))).unwrap().data, vec![7; 4]);
}

#[test]
fn read_exif_fields_returns_empty_for_non_exif_data() {
    // PNGデータにはEXIFがないので空を返す
    let png_data = create_1x1_white_png();
    let fields = read_exif_fields(&png_data);
    assert!(fields.is_empty());
}

#[test]
fn read_exif_fields_returns_empty_for_invalid_data() {
    let fields = read_exif_fields(&[0, 1, 2, 3]);
    assert!(fields.is_empty());
}

#[test]
fn read_exif_fields_returns_empty_for_empty_data() {
    let fields = read_exif_fields(&[]);
    assert!(fields.is_empty());
}

#[test]
fn format_exposure_time_fraction() {
    // 1/250
    let r = Rational { num: 1, denom: 250 };
    assert_eq!(r.num, 1);
    assert!(r.denom > r.num); // 分数表示条件
    let value = format_exposure_time((r.num, r.denom)).unwrap();
    assert!(matches!(value, FieldValue::Text(s) if s == "1/250 秒"));
}

#[test]
fn format_exposure_time_whole_seconds() {
    // 2秒
    let r = Rational { num: 2, denom: 1 };
    assert!(r.num >= r.denom); // 整数秒条件
    let value = format_exposure_time((r.num, r.denom)).unwrap();
    assert!(matches!(value, FieldValue::Seconds(2, 1)));
    assert!(format_exposure_time((0, 1)).is_none());
    assert!(format_exposure_time((1, 0)).is_none());
}

#[test]
fn gps_decimal_conversion() {
    // 35° 40' 52.45" N = 35.681236...
    let place = GpsCoordinate {
        degrees: (35, 1),
        minutes: (40, 1),
        seconds: (5245, 100),
        negative: false,
    };
    let quotient = |r: (u32, u32)| f64::from(r.0) / f64::from(r.1);
    let deg = quotient(place.degrees);
    let min = quotient(place.minutes);
    let sec = quotient(place.seconds);
    let decimal = deg + min / 60.0 + sec / 3600.0;
    assert!((decimal - 35.681_236_f64).abs() < 0.001);
}

#[test]
fn focal_length_integer() {
    let r = Rational { num: 50, denom: 1 };
    let mm = f64::from(r.num) / f64::from(r.denom);
    assert!((mm - mm.round()).abs() < 0.01);
    assert_eq!(format!("{} mm", mm.round() as u32), "50 mm");
}

#[test]
fn fnumber_decimal() {
    let r = Rational { num: 28, denom: 10 };
    let f = f64::from(r.num) / f64::from(r.denom);
    assert!((f - f.round()).abs() >= 0.01);
    assert_eq!(format!("f/{f:.1}"), "f/2.8");
}

fn note(tag: Tag, value: Value) -> Field {
    Field { tag, ifd_num: In::PRIMARY, value }
}

fn ascii(text: &str) -> Value {
    Value::Ascii(vec![text.as_bytes().to_vec()])
}

fn ratios(values: &[(u32, u32)]) -> Value {
    Value::Rational(values.iter().map(|&(num, denom)| Rational { num, denom }).collect())
}

#[test]
fn camera_notes_are_listed_in_order() {
    let notes = vec![
        note(Tag::Model, ascii("EOS R5")),
        note(Tag::LensModel, ascii("  ")),
        note(Tag::FocalLength, ratios(&[(50, 1)])),
        note(Tag::FNumber, ratios(&[(28, 10)])),
        note(Tag::ExposureTime, ratios(&[(1, 250)])),
        note(Tag::PhotographicSensitivity, Value::Short(vec![400])),
        note(Tag::GPSLatitudeRef, ascii("S")),
        note(Tag::GPSLatitude, ratios(&[(35, 1), (40, 1), (5245, 100)])),
        note(Tag::GPSLongitudeRef, ascii("E")),
        note(Tag::GPSLongitude, ratios(&[(139, 1), (46, 1), (0, 1)])),
    ];
    let mut writer = Writer::new();
    for n in &notes {
        writer.push_field(n);
    }
    let mut buf = Cursor::new(Vec::new());
    writer.write(&mut buf, true).unwrap();
    let fields = read_exif_fields(&buf.into_inner());
    let labels: Vec<&str> = fields.iter().map(|f| f.label.as_str()).collect();
    assert_eq!(labels, vec!["カメラ", "焦点距離", "F値", "シャッター速度", "ISO感度", "GPS"]);
    assert!(matches!(&fields[0].value, FieldValue::Text(s) if s == "EOS R5"));
    assert!(matches!(fields[1].value, FieldValue::Millimetres(50, 1)));
    assert!(matches!(fields[2].value, FieldValue::Aperture(28, 10)));
    assert!(matches!(&fields[3].value, FieldValue::Text(s) if s == "1/250 秒"));
    assert!(matches!(&fields[4].value, FieldValue::Text(s) if s == "ISO 400"));
    assert!(matches!(&fields[5].value, FieldValue::Position(a, b)
        if a.negative && !b.negative && a.seconds == (5245, 100) && b.degrees == (139, 1)));
}

#[test]
fn notes_lose_quotes_and_white_space() {
    assert_eq!(bare(" \"X-T4 \" ").unwrap(), "X-T4");
    assert_eq!(bare("\"\""), None);
    assert!(points_back("\"W\""));
    assert!(points_back(" S "));
    assert!(!points_back("N"));
}

#[test]
fn plugin_is_named_as_the_format() {
    let decoder = SusieImageDecoder::new(2, "spi/ifx.sph".to_string());
    let shown = decoder.describe(10, 20, vec![("ISO".to_string(), "100".to_string())]);
    assert_eq!((shown.width, shown.height), (10, 20));
    assert_eq!(shown.format, "Susie (spi/ifx.sph)");
    assert_eq!(shown.exif.len(), 1);
    assert!(shown.comments.is_empty());
}

#[test]
fn moves_need_a_folder_and_a_name() {
    assert_eq!(move_target("C:\\d\\a.png").unwrap(), ("C:\\d".to_string(), "a.png".to_string()));
    assert_eq!(move_target("C:\\").unwrap_err(), MoveError::NoParent);
    assert_eq!(move_target("C:\\d\\..").unwrap_err(), MoveError::NoFileName);
    assert_eq!(MoveError::NoParent.message(), "移動先の親ディレクトリが存在しない");
    assert_eq!(move_failure("C:\\d"), "ファイル移動に失敗しました\n  dest: C:\\d");
    assert_eq!(
        move_single_failure("a", "b"),
        "ファイル移動に失敗しました\n  src: a\n  dest: b"
    );
    let dialog = SaveFileDialogParams::default();
    assert_eq!(dialog.default_name, "");
}

/// A decoder of data that begins with its letter.
struct Lettered {
    letter: u8,
    works: bool,
}

impl Lettered {
    fn refusal(&self) -> DecodeError {
        DecodeError { message: format!("no {}", self.letter) }
    }
}

impl ImageDecoder for Lettered {
    fn supported_extensions(&self) -> Vec<String> {
        vec![".let".to_string()]
    }

    fn can_decode(&self, data: &[u8], _filename_hint: &str) -> bool {
        data.first() == Some(&self.letter)
    }

    fn decode(&self, data: &[u8], _filename_hint: &str) -> Result<DecodedImage, DecodeError> {
        if self.works {
            Ok(DecodedImage { data: vec![data[0]; 4], width: 1, height: 1 })
        } else {
            Err(self.refusal())
        }
    }

    fn metadata(&self, _data: &[u8], filename_hint: &str) -> Result<ImageMetadata, DecodeError> {
        if self.works {
            Ok(ImageMetadata {
                width: 1,
                height: 1,
                format: filename_hint.to_string(),
                comments: Vec::new(),
                exif: Vec::new(),
            })
        } else {
            Err(self.refusal())
        }
    }
}

#[test]
fn chain_tries_decoders_in_order() {
    let chain = DecoderChain::new(vec![
        Lettered { letter: 1, works: false },
        Lettered { letter: 2, works: true },
        Lettered { letter: 1, works: true },
    ]);
    assert_eq!(chain.decode(&[1, 0], "a.let").unwrap().data, vec![1, 1, 1, 1]);
    assert_eq!(chain.decode(&[2, 0], "a.let").unwrap().data, vec![2, 2, 2, 2]);
    assert_eq!(chain.metadata(&[1], "a.let").unwrap().format, "a.let");
}

#[test]
fn chain_gives_the_last_failure() {
    let chain = DecoderChain::new(vec![
        Lettered { letter: 1, works: false },
        Lettered { letter: 2, works: false },
    ]);
    assert_eq!(chain.decode(&[2], "b").err().unwrap().message, "no 2");
    assert_eq!(chain.metadata(&[1], "b").unwrap_err().message, "no 1");
    let unknown = chain.decode(&[3], "b").err().unwrap().message;
    assert_eq!(unknown, "対応するデコーダがありません: b");
}
