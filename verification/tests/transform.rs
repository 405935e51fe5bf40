use gv::filter::transform::{
    crop, flip_horizontal, flip_vertical, resize, rotate_180, rotate_270, rotate_90,
};
use gv::image::DecodedImage;
use gv::selection::PixelRect;

/// Four by four pixels that tell their places.
fn test_image_4x4() -> DecodedImage {
    let mut data = Vec::with_capacity(4 * 4 * 4);
    for y in 0..4u8 {
        for x in 0..4u8 {
            data.extend_from_slice(&[x * 60, y * 60, 0, 255]);
        }
    }
    DecodedImage { data, width: 4, height: 4 }
}

#[test]
fn crop_center_2x2() {
    let img = test_image_4x4();
    let rect = PixelRect {
        x: 1,
        y: 1,
        width: 2,
        height: 2,
    };
    let cropped = crop(&img, &rect);
    assert_eq!(cropped.width, 2);
    assert_eq!(cropped.height, 2);
    assert_eq!(cropped.data.len(), 2 * 2 * 4);
    // (1,1)のピクセル: R=60, G=60
    assert_eq!(cropped.data[0], 60);
    assert_eq!(cropped.data[1], 60);
}

#[test]
fn crop_full_image() {
    let img = test_image_4x4();
    let rect = PixelRect {
        x: 0,
        y: 0,
        width: 4,
        height: 4,
    };
    let cropped = crop(&img, &rect);
    assert_eq!(cropped.width, 4);
    assert_eq!(cropped.height, 4);
    assert_eq!(cropped.data, img.data);
}

#[test]
fn crop_clamps_to_image_bounds() {
    let img = test_image_4x4();
    let rect = PixelRect {
        x: 2,
        y: 2,
        width: 100,
        height: 100,
    };
    let cropped = crop(&img, &rect);
    assert_eq!(cropped.width, 2);
    assert_eq!(cropped.height, 2);
}

#[test]
fn crop_zero_rect_returns_original() {
    let img = test_image_4x4();
    let rect = PixelRect {
        x: 0,
        y: 0,
        width: 0,
        height: 0,
    };
    let cropped = crop(&img, &rect);
    assert_eq!(cropped.width, img.width);
    assert_eq!(cropped.height, img.height);
}

#[test]
fn flip_horizontal_2x1() {
    let img = DecodedImage {
        data: vec![255, 0, 0, 255, 0, 255, 0, 255],
        width: 2,
        height: 1,
    };
    let flipped = flip_horizontal(&img);
    assert_eq!(flipped.data[0..4], [0, 255, 0, 255]);
    assert_eq!(flipped.data[4..8], [255, 0, 0, 255]);
}

#[test]
fn flip_vertical_1x2() {
    let img = DecodedImage {
        data: vec![255, 0, 0, 255, 0, 255, 0, 255],
        width: 1,
        height: 2,
    };
    let flipped = flip_vertical(&img);
    assert_eq!(flipped.data[0..4], [0, 255, 0, 255]);
    assert_eq!(flipped.data[4..8], [255, 0, 0, 255]);
}

#[test]
fn rotate_90_2x1() {
    // 2x1 → 1x2 (rotated CW)
    let img = DecodedImage {
        data: vec![255, 0, 0, 255, 0, 255, 0, 255],
        width: 2,
        height: 1,
    };
    let rotated = rotate_90(&img);
    assert_eq!(rotated.width, 1);
    assert_eq!(rotated.height, 2);
}

#[test]
fn rotate_180_identity() {
    let img = test_image_4x4();
    let r1 = rotate_180(&img);
    let r2 = rotate_180(&r1);
    assert_eq!(r2.data, img.data);
}

#[test]
fn rotate_270_is_3x_rotate_90() {
    let img = test_image_4x4();
    let r270 = rotate_270(&img);
    let r90_3 = rotate_90(&rotate_90(&rotate_90(&img)));
    assert_eq!(r270.width, r90_3.width);
    assert_eq!(r270.height, r90_3.height);
    assert_eq!(r270.data, r90_3.data);
}

#[test]
fn resize_basic() {
    let img = test_image_4x4();
    let resized = resize(&img, 2, 2);
    assert_eq!(resized.width, 2);
    assert_eq!(resized.height, 2);
    assert_eq!(resized.data.len(), 2 * 2 * 4);
}

#[test]
fn crop_single_pixel() {
    let img = test_image_4x4();
    let rect = PixelRect {
        x: 3,
        y: 3,
        width: 1,
        height: 1,
    };
    let cropped = crop(&img, &rect);
    assert_eq!(cropped.width, 1);
    assert_eq!(cropped.height, 1);
    assert_eq!(cropped.data.len(), 4);
    // (3,3)のピクセル: R=3*60=180, G=3*60=180
    assert_eq!(cropped.data[0], 180);
    assert_eq!(cropped.data[1], 180);
}

fn pixel(image: &DecodedImage, x: u32, y: u32) -> &[u8] {
    let at = ((y * image.width + x) * 4) as usize;
    &image.data[at..at + 4]
}

#[test]
fn quarter_turns_move_the_corners() {
    let img = DecodedImage { data: (0..24).collect(), width: 3, height: 2 };
    let right = rotate_90(&img);
    assert_eq!((right.width, right.height), (2, 3));
    // 左上は右上へ
    assert_eq!(pixel(&right, 1, 0), pixel(&img, 0, 0));
    assert_eq!(pixel(&right, 0, 0), pixel(&img, 0, 1));
    let left = rotate_270(&img);
    // 左上は左下へ
    assert_eq!(pixel(&left, 0, 2), pixel(&img, 0, 0));
    assert_eq!(rotate_270(&right).data, img.data);
}

#[test]
fn mirrors_undo_themselves() {
    let img = test_image_4x4();
    assert_eq!(flip_horizontal(&flip_horizontal(&img)).data, img.data);
    assert_eq!(flip_vertical(&flip_vertical(&img)).data, img.data);
    assert_eq!(flip_vertical(&flip_horizontal(&img)).data, rotate_180(&img).data);
}

#[test]
fn resize_to_the_same_or_no_size_keeps_the_image() {
    let img = test_image_4x4();
    assert_eq!(resize(&img, 4, 4).data, img.data);
    assert_eq!(resize(&img, 0, 7).data, img.data);
    assert_eq!(resize(&img, 0, 7).width, 4);
    let gray = DecodedImage { data: vec![128; 16 * 4], width: 4, height: 4 };
    let large = resize(&gray, 8, 2);
    assert_eq!((large.width, large.height), (8, 2));
    assert!(large.data.iter().all(|&b| (126..=130).contains(&b)));
    let nothing = DecodedImage { data: Vec::new(), width: 0, height: 0 };
    assert_eq!(resize(&nothing, 2, 1).data, vec![0; 8]);
}

#[test]
fn quarter_turns_add_up() {
    let data: Vec<u8> = (0..3 * 2 * 4).collect();
    let img = DecodedImage { data, width: 3, height: 2 };
    let right = rotate_90(&img);
    assert_eq!(rotate_90(&right).data, rotate_180(&img).data);
    assert_eq!(rotate_180(&right).data, rotate_270(&img).data);
    assert_eq!(rotate_270(&rotate_180(&img)).data, right.data);
    assert_eq!(rotate_270(&right).data, img.data);
}
