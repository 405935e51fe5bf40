use gv::filter::blur::{
    blur, blur_strong, box_blur, gaussian_blur, median_filter, mosaic, unsharp_mask,
};
use gv::filter::color::{
    apply_alpha, apply_curve, fill, grayscale_simple, grayscale_strict, invert_colors, ToneCurve,
};
use gv::filter::region_bounds;
use gv::filter::sharpen::{apply_kernel, sharpen, sharpen_strong};
use gv::image::DecodedImage;
use gv::selection::PixelRect;

fn uniform_image(w: u32, h: u32, value: u8) -> DecodedImage {
    let data = vec![[value, value, value, 255u8]; (w * h) as usize].into_iter().flatten().collect();
    DecodedImage { data, width: w, height: h }
}

/// Two values in turn, as on a chess board.
fn checker_image(w: u32, h: u32, c1: u8, c2: u8) -> DecodedImage {
    let mut data = vec![0u8; (w * h * 4) as usize];
    for y in 0..h {
        for x in 0..w {
            let offset = ((y * w + x) * 4) as usize;
            let v = if (x + y) % 2 == 0 { c1 } else { c2 };
            data[offset] = v;
            data[offset + 1] = v;
            data[offset + 2] = v;
            data[offset + 3] = 255;
        }
    }
    DecodedImage { data, width: w, height: h }
}

/// The whole radius of a blur.
fn rounded(radius: f64) -> i32 {
    radius.max(0.1).round() as i32
}

fn test_image() -> DecodedImage {
    DecodedImage {
        data: vec![
            100, 150, 200, 255, // pixel (0,0)
            50, 100, 150, 128, // pixel (1,0)
        ],
        width: 2,
        height: 1,
    }
}

#[test]
fn blur_uniform_unchanged() {
    let img = uniform_image(4, 4, 100);
    let result = blur(&img, None);
    // 均一画像にぼかしをかけても値は変わらない
    for pixel in result.data.chunks_exact(4) {
        assert_eq!(pixel[0], 100);
    }
}

#[test]
fn blur_strong_uniform_unchanged() {
    let img = uniform_image(6, 6, 50);
    let result = blur_strong(&img, None);
    for pixel in result.data.chunks_exact(4) {
        assert_eq!(pixel[0], 50);
    }
}

#[test]
fn median_uniform_unchanged() {
    let img = uniform_image(4, 4, 200);
    let result = median_filter(&img, None);
    for pixel in result.data.chunks_exact(4) {
        assert_eq!(pixel[0], 200);
    }
}

#[test]
fn blur_preserves_alpha() {
    let mut img = uniform_image(3, 3, 100);
    img.data[3] = 128; // 1ピクセルだけalpha変更
    let result = blur(&img, None);
    // alpha チャネルは変更されない
    assert_eq!(result.data[3], 128);
}

#[test]
fn gaussian_blur_uniform_unchanged() {
    // 均一画像はぼかしても値が変わらない
    let img = uniform_image(8, 8, 120);
    let result = gaussian_blur(&img, None, rounded(2.0));
    for pixel in result.data.chunks_exact(4) {
        assert_eq!(pixel[0], 120);
    }
}

#[test]
fn gaussian_blur_min_radius() {
    // radius=0.1 → 内部で最小r=1にクランプされる
    let img = uniform_image(4, 4, 80);
    let result = gaussian_blur(&img, None, rounded(0.1));
    assert_eq!(result.width, 4);
    assert_eq!(result.height, 4);
    // 均一画像なので値は変わらない
    for pixel in result.data.chunks_exact(4) {
        assert_eq!(pixel[0], 80);
    }
}

#[test]
fn gaussian_blur_large_radius() {
    // radius=10.0 の大きなぼかし
    let img = checker_image(8, 8, 0, 200);
    let result = gaussian_blur(&img, None, rounded(10.0));
    assert_eq!(result.width, 8);
    assert_eq!(result.height, 8);
    // 大きなぼかしでチェッカーパターンが平滑化され、中央付近は平均値に近づく
    let center = ((4 * 8 + 4) * 4) as usize;
    let center_val = result.data[center] as i32;
    assert!(
        (center_val - 100).abs() < 30,
        "中央ピクセルが平均値 (100) に近いはず: got {center_val}"
    );
}

#[test]
fn gaussian_blur_smooths_checker() {
    // チェッカーパターンにぼかしをかけると差が縮まる
    let img = checker_image(8, 8, 0, 200);
    let result = gaussian_blur(&img, None, rounded(2.0));
    // 結果のピクセル値の最大・最小差が元 (200) より小さくなる
    let mut min_val = 255u8;
    let mut max_val = 0u8;
    for pixel in result.data.chunks_exact(4) {
        min_val = min_val.min(pixel[0]);
        max_val = max_val.max(pixel[0]);
    }
    let range = max_val - min_val;
    assert!(
        range < 200,
        "ぼかし後のレンジが元の200未満のはず: got {range}"
    );
}

#[test]
fn gaussian_blur_preserves_alpha() {
    let mut img = uniform_image(4, 4, 100);
    img.data[3] = 50; // 1ピクセルのalphaを変更
    let result = gaussian_blur(&img, None, rounded(2.0));
    // alphaチャネルはぼかし対象外
    assert_eq!(result.data[3], 50);
}

#[test]
fn unsharp_mask_uniform_unchanged() {
    // 均一画像にアンシャープマスクをかけても変わらない
    // (original - blurred = 0 なので original + 0 = original)
    let img = uniform_image(8, 8, 150);
    let result = unsharp_mask(&img, None, rounded(2.0));
    for pixel in result.data.chunks_exact(4) {
        assert_eq!(pixel[0], 150);
    }
}

#[test]
fn unsharp_mask_min_radius() {
    // radius=0.1(最小境界値)
    let img = uniform_image(4, 4, 100);
    let result = unsharp_mask(&img, None, rounded(0.1));
    assert_eq!(result.width, 4);
    assert_eq!(result.height, 4);
    for pixel in result.data.chunks_exact(4) {
        assert_eq!(pixel[0], 100);
    }
}

#[test]
fn unsharp_mask_large_radius() {
    // radius=10.0 (大きな値) でも正常に動作する
    let img = checker_image(8, 8, 50, 200);
    let result = unsharp_mask(&img, None, rounded(10.0));
    assert_eq!(result.width, 8);
    assert_eq!(result.height, 8);
    // アンシャープマスクはコントラストを強調する
    // → チェッカーパターンの差が広がるか、clampで0/255に固定される
    let mut min_val = 255u8;
    let mut max_val = 0u8;
    for pixel in result.data.chunks_exact(4) {
        min_val = min_val.min(pixel[0]);
        max_val = max_val.max(pixel[0]);
    }
    let original_range = 150; // 200 - 50
    let result_range = max_val - min_val;
    assert!(
        result_range >= original_range as u8,
        "アンシャープマスクでコントラスト強調されるはず: original={original_range}, result={result_range}"
    );
}

#[test]
fn unsharp_mask_preserves_alpha() {
    let mut img = uniform_image(4, 4, 100);
    img.data[7] = 42; // 2番目のピクセルのalpha
    let result = unsharp_mask(&img, None, rounded(2.0));
    assert_eq!(result.data[7], 42);
}

#[test]
fn unsharp_mask_clamps_values() {
    // 極端な入力 (0と255のチェッカー) でもパニックせず正常に完了することを確認
    let img = checker_image(4, 4, 0, 255);
    let result = unsharp_mask(&img, None, rounded(2.0));
    // 結果のデータ長が正しいこと
    assert_eq!(result.data.len(), (4 * 4 * 4) as usize);
    assert_eq!(result.width, 4);
    assert_eq!(result.height, 4);
}

#[test]
fn mosaic_block_size_1_identity() {
    // block_size=1 は各ピクセルが自身の平均=自身なので変化しない
    let img = checker_image(4, 4, 30, 220);
    let result = mosaic(&img, None, 1);
    assert_eq!(result.data, img.data);
}

#[test]
fn mosaic_block_size_0_treated_as_1() {
    // block_size=0 は内部で1にクランプされるので同様に変化しない
    let img = checker_image(4, 4, 30, 220);
    let result = mosaic(&img, None, 0);
    assert_eq!(result.data, img.data);
}

#[test]
fn mosaic_uniform_unchanged() {
    // 均一画像は任意のブロックサイズでも変わらない
    let img = uniform_image(8, 8, 100);
    let result = mosaic(&img, None, 4);
    for pixel in result.data.chunks_exact(4) {
        assert_eq!(pixel[0], 100);
    }
}

#[test]
fn mosaic_large_block_averages_all() {
    // ブロックサイズが画像全体を覆う場合、全ピクセルが画像全体の平均色になる
    let img = checker_image(4, 4, 0, 200);
    let result = mosaic(&img, None, 100); // 4x4画像に対して100x100ブロック
    // 4x4チェッカー: 8ピクセルが0、8ピクセルが200 → 平均=100
    let expected = 100u8;
    for pixel in result.data.chunks_exact(4) {
        assert_eq!(pixel[0], expected);
        assert_eq!(pixel[1], expected);
        assert_eq!(pixel[2], expected);
    }
}

#[test]
fn mosaic_2x2_block_on_checker() {
    // 4x4チェッカーパターンに2x2モザイクをかける
    let img = checker_image(4, 4, 0, 200);
    let result = mosaic(&img, None, 2);
    // 各2x2ブロック内のピクセルはすべて同じ色になる
    for by in (0..4).step_by(2) {
        for bx in (0..4).step_by(2) {
            let offset0 = ((by * 4 + bx) * 4) as usize;
            let block_val = result.data[offset0];
            // 同じブロック内の4ピクセルが同じ値
            for dy in 0..2 {
                for dx in 0..2 {
                    let offset = (((by + dy) * 4 + (bx + dx)) * 4) as usize;
                    assert_eq!(result.data[offset], block_val);
                    assert_eq!(result.data[offset + 1], block_val);
                    assert_eq!(result.data[offset + 2], block_val);
                }
            }
        }
    }
}

#[test]
fn mosaic_preserves_alpha() {
    let mut img = uniform_image(4, 4, 100);
    img.data[3] = 42;
    let result = mosaic(&img, None, 2);
    assert_eq!(result.data[3], 42);
}

#[test]
fn invert_colors_basic() {
    let img = test_image();
    let result = invert_colors(&img, None);
    assert_eq!(result.data[0], 155); // 255-100
    assert_eq!(result.data[1], 105); // 255-150
    assert_eq!(result.data[2], 55); // 255-200
    assert_eq!(result.data[3], 255); // alpha unchanged
}

#[test]
fn grayscale_simple_average() {
    let img = DecodedImage {
        data: vec![30, 60, 90, 255],
        width: 1,
        height: 1,
    };
    let result = grayscale_simple(&img, None);
    assert_eq!(result.data[0], 60); // (30+60+90)/3
    assert_eq!(result.data[1], 60);
    assert_eq!(result.data[2], 60);
}

#[test]
fn grayscale_strict_bt709() {
    let img = DecodedImage {
        data: vec![255, 0, 0, 255], // 純赤
        width: 1,
        height: 1,
    };
    let result = grayscale_strict(&img, None);
    // 0.2126 * 255 ≈ 54
    assert_eq!(result.data[0], 54);
}

#[test]
fn apply_alpha_white_bg() {
    let img = DecodedImage {
        data: vec![100, 100, 100, 128], // 50%透過
        width: 1,
        height: 1,
    };
    let result = apply_alpha(&img, None);
    // 100 * 0.502 + 255 * 0.498 ≈ 177
    assert!((result.data[0] as i32 - 177).abs() <= 1);
    assert_eq!(result.data[3], 255);
}

#[test]
fn region_only_modifies_selection() {
    let img = test_image();
    let region = PixelRect {
        x: 0,
        y: 0,
        width: 1,
        height: 1,
    };
    let result = invert_colors(&img, Some(&region));
    // (0,0) は反転
    assert_eq!(result.data[0], 155);
    // (1,0) は変更なし
    assert_eq!(result.data[4], 50);
}

#[test]
fn sharpen_uniform_unchanged() {
    // 均一画像にシャープをかけても値は変わらない (カーネルの合計が1なので)
    let img = uniform_image(4, 4, 100);
    let result = sharpen(&img, None);
    for pixel in result.data.chunks_exact(4) {
        assert_eq!(pixel[0], 100);
    }
}

#[test]
fn sharpen_strong_uniform_unchanged() {
    let img = uniform_image(4, 4, 100);
    let result = sharpen_strong(&img, None);
    for pixel in result.data.chunks_exact(4) {
        assert_eq!(pixel[0], 100);
    }
}

#[test]
fn sharpen_preserves_alpha() {
    let mut img = uniform_image(3, 3, 100);
    img.data[3] = 128;
    let result = sharpen(&img, None);
    assert_eq!(result.data[3], 128);
}

fn row(values: &[u8]) -> DecodedImage {
    let data = values.iter().flat_map(|&v| [v, v, v, 255]).collect();
    DecodedImage { data, width: values.len() as u32, height: 1 }
}

fn first_bytes(image: &DecodedImage) -> Vec<u8> {
    image.data.chunks_exact(4).map(|p| p[0]).collect()
}

#[test]
fn box_blur_takes_means_with_repeated_edges() {
    // 端は繰り返す: (0+0+90)/3, (0+90+30)/3, (90+30+30)/3
    let result = box_blur(&row(&[0, 90, 30]), None, 1);
    assert_eq!(first_bytes(&result), vec![30, 40, 50]);
    assert_eq!(first_bytes(&blur(&row(&[0, 90, 30]), None)), vec![30, 40, 50]);
    // 半径2: (0*3+90+30)/5, (0*2+90+30*2)/5, (0+90+30*3)/5
    assert_eq!(first_bytes(&blur_strong(&row(&[0, 90, 30]), None)), vec![24, 30, 36]);
}

#[test]
fn gaussian_blur_is_two_box_blurs() {
    let img = checker_image(5, 4, 10, 250);
    let twice = box_blur(&box_blur(&img, None, 2), None, 2);
    assert_eq!(gaussian_blur(&img, None, 2).data, twice.data);
    assert_eq!(first_bytes(&gaussian_blur(&row(&[90, 0, 0]), None, 1)), vec![50, 30, 10]);
    assert_eq!(gaussian_blur(&img, None, 0).data, gaussian_blur(&img, None, 1).data);
}

#[test]
fn unsharp_mask_adds_the_difference() {
    let img = row(&[0, 90, 30]);
    let soft = first_bytes(&gaussian_blur(&img, None, 1));
    let sharp = first_bytes(&unsharp_mask(&img, None, 1));
    for (i, v) in [0i32, 90, 30].iter().enumerate() {
        assert_eq!(sharp[i] as i32, (2 * v - soft[i] as i32).clamp(0, 255));
    }
}

#[test]
fn median_takes_the_middle_of_nine() {
    assert_eq!(first_bytes(&median_filter(&row(&[0, 90, 30]), None)), vec![0, 30, 30]);
}

#[test]
fn sharpening_weighs_the_neighbours() {
    // 5v - 上 - 下 - 左 - 右 = 3v - 左 - 右
    let img = row(&[100, 110, 90]);
    assert_eq!(first_bytes(&sharpen(&img, None)), vec![90, 140, 70]);
    // 9v - 周囲8画素 = 7v - 3(左+右)
    assert_eq!(first_bytes(&sharpen_strong(&img, None)), vec![70, 200, 30]);
    let twice = apply_kernel(&img, None, [0, 0, 0, 0, 3, 0, 0, 0, 0]);
    assert_eq!(first_bytes(&twice), vec![255, 255, 255]);
}

#[test]
fn colours_follow_their_formulas() {
    let img = DecodedImage { data: vec![10, 20, 33, 77], width: 1, height: 1 };
    assert_eq!(grayscale_simple(&img, None).data, vec![21, 21, 21, 77]);
    let green = DecodedImage { data: vec![0, 255, 0, 255], width: 1, height: 1 };
    assert_eq!(grayscale_strict(&green, None).data[0], 182);
    let blue = DecodedImage { data: vec![0, 0, 255, 255], width: 1, height: 1 };
    assert_eq!(grayscale_strict(&blue, None).data[0], 18);
    assert_eq!(fill(&img, None, 1, 2, 3).data, vec![1, 2, 3, 77]);
    let clear = DecodedImage { data: vec![9, 9, 9, 0], width: 1, height: 1 };
    assert_eq!(apply_alpha(&clear, None).data, vec![255; 4]);
    let solid = DecodedImage { data: vec![9, 8, 7, 255], width: 1, height: 1 };
    assert_eq!(apply_alpha(&solid, None).data, vec![9, 8, 7, 255]);
    let curve = ToneCurve { values: (0..=255u8).map(|v| v / 2).collect() };
    assert_eq!(apply_curve(&img, None, &curve).data, vec![5, 10, 16, 77]);
}

#[test]
fn inverting_twice_gives_the_image_back() {
    let img = test_image();
    assert_eq!(invert_colors(&invert_colors(&img, None), None).data, img.data);
    let gray = grayscale_simple(&img, None);
    assert_eq!(grayscale_simple(&gray, None).data, gray.data);
}

#[test]
fn selections_are_cut_to_the_image() {
    let rect = PixelRect { x: -5, y: 2, width: 8, height: 100 };
    assert_eq!(region_bounds(Some(&rect), 10, 6), (0, 2, 3, 6));
    assert_eq!(region_bounds(None, 10, 6), (0, 0, 10, 6));
    let outside = PixelRect { x: 50, y: 50, width: 8, height: 8 };
    let img = test_image();
    assert_eq!(invert_colors(&img, Some(&outside)).data, img.data);
    let none = PixelRect { x: 0, y: 0, width: 0, height: 5 };
    assert!(!none.is_valid());
    assert_eq!((rect.right(), rect.bottom()), (3, 102));
}

#[test]
fn mosaic_blocks_begin_at_the_selection() {
    let img = row(&[0, 10, 20, 40, 100]);
    let rect = PixelRect { x: 1, y: 0, width: 3, height: 1 };
    assert_eq!(first_bytes(&mosaic(&img, Some(&rect), 2)), vec![0, 15, 15, 40, 100]);
}

#[test]
fn a_mosaic_of_a_mosaic_is_the_same() {
    let data: Vec<u8> = (0..7 * 5 * 4).map(|i| (i * 37 % 251) as u8).collect();
    let img = DecodedImage { data, width: 7, height: 5 };
    let rect = PixelRect { x: 1, y: 1, width: 5, height: 3 };
    for region in [None, Some(&rect)] {
        for block in [2, 3, 10] {
            let once = mosaic(&img, region, block);
            assert_ne!(once.data, img.data);
            assert_eq!(mosaic(&once, region, block).data, once.data);
        }
    }
}
