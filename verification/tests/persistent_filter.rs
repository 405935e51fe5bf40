use gv::filter::color::ToneCurve;
use gv::image::DecodedImage;
use gv::persistent_filter::{FilterKind, FilterOperation, PersistentFilter};

fn test_image() -> DecodedImage {
    DecodedImage { data: vec![100, 150, 200, 255], width: 1, height: 1 }
}

/// The curve that leaves every tone as it is.
fn unchanged() -> ToneCurve {
    ToneCurve { values: (0..=255).collect() }
}

/// Levels: zero up to `low`, 255 from `high` on, and linear between them.
fn levels(low: u8, high: u8) -> FilterOperation {
    let range = (high - low) as f64;
    let tone = |v: u8| (v.saturating_sub(low) as f64 / range * 255.0).clamp(0.0, 255.0) as u8;
    let curve = ToneCurve { values: (0..=255).map(tone).collect() };
    FilterOperation::Levels { low, high, curve }
}

#[test]
fn disabled_returns_none() {
    let pf = PersistentFilter::new();
    assert!(pf.apply(&test_image()).is_none());
}

#[test]
fn enabled_with_no_ops_returns_none() {
    let mut pf = PersistentFilter::new();
    pf.toggle_enabled();
    assert!(pf.apply(&test_image()).is_none());
}

#[test]
fn enabled_with_ops_applies() {
    let mut pf = PersistentFilter::new();
    pf.toggle_enabled();
    pf.add_operation(FilterOperation::InvertColors);
    let result = pf.apply(&test_image()).unwrap();
    assert_eq!(result.data[0], 155); // 255-100
}

#[test]
fn multiple_operations_chain() {
    let mut pf = PersistentFilter::new();
    pf.toggle_enabled();
    pf.add_operation(FilterOperation::InvertColors);
    pf.add_operation(FilterOperation::InvertColors);
    // 2回反転 → 元に戻る
    let img = test_image();
    let result = pf.apply(&img).unwrap();
    assert_eq!(result.data[0], img.data[0]);
}

#[test]
fn clear_operations_empties_list_and_increments_generation() {
    let mut pf = PersistentFilter::new();
    pf.toggle_enabled(); // gen=1
    pf.add_operation(FilterOperation::Blur); // gen=2
    pf.add_operation(FilterOperation::Sharpen); // gen=3
    assert_eq!(pf.operations().len(), 2);

    pf.clear_operations(); // gen=4
    assert!(pf.operations().is_empty());
    // 有効だが操作なし → None
    assert!(pf.apply(&test_image()).is_none());
}

#[test]
fn three_filter_chain_grayscale_invert_levels() {
    let mut pf = PersistentFilter::new();
    pf.toggle_enabled();
    pf.add_operation(FilterOperation::GrayscaleStrict);
    pf.add_operation(FilterOperation::InvertColors);
    pf.add_operation(levels(0, 255));

    let result = pf.apply(&test_image()).unwrap();
    // グレースケール → 反転 → レベル補正 (フルレンジ) が順に適用される
    assert_eq!(result.width, 1);
    assert_eq!(result.height, 1);
    assert_eq!(result.data.len(), 4);
    // α値は保持される
    assert_eq!(result.data[3], 255);
}

#[test]
fn rotate_90cw_changes_dimensions() {
    // 2x1 の画像を90°回転すると 1x2 になる
    let img = DecodedImage {
        data: vec![
            255, 0, 0, 255, // (0,0) 赤
            0, 255, 0, 255, // (1,0) 緑
        ],
        width: 2,
        height: 1,
    };
    let mut pf = PersistentFilter::new();
    pf.toggle_enabled();
    pf.add_operation(FilterOperation::Rotate90CW);

    let result = pf.apply(&img).unwrap();
    assert_eq!(result.width, 1);
    assert_eq!(result.height, 2);
}

#[test]
fn rotate_90ccw_changes_dimensions() {
    let img = DecodedImage {
        data: vec![255, 0, 0, 255, 0, 255, 0, 255],
        width: 2,
        height: 1,
    };
    let mut pf = PersistentFilter::new();
    pf.toggle_enabled();
    pf.add_operation(FilterOperation::Rotate90CCW);

    let result = pf.apply(&img).unwrap();
    assert_eq!(result.width, 1);
    assert_eq!(result.height, 2);
}

#[test]
fn rotate_180_preserves_dimensions() {
    let img = DecodedImage {
        data: vec![255, 0, 0, 255, 0, 255, 0, 255],
        width: 2,
        height: 1,
    };
    let mut pf = PersistentFilter::new();
    pf.toggle_enabled();
    pf.add_operation(FilterOperation::Rotate180);

    let result = pf.apply(&img).unwrap();
    assert_eq!(result.width, 2);
    assert_eq!(result.height, 1);
    // 180°回転で順序が反転: 元 (赤,緑) → (緑,赤)
    assert_eq!(&result.data[0..4], &[0, 255, 0, 255]);
    assert_eq!(&result.data[4..8], &[255, 0, 0, 255]);
}

#[test]
fn flip_horizontal_swaps_pixels() {
    let img = DecodedImage {
        data: vec![255, 0, 0, 255, 0, 255, 0, 255],
        width: 2,
        height: 1,
    };
    let mut pf = PersistentFilter::new();
    pf.toggle_enabled();
    pf.add_operation(FilterOperation::FlipHorizontal);

    let result = pf.apply(&img).unwrap();
    assert_eq!(&result.data[0..4], &[0, 255, 0, 255]);
    assert_eq!(&result.data[4..8], &[255, 0, 0, 255]);
}

#[test]
fn flip_vertical_swaps_rows() {
    let img = DecodedImage {
        data: vec![
            255, 0, 0, 255, // 1行目: 赤
            0, 0, 255, 255, // 2行目: 青
        ],
        width: 1,
        height: 2,
    };
    let mut pf = PersistentFilter::new();
    pf.toggle_enabled();
    pf.add_operation(FilterOperation::FlipVertical);

    let result = pf.apply(&img).unwrap();
    assert_eq!(&result.data[0..4], &[0, 0, 255, 255]); // 青が先頭に
    assert_eq!(&result.data[4..8], &[255, 0, 0, 255]);
}

#[test]
fn gamma_correction_adjusts_brightness() {
    let mut pf = PersistentFilter::new();
    pf.toggle_enabled();
    // ガンマ1.0は変化なし
    pf.add_operation(FilterOperation::Gamma { curve: unchanged() });

    let img = test_image();
    let result = pf.apply(&img).unwrap();
    assert_eq!(result.data[0], img.data[0]);
    assert_eq!(result.data[1], img.data[1]);
    assert_eq!(result.data[2], img.data[2]);
    assert_eq!(result.data[3], img.data[3]);
}

#[test]
fn brightness_contrast_adjustment() {
    let mut pf = PersistentFilter::new();
    pf.toggle_enabled();
    // 明るさ0, コントラスト0は変化なし
    pf.add_operation(FilterOperation::BrightnessContrast { brightness: 0, contrast: 0, curve: unchanged() });

    let img = test_image();
    let result = pf.apply(&img).unwrap();
    assert_eq!(result.data[0], img.data[0]);
    assert_eq!(result.data[3], 255); // αは保持
}

#[test]
fn grayscale_simple_converts() {
    let mut pf = PersistentFilter::new();
    pf.toggle_enabled();
    pf.add_operation(FilterOperation::GrayscaleSimple);

    let result = pf.apply(&test_image()).unwrap();
    // 簡易グレースケール: RGB平均値でR=G=B
    assert_eq!(result.data[0], result.data[1]);
    assert_eq!(result.data[1], result.data[2]);
}

#[test]
fn apply_alpha_composites_on_white() {
    let img = DecodedImage {
        data: vec![255, 0, 0, 128], // 半透明の赤
        width: 1,
        height: 1,
    };
    let mut pf = PersistentFilter::new();
    pf.toggle_enabled();
    pf.add_operation(FilterOperation::ApplyAlpha);

    let result = pf.apply(&img).unwrap();
    // α=128で白背景に合成 → 赤みが薄くなる
    assert!(result.data[0] > 128); // 赤がある程度残る
    assert!(result.data[1] > 0); // 白背景の影響で緑成分あり
    assert_eq!(result.data[3], 255); // α合成後はα=255
}

#[test]
fn gaussian_blur_runs_without_panic() {
    let img = DecodedImage {
        data: vec![
            100, 150, 200, 255, 50, 80, 120, 255, 200, 100, 50, 255, 150, 180, 210, 255,
        ],
        width: 2,
        height: 2,
    };
    let mut pf = PersistentFilter::new();
    pf.toggle_enabled();
    pf.add_operation(FilterOperation::GaussianBlur { radius: 1 });

    let result = pf.apply(&img).unwrap();
    assert_eq!(result.width, 2);
    assert_eq!(result.height, 2);
}

#[test]
fn unsharp_mask_runs_without_panic() {
    let img = DecodedImage {
        data: vec![
            100, 150, 200, 255, 50, 80, 120, 255, 200, 100, 50, 255, 150, 180, 210, 255,
        ],
        width: 2,
        height: 2,
    };
    let mut pf = PersistentFilter::new();
    pf.toggle_enabled();
    pf.add_operation(FilterOperation::UnsharpMask { radius: 1 });

    let result = pf.apply(&img).unwrap();
    assert_eq!(result.width, 2);
    assert_eq!(result.height, 2);
}

#[test]
fn median_filter_runs_without_panic() {
    let img = DecodedImage {
        data: vec![
            100, 150, 200, 255, 50, 80, 120, 255, 200, 100, 50, 255, 150, 180, 210, 255,
        ],
        width: 2,
        height: 2,
    };
    let mut pf = PersistentFilter::new();
    pf.toggle_enabled();
    pf.add_operation(FilterOperation::MedianFilter);

    let result = pf.apply(&img).unwrap();
    assert_eq!(result.width, 2);
    assert_eq!(result.height, 2);
}

#[test]
fn levels_clamps_range() {
    let mut pf = PersistentFilter::new();
    pf.toggle_enabled();
    // レベル補正: low=100, high=200 → 100未満は0, 200以上は255, 間は線形
    pf.add_operation(levels(100, 200));

    let result = pf.apply(&test_image()).unwrap();
    // 元: R=100 → low=100で下限ちょうど → 0付近
    assert_eq!(result.data[0], 0);
    // 元: G=150 → (150-100)/(200-100)*255 = 127.5
    assert!(result.data[1] > 100);
    // 元: B=200 → high=200で上限ちょうど → 255
    assert_eq!(result.data[2], 255);
}

#[test]
fn four_filter_chain_transforms() {
    // 4つの幾何変換フィルタをチェーン: 水平反転 → 垂直反転 → 90°CW → 90°CCW
    // 90°CW + 90°CCW = 元に戻り、水平反転 + 垂直反転 = 180°回転と同等
    let img = DecodedImage {
        data: vec![1, 2, 3, 255, 4, 5, 6, 255, 7, 8, 9, 255, 10, 11, 12, 255],
        width: 2,
        height: 2,
    };
    let mut pf = PersistentFilter::new();
    pf.toggle_enabled();
    pf.add_operation(FilterOperation::FlipHorizontal);
    pf.add_operation(FilterOperation::FlipVertical);
    pf.add_operation(FilterOperation::Rotate90CW);
    pf.add_operation(FilterOperation::Rotate90CCW);
    // 最終結果: 180°回転 (水平+垂直反転の効果)
    let result = pf.apply(&img).unwrap();
    assert_eq!(result.width, 2);
    assert_eq!(result.height, 2);
    // 180°回転: (0,0)↔(1,1), (1,0)↔(0,1)
    assert_eq!(&result.data[0..4], &[10, 11, 12, 255]);
    assert_eq!(&result.data[12..16], &[1, 2, 3, 255]);
}

#[test]
fn toggle_twice_restores_disabled() {
    let mut pf = PersistentFilter::new();
    assert!(!pf.is_enabled());
    pf.toggle_enabled();
    assert!(pf.is_enabled());
    pf.toggle_enabled();
    assert!(!pf.is_enabled());
    // 無効状態 → 操作があってもNone
    pf.add_operation(FilterOperation::InvertColors);
    assert!(pf.apply(&test_image()).is_none());
}

#[test]
fn blur_and_sharpen_variants() {
    let img = DecodedImage {
        data: vec![
            100, 150, 200, 255, 50, 80, 120, 255, 200, 100, 50, 255, 150, 180, 210, 255,
        ],
        width: 2,
        height: 2,
    };

    // Blur
    let mut pf = PersistentFilter::new();
    pf.toggle_enabled();
    pf.add_operation(FilterOperation::Blur);
    assert!(pf.apply(&img).is_some());

    // BlurStrong
    let mut pf = PersistentFilter::new();
    pf.toggle_enabled();
    pf.add_operation(FilterOperation::BlurStrong);
    assert!(pf.apply(&img).is_some());

    // Sharpen
    let mut pf = PersistentFilter::new();
    pf.toggle_enabled();
    pf.add_operation(FilterOperation::Sharpen);
    assert!(pf.apply(&img).is_some());

    // SharpenStrong
    let mut pf = PersistentFilter::new();
    pf.toggle_enabled();
    pf.add_operation(FilterOperation::SharpenStrong);
    assert!(pf.apply(&img).is_some());
}

#[test]
fn filters_are_found_and_removed_by_kind() {
    let mut pf = PersistentFilter::new();
    pf.add_operation(FilterOperation::Blur);
    pf.add_operation(levels(10, 20));
    pf.add_operation(FilterOperation::Blur);
    assert!(pf.has_operation(FilterKind::Levels));
    assert!(!pf.has_operation(FilterKind::Gamma));
    let before = pf.generation;
    assert!(!pf.remove_operation_type(FilterKind::Gamma));
    assert_eq!(pf.generation, before);
    assert!(pf.remove_operation_type(FilterKind::Blur));
    assert_eq!(pf.generation, before + 1);
    let kinds: Vec<FilterKind> = pf.operations().iter().map(|o| o.kind()).collect();
    assert_eq!(kinds, vec![FilterKind::Levels]);
}

#[test]
fn filters_apply_one_after_the_other() {
    let img = DecodedImage { data: vec![10, 20, 30, 255, 90, 80, 70, 255], width: 2, height: 1 };
    let mut pf = PersistentFilter::new();
    pf.toggle_enabled();
    pf.add_operation(FilterOperation::GrayscaleSimple);
    pf.add_operation(FilterOperation::InvertColors);
    pf.add_operation(FilterOperation::FlipHorizontal);
    let result = pf.apply(&img).unwrap();
    assert_eq!(result.data, vec![175, 175, 175, 255, 235, 235, 235, 255]);
}
