use gv::config::{
    sort_order_from_setting, AlphaBackground, DisplayMode, DisplayModeConfig, ListConfig,
    PrefetchConfig, SlideshowConfig, SusieConfig, WindowConfig,
};
use gv::file_list::sort::SortOrder;

/// The settings of the sections that hold words and numbers.
#[derive(Default)]
struct Settings {
    auto_scale: DisplayModeConfig,
    alpha_background: AlphaBackground,
    prefetch: PrefetchConfig,
    list: ListConfig,
    window: WindowConfig,
    susie: SusieConfig,
}

fn word<'a>(table: &'a toml::Table, section: &str, key: &str) -> Option<&'a str> {
    table.get(section)?.get(key)?.as_str()
}

fn flag(table: &toml::Table, section: &str, key: &str) -> Option<bool> {
    table.get(section)?.get(key)?.as_bool()
}

fn number(table: &toml::Table, section: &str, key: &str) -> Option<u32> {
    table.get(section)?.get(key)?.as_integer().map(|n| n as u32)
}

fn words(table: &toml::Table, section: &str, key: &str) -> Option<Vec<String>> {
    let list = table.get(section)?.get(key)?.as_array()?;
    Some(list.iter().filter_map(|v| v.as_str()).map(str::to_string).collect())
}

fn parse(text: &str) -> Settings {
    let table: toml::Table = toml::from_str(text).unwrap();
    let mut s = Settings::default();
    if let Some(w) = word(&table, "display", "auto_scale") {
        s.auto_scale = DisplayModeConfig::from_setting(w);
    }
    if let Some(w) = word(&table, "display", "alpha_background") {
        s.alpha_background = AlphaBackground::from_setting(w);
    }
    if let Some(w) = word(&table, "list", "default_sort") {
        s.list.default_sort = sort_order_from_setting(w);
    }
    if let Some(n) = number(&table, "prefetch", "cache_base_width") {
        s.prefetch.cache_base_width = n;
    }
    if let Some(n) = number(&table, "prefetch", "cache_base_height") {
        s.prefetch.cache_base_height = n;
    }
    if let Some(b) = flag(&table, "window", "remember_position") {
        s.window.remember_position = b;
    }
    if let Some(b) = flag(&table, "window", "remember_size") {
        s.window.remember_size = b;
    }
    if let Some(b) = flag(&table, "window", "always_on_top") {
        s.window.always_on_top = b;
    }
    if let Some(w) = word(&table, "susie", "plugin_dir") {
        s.susie.plugin_dir = w.to_string();
    }
    if let Some(l) = words(&table, "susie", "image_plugins") {
        s.susie.image_plugins = l;
    }
    s
}

#[test]
fn default_config_values() {
    let config = Settings::default();
    assert_eq!(config.auto_scale, DisplayModeConfig::Fit);
    assert_eq!(config.alpha_background, AlphaBackground::Checker);
    assert_eq!(config.prefetch.cache_base_width, 1024);
    assert_eq!(config.prefetch.cache_base_height, 1536);
    assert_eq!(config.list.default_sort, SortOrder::Name);
    assert!(!config.window.remember_position);
    assert!(!config.window.remember_size);
    assert!(!config.window.always_on_top);
    assert_eq!(config.susie.plugin_dir, "spi");
}

#[test]
fn parse_full_toml() {
    let config = parse(
        r#"
[display]
auto_scale = "fit"
fixed_scale = 2.0
margin = 10.0
alpha_background = "black"

[prefetch]
cache_base_width = 800
cache_base_height = 600

[list]
default_sort = "natural"

[window]
remember_position = false
remember_size = false
always_on_top = true

[susie]
plugin_dir = "plugins"
image_plugins = ["ifwebp.sph"]
archive_plugins = ["axlha.sph"]
"#,
    );
    assert_eq!(config.auto_scale, DisplayModeConfig::Fit);
    assert_eq!(config.alpha_background, AlphaBackground::Black);
    assert_eq!(config.prefetch.cache_base_width, 800);
    assert_eq!(config.list.default_sort, SortOrder::Natural);
    assert!(!config.window.remember_position);
    assert!(config.window.always_on_top);
    assert_eq!(config.susie.plugin_dir, "plugins");
    assert_eq!(config.susie.image_plugins, vec!["ifwebp.sph"]);
}

#[test]
fn parse_partial_toml_fills_defaults() {
    let config = parse("[display]\nauto_scale = \"original\"\n");
    assert_eq!(config.auto_scale, DisplayModeConfig::Original);
    // 未指定フィールドはデフォルト
    assert_eq!(config.list.default_sort, SortOrder::Name);
}

#[test]
fn display_mode_conversion() {
    assert_eq!(DisplayModeConfig::Shrink.to_display_mode(), DisplayMode::AutoShrink);
    assert_eq!(DisplayModeConfig::Fit.to_display_mode(), DisplayMode::AutoFit);
    assert_eq!(DisplayModeConfig::Fixed.to_display_mode(), DisplayMode::Fixed);
}

#[test]
fn display_mode_conversion_enlarge_and_original() {
    assert_eq!(DisplayModeConfig::Enlarge.to_display_mode(), DisplayMode::AutoEnlarge);
    assert_eq!(DisplayModeConfig::Original.to_display_mode(), DisplayMode::Original);
}

#[test]
fn invalid_values_fallback_to_defaults() {
    let config = parse(
        r#"
[display]
auto_scale = "unknown"
alpha_background = "invalid"

[list]
default_sort = "bogus"
"#,
    );
    assert_eq!(config.auto_scale, DisplayModeConfig::Fit);
    assert_eq!(config.alpha_background, AlphaBackground::Checker);
    assert_eq!(config.list.default_sort, SortOrder::Name);
}

#[test]
fn prefetch_base_image_size() {
    let p = PrefetchConfig::default();
    assert_eq!(p.base_image_size(), 1024 * 1536 * 4);
}

#[test]
fn prefetch_base_image_size_custom() {
    let p = PrefetchConfig { cache_base_width: 1920, cache_base_height: 1080 };
    assert_eq!(p.base_image_size(), 1920 * 1080 * 4);
}

#[test]
fn prefetch_base_image_size_zero() {
    let p = PrefetchConfig { cache_base_width: 0, cache_base_height: 0 };
    assert_eq!(p.base_image_size(), 0);
}

#[test]
fn invalid_auto_scale_fallback() {
    let config = parse("[display]\nauto_scale = \"zoom\"\n");
    assert_eq!(config.auto_scale, DisplayModeConfig::Fit);
}

#[test]
fn invalid_alpha_background_fallback() {
    let config = parse("[display]\nalpha_background = \"red\"\n");
    assert_eq!(config.alpha_background, AlphaBackground::Checker);
}

#[test]
fn invalid_sort_order_fallback() {
    let config = parse("[list]\ndefault_sort = \"random\"\n");
    assert_eq!(config.list.default_sort, SortOrder::Name);
}

#[test]
fn all_valid_auto_scale_values() {
    for (value, expected) in [
        ("shrink", DisplayModeConfig::Shrink),
        ("fit", DisplayModeConfig::Fit),
        ("enlarge", DisplayModeConfig::Enlarge),
        ("original", DisplayModeConfig::Original),
        ("fixed", DisplayModeConfig::Fixed),
    ] {
        let config = parse(&format!("[display]\nauto_scale = \"{value}\""));
        assert_eq!(config.auto_scale, expected, "auto_scale={value}");
        assert_eq!(DisplayModeConfig::from_word(value), Some(expected));
    }
    assert_eq!(DisplayModeConfig::from_word("Fit"), None);
}

#[test]
fn all_valid_alpha_background_values() {
    for (value, expected) in [
        ("white", AlphaBackground::White),
        ("black", AlphaBackground::Black),
        ("checker", AlphaBackground::Checker),
    ] {
        let config = parse(&format!("[display]\nalpha_background = \"{value}\""));
        assert_eq!(config.alpha_background, expected, "alpha_background={value}");
    }
}

#[test]
fn all_valid_sort_order_values() {
    for (value, expected) in [
        ("name", SortOrder::Name),
        ("name_nocase", SortOrder::NameNoCase),
        ("size", SortOrder::Size),
        ("date", SortOrder::Date),
        ("natural", SortOrder::Natural),
    ] {
        let config = parse(&format!("[list]\ndefault_sort = \"{value}\""));
        assert_eq!(config.list.default_sort, expected, "default_sort={value}");
    }
}

#[test]
fn empty_toml_uses_all_defaults() {
    let config = parse("");
    let default = Settings::default();
    assert_eq!(config.auto_scale, default.auto_scale);
    assert_eq!(config.prefetch.cache_base_width, default.prefetch.cache_base_width);
    assert_eq!(config.prefetch.cache_base_height, default.prefetch.cache_base_height);
    assert_eq!(config.list.default_sort, default.list.default_sort);
}

#[test]
fn slideshow_repeats_every_three_seconds_by_default() {
    let s = SlideshowConfig::default();
    assert_eq!((s.interval_ms, s.repeat), (3000, true));
}
