//! Settings of the viewer.

use vstd::prelude::*;

use crate::file_list::SortOrder;
use crate::text::same_text;

verus! {

/// How images are scaled, as the settings name it.
#[derive(Debug, Clone, Copy, PartialEq, Eq, Structural)]
pub enum DisplayModeConfig {
    Shrink,
    Fit,
    Enlarge,
    Original,
    Fixed,
}

impl Default for DisplayModeConfig {
    fn default() -> (r: Self)
        ensures
            r == DisplayModeConfig::Fit,
    {
        DisplayModeConfig::Fit
    }
}

/// How images are scaled. The scale of `Fixed` is kept beside it.
#[derive(Debug, Clone, Copy, PartialEq, Eq, Structural)]
pub enum DisplayMode {
    AutoShrink,
    AutoFit,
    AutoEnlarge,
    Original,
    Fixed,
}

/// What shines through transparent pixels.
#[derive(Debug, Clone, Copy, PartialEq, Eq, Structural)]
pub enum AlphaBackground {
    White,
    Black,
    Checker,
}

impl Default for AlphaBackground {
    fn default() -> (r: Self)
        ensures
            r == AlphaBackground::Checker,
    {
        AlphaBackground::Checker
    }
}

impl DisplayModeConfig {
    /// The mode that a word names.
    pub open spec fn named(word: Seq<char>) -> Option<DisplayModeConfig> {
        if word == "shrink"@ {
            Some(DisplayModeConfig::Shrink)
        } else if word == "fit"@ {
            Some(DisplayModeConfig::Fit)
        } else if word == "enlarge"@ {
            Some(DisplayModeConfig::Enlarge)
        } else if word == "original"@ {
            Some(DisplayModeConfig::Original)
        } else if word == "fixed"@ {
            Some(DisplayModeConfig::Fixed)
        } else {
            None
        }
    }

    /// The mode that a word names; none for another word.
    pub fn from_word(word: &str) -> (r: Option<DisplayModeConfig>)
        ensures
            r == Self::named(word@),
    {
        if same_text(word, "shrink") {
            Some(DisplayModeConfig::Shrink)
        } else if same_text(word, "fit") {
            Some(DisplayModeConfig::Fit)
        } else if same_text(word, "enlarge") {
            Some(DisplayModeConfig::Enlarge)
        } else if same_text(word, "original") {
            Some(DisplayModeConfig::Original)
        } else if same_text(word, "fixed") {
            Some(DisplayModeConfig::Fixed)
        } else {
            None
        }
    }

    /// The mode that a word of the settings file stands for; the default for an
    /// unknown word.
    pub fn from_setting(word: &str) -> (r: DisplayModeConfig)
        ensures
            r == (match Self::named(word@) {
                Some(m) => m,
                None => DisplayModeConfig::Fit,
            }),
    {
        match Self::from_word(word) {
            Some(m) => m,
            None => DisplayModeConfig::Fit,
        }
    }

    /// The scaling that the setting stands for.
    pub fn to_display_mode(self) -> (r: DisplayMode)
        ensures
            r == (match self {
                DisplayModeConfig::Shrink => DisplayMode::AutoShrink,
                DisplayModeConfig::Fit => DisplayMode::AutoFit,
                DisplayModeConfig::Enlarge => DisplayMode::AutoEnlarge,
                DisplayModeConfig::Original => DisplayMode::Original,
                DisplayModeConfig::Fixed => DisplayMode::Fixed,
            }),
    {
        match self {
            DisplayModeConfig::Shrink => DisplayMode::AutoShrink,
            DisplayModeConfig::Fit => DisplayMode::AutoFit,
            DisplayModeConfig::Enlarge => DisplayMode::AutoEnlarge,
            DisplayModeConfig::Original => DisplayMode::Original,
            DisplayModeConfig::Fixed => DisplayMode::Fixed,
        }
    }
}

impl AlphaBackground {
    /// The background that a word names.
    pub open spec fn named(word: Seq<char>) -> Option<AlphaBackground> {
        if word == "white"@ {
            Some(AlphaBackground::White)
        } else if word == "black"@ {
            Some(AlphaBackground::Black)
        } else if word == "checker"@ {
            Some(AlphaBackground::Checker)
        } else {
            None
        }
    }

    /// The background that a word of the settings file stands for; the default
    /// for an unknown word.
    pub fn from_setting(word: &str) -> (r: AlphaBackground)
        ensures
            r == (match Self::named(word@) {
                Some(b) => b,
                None => AlphaBackground::Checker,
            }),
    {
        if same_text(word, "white") {
            AlphaBackground::White
        } else if same_text(word, "black") {
            AlphaBackground::Black
        } else {
            AlphaBackground::Checker
        }
    }
}

/// The order that a word names.
pub open spec fn order_named(word: Seq<char>) -> Option<SortOrder> {
    if word == "name"@ {
        Some(SortOrder::Name)
    } else if word == "name_nocase"@ {
        Some(SortOrder::NameNoCase)
    } else if word == "size"@ {
        Some(SortOrder::Size)
    } else if word == "date"@ {
        Some(SortOrder::Date)
    } else if word == "natural"@ {
        Some(SortOrder::Natural)
    } else {
        None
    }
}

/// The order that a word of the settings file stands for; the default for an
/// unknown word.
pub fn sort_order_from_setting(word: &str) -> (r: SortOrder)
    ensures
        r == (match order_named(word@) {
            Some(o) => o,
            None => SortOrder::Name,
        }),
{
    if same_text(word, "name") {
        SortOrder::Name
    } else if same_text(word, "name_nocase") {
        SortOrder::NameNoCase
    } else if same_text(word, "size") {
        SortOrder::Size
    } else if same_text(word, "date") {
        SortOrder::Date
    } else if same_text(word, "natural") {
        SortOrder::Natural
    } else {
        SortOrder::Name
    }
}

/// The image size by which the cache is measured.
#[derive(Debug, Clone, Copy, PartialEq, Eq, Structural)]
pub struct PrefetchConfig {
    pub cache_base_width: u32,
    pub cache_base_height: u32,
}

impl Default for PrefetchConfig {
    fn default() -> (r: Self)
        ensures
            r.cache_base_width == 1024,
            r.cache_base_height == 1536,
    {
        PrefetchConfig { cache_base_width: 1024, cache_base_height: 1536 }
    }
}

impl PrefetchConfig {
    /// The bytes of an image of that size.
    pub fn base_image_size(&self) -> (r: usize)
        requires
            self.cache_base_width * self.cache_base_height * 4 <= usize::MAX,
        ensures
            r == self.cache_base_width * self.cache_base_height * 4,
    {
        proof {
            assert(0 <= self.cache_base_width * self.cache_base_height) by (nonlinear_arith)
                requires
                    0 <= self.cache_base_width,
                    0 <= self.cache_base_height,
            ;
        }
        self.cache_base_width as usize * self.cache_base_height as usize * 4
    }
}

/// How lists are sorted at first.
#[derive(Debug, Clone, Copy, PartialEq, Eq, Structural)]
pub struct ListConfig {
    pub default_sort: SortOrder,
}

impl Default for ListConfig {
    fn default() -> (r: Self)
        ensures
            r.default_sort == SortOrder::Name,
    {
        ListConfig { default_sort: SortOrder::Name }
    }
}

/// How the window behaves.
#[derive(Debug, Clone, Copy, PartialEq, Eq, Structural)]
pub struct WindowConfig {
    pub remember_position: bool,
    pub remember_size: bool,
    pub always_on_top: bool,
}

impl Default for WindowConfig {
    fn default() -> (r: Self)
        ensures
            !r.remember_position,
            !r.remember_size,
            !r.always_on_top,
    {
        WindowConfig { remember_position: false, remember_size: false, always_on_top: false }
    }
}

/// Where plug-ins lie and which are preferred, the first the most.
pub struct SusieConfig {
    pub plugin_dir: String,
    pub image_plugins: Vec<String>,
    pub archive_plugins: Vec<String>,
}

impl Default for SusieConfig {
    fn default() -> (r: Self)
        ensures
            r.plugin_dir@ == "spi"@,
            r.image_plugins@.len() == 0,
            r.archive_plugins@.len() == 0,
    {
        SusieConfig {
            plugin_dir: "spi".to_owned(),
            image_plugins: Vec::new(),
            archive_plugins: Vec::new(),
        }
    }
}

/// How the slide show runs.
#[derive(Debug, Clone, Copy, PartialEq, Eq, Structural)]
pub struct SlideshowConfig {
    /// Milliseconds for each image.
    pub interval_ms: u32,
    /// Start again after the last image.
    pub repeat: bool,
}

impl Default for SlideshowConfig {
    fn default() -> (r: Self)
        ensures
            r.interval_ms == 3000,
            r.repeat,
    {
        SlideshowConfig { interval_ms: 3000, repeat: true }
    }
}

/// Each word of a setting stands for a value of its own: no two words mean the same.
pub proof fn words_are_told_apart(a: Seq<char>, b: Seq<char>)
    ensures
        order_named(a) is Some && order_named(a) == order_named(b) ==> a == b,
        DisplayModeConfig::named(a) is Some && DisplayModeConfig::named(a)
            == DisplayModeConfig::named(b) ==> a == b,
        AlphaBackground::named(a) is Some && AlphaBackground::named(a) == AlphaBackground::named(
            b,
        ) ==> a == b,
{
}

/// Every order, way to show and background has its word.
pub proof fn everything_has_a_word(
    order: SortOrder,
    mode: DisplayModeConfig,
    background: AlphaBackground,
)
    ensures
        order_named(
            match order {
                SortOrder::Name => "name"@,
                SortOrder::NameNoCase => "name_nocase"@,
                SortOrder::Size => "size"@,
                SortOrder::Date => "date"@,
                SortOrder::Natural => "natural"@,
            },
        ) == Some(order),
        DisplayModeConfig::named(
            match mode {
                DisplayModeConfig::Shrink => "shrink"@,
                DisplayModeConfig::Fit => "fit"@,
                DisplayModeConfig::Enlarge => "enlarge"@,
                DisplayModeConfig::Original => "original"@,
                DisplayModeConfig::Fixed => "fixed"@,
            },
        ) == Some(mode),
        AlphaBackground::named(
            match background {
                AlphaBackground::White => "white"@,
                AlphaBackground::Black => "black"@,
                AlphaBackground::Checker => "checker"@,
            },
        ) == Some(background),
{
    reveal_strlit("name");
    reveal_strlit("name_nocase");
    reveal_strlit("size");
    reveal_strlit("date");
    reveal_strlit("natural");
    reveal_strlit("shrink");
    reveal_strlit("fit");
    reveal_strlit("enlarge");
    reveal_strlit("original");
    reveal_strlit("fixed");
    reveal_strlit("white");
    reveal_strlit("black");
    reveal_strlit("checker");
    assert("name"@.len() == 4 && "name_nocase"@.len() == 11 && "natural"@.len() == 7);
    assert("size"@.len() == 4 && "date"@.len() == 4);
    assert("name"@[0] == 'n' && "size"@[0] == 's' && "date"@[0] == 'd' && "natural"@[0] == 'n');
    assert("shrink"@[0] == 's' && "fit"@[1] == 'i' && "fixed"@.len() == 5 && "fit"@.len() == 3);
    assert("enlarge"@[0] == 'e' && "original"@[0] == 'o' && "fixed"@[0] == 'f');
    assert("white"@[0] == 'w' && "black"@[0] == 'b' && "checker"@[0] == 'c');
    assert("fit"@[0] == 'f');
}

} // verus!
