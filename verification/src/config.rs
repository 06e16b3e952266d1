use vstd::prelude::*;

verus! {

/// Size, timing and placement of the display window.
#[derive(Clone, Copy, Debug, PartialEq, Eq, Structural)]
pub struct OsdConfig {
    pub width: i32,
    pub height: i32,
    /// Side of the square window used for lock keys.
    pub lock_size: i32,
    pub bar_height: i32,
    pub timeout_ms: u64,
    /// Distance from the bottom edge of the monitor.
    pub offset_y: i32,
}

/// Colours, font and spacing.
#[derive(Clone, Debug, PartialEq, Eq)]
pub struct ThemeConfig {
    pub background: String,
    pub foreground: String,
    pub accent: String,
    pub font_family: String,
    pub font_size: i32,
    pub corner_radius: i32,
    pub padding: i32,
    pub icon_size: i32,
}

/// Where the backends read from.
#[derive(Clone, Debug, PartialEq, Eq)]
pub struct BackendConfig {
    /// A backlight device directory; when absent, the first one found is used.
    pub brightness_path: Option<String>,
}

/// The whole configuration.
#[derive(Clone, Debug, PartialEq, Eq)]
pub struct Config {
    pub osd: OsdConfig,
    pub theme: ThemeConfig,
    pub backend: BackendConfig,
}

/// The window settings the display starts with.
pub open spec fn default_osd() -> OsdConfig {
    OsdConfig { width: 288, height: 53, lock_size: 58, bar_height: 1, timeout_ms: 1600, offset_y: 60 }
}

/// Whether a theme is the one the display starts with.
pub open spec fn is_default_theme(theme: ThemeConfig) -> bool {
    &&& theme.background@ == "#181818cc"@
    &&& theme.foreground@ == "#ffffff"@
    &&& theme.accent@ == "#88c0ff"@
    &&& theme.font_family@ == "Google Sans, sans-serif"@
    &&& theme.font_size == 17
    &&& theme.corner_radius == 20
    &&& theme.padding == 18
    &&& theme.icon_size == 26
}

/// Whether a configuration is the one the display starts with.
pub open spec fn is_default_config(config: Config) -> bool {
    &&& config.osd == default_osd()
    &&& is_default_theme(config.theme)
    &&& config.backend.brightness_path is None
}

impl Default for BackendConfig {
    /// No configured backlight device.
    fn default() -> (backend: BackendConfig)
        ensures
            backend.brightness_path is None,
    {
        BackendConfig { brightness_path: default_brightness_path() }
    }
}

impl Default for Config {
    /// The built-in configuration.
    fn default() -> (config: Config)
        ensures
            is_default_config(config),
    {
        Config {
            osd: OsdConfig {
                width: 288,
                height: 53,
                lock_size: 58,
                bar_height: 1,
                timeout_ms: 1600,
                offset_y: 60,
            },
            theme: ThemeConfig {
                background: String::from_str("#181818cc"),
                foreground: String::from_str("#ffffff"),
                accent: String::from_str("#88c0ff"),
                font_family: String::from_str("Google Sans, sans-serif"),
                font_size: 17,
                corner_radius: 20,
                padding: 18,
                icon_size: 26,
            },
            backend: BackendConfig { brightness_path: None },
        }
    }
}

impl Config {
    /// The configuration the daemon runs with. There is no configuration file
    /// yet: this is the built-in configuration.
    pub fn load_or_init() -> (config: Config)
        ensures
            is_default_config(config),
    {
        Config::default()
    }
}

/// The backlight device a configuration without one names: none.
pub fn default_brightness_path() -> (path: Option<String>)
    ensures
        path is None,
{
    None
}

/// The lock window size that a configuration without one gets.
pub fn default_lock_size() -> (size: i32)
    ensures
        size == 56,
{
    56
}

/// The bar height that a configuration without one gets.
pub fn default_bar_height() -> (height: i32)
    ensures
        height == 6,
{
    6
}

} // verus!
