//! Application settings and their defaults.

use crate::text::owned;
use vstd::prelude::*;

verus! {

/// Window settings.
#[derive(Debug, Clone, Copy, PartialEq, Eq, Structural)]
pub struct WindowConfig {
    pub width: u32,
    pub height: u32,
    pub maximized: bool,
    pub fullscreen: bool,
    pub save_position: bool,
    pub top_most: bool,
}

/// Page layout of the viewer.
#[derive(Debug, Clone, Copy, PartialEq, Eq, Structural)]
pub enum PageModeConfig {
    Single,
    Dual,
    DualWithCover,
}

/// How pages are scaled to the window.
#[derive(Debug, Clone, Copy, PartialEq, Eq, Structural)]
pub enum ScaleModeConfig {
    FitWidth,
    FitHeight,
    FitScreen,
    Original,
}

/// The order in which pages are read.
#[derive(Debug, Clone, Copy, PartialEq, Eq, Structural)]
pub enum ReadingDirectionConfig {
    RightToLeft,
    LeftToRight,
}

/// Viewing settings.
#[derive(Debug, Clone, Copy, PartialEq, Eq, Structural)]
pub struct ViewingConfig {
    pub page_mode: PageModeConfig,
    pub scale_mode: ScaleModeConfig,
    pub reading_direction: ReadingDirectionConfig,
    pub auto_dual_detect: bool,
    pub centering: bool,
    pub hide_cursor: bool,
}

/// Scrolling settings.
#[derive(Debug, Clone, Copy, PartialEq, Eq, Structural)]
pub struct ScrollConfig {
    pub smooth_scroll: bool,
    pub smooth_scroll_speed: u32,
    pub smooth_scroll_accel: u32,
    pub keyboard_h_speed: u32,
    pub keyboard_v_speed: u32,
    pub mouse_wheel_h_speed: u32,
    pub mouse_wheel_v_speed: u32,
}

/// Cache and prefetch settings.
#[derive(Debug, Clone, Copy, PartialEq, Eq, Structural)]
pub struct CacheConfig {
    pub prepage_forward: usize,
    pub prepage_backward: usize,
    pub cache_num: usize,
    pub file_cache_size_mb: usize,
    pub gc_limit_mb: usize,
    pub resize_cache: bool,
}

/// Image saving and scaling settings.
#[derive(Debug)]
pub struct ImageConfig {
    pub scale_filter: u32,
    pub default_save_format: String,
    pub jpeg_quality: u8,
    pub png_compression: u8,
}

/// Remembered folders.
#[derive(Debug)]
pub struct PathConfig {
    pub last_open_folder: Option<String>,
    pub save_folder: Option<String>,
}

/// All settings.
#[derive(Debug)]
pub struct Config {
    pub window: WindowConfig,
    pub viewing: ViewingConfig,
    pub scrolling: ScrollConfig,
    pub cache: CacheConfig,
    pub image: ImageConfig,
    pub paths: PathConfig,
}

/// Default window settings: 640 x 480, position saved.
pub open spec fn window_defaults() -> WindowConfig {
    WindowConfig { width: 640, height: 480, maximized: false, fullscreen: false, save_position: true, top_most: false }
}

/// Default viewing settings: two pages, fit to screen, right to left, with
/// automatic detection of pages to show two at a time.
pub open spec fn viewing_defaults() -> ViewingConfig {
    ViewingConfig {
        page_mode: PageModeConfig::Dual,
        scale_mode: ScaleModeConfig::FitScreen,
        reading_direction: ReadingDirectionConfig::RightToLeft,
        auto_dual_detect: true,
        centering: false,
        hide_cursor: false,
    }
}

/// Default scrolling settings.
pub open spec fn scroll_defaults() -> ScrollConfig {
    ScrollConfig {
        smooth_scroll: true,
        smooth_scroll_speed: 1300,
        smooth_scroll_accel: 50,
        keyboard_h_speed: 350,
        keyboard_v_speed: 350,
        mouse_wheel_h_speed: 150,
        mouse_wheel_v_speed: 150,
    }
}

/// Default cache settings.
pub open spec fn cache_defaults() -> CacheConfig {
    CacheConfig { prepage_forward: 2, prepage_backward: 2, cache_num: 200, file_cache_size_mb: 200, gc_limit_mb: 300, resize_cache: true }
}

/// `i` holds the default image settings: filter 6, JPEG at quality 100,
/// PNG compression 9.
pub open spec fn is_image_default(i: ImageConfig) -> bool {
    i.scale_filter == 6 && i.default_save_format@ == "jpg"@ && i.jpeg_quality == 100 && i.png_compression == 9
}

/// `c` holds every default setting.
pub open spec fn is_config_default(c: Config) -> bool {
    &&& c.window == window_defaults()
    &&& c.viewing == viewing_defaults()
    &&& c.scrolling == scroll_defaults()
    &&& c.cache == cache_defaults()
    &&& is_image_default(c.image)
    &&& c.paths.last_open_folder is None
    &&& c.paths.save_folder is None
}

impl Default for WindowConfig {
    fn default() -> (r: WindowConfig)
        ensures
            r == window_defaults(),
    {
        WindowConfig { width: 640, height: 480, maximized: false, fullscreen: false, save_position: true, top_most: false }
    }
}

impl Default for ViewingConfig {
    fn default() -> (r: ViewingConfig)
        ensures
            r == viewing_defaults(),
    {
        ViewingConfig {
            page_mode: PageModeConfig::Dual,
            scale_mode: ScaleModeConfig::FitScreen,
            reading_direction: ReadingDirectionConfig::RightToLeft,
            auto_dual_detect: true,
            centering: false,
            hide_cursor: false,
        }
    }
}

impl Default for ScrollConfig {
    fn default() -> (r: ScrollConfig)
        ensures
            r == scroll_defaults(),
    {
        ScrollConfig {
            smooth_scroll: true,
            smooth_scroll_speed: 1300,
            smooth_scroll_accel: 50,
            keyboard_h_speed: 350,
            keyboard_v_speed: 350,
            mouse_wheel_h_speed: 150,
            mouse_wheel_v_speed: 150,
        }
    }
}

impl Default for CacheConfig {
    fn default() -> (r: CacheConfig)
        ensures
            r == cache_defaults(),
    {
        CacheConfig { prepage_forward: 2, prepage_backward: 2, cache_num: 200, file_cache_size_mb: 200, gc_limit_mb: 300, resize_cache: true }
    }
}

impl Default for ImageConfig {
    fn default() -> (r: ImageConfig)
        ensures
            is_image_default(r),
    {
        ImageConfig { scale_filter: 6, default_save_format: owned("jpg"), jpeg_quality: 100, png_compression: 9 }
    }
}

impl Default for PathConfig {
    fn default() -> (r: PathConfig)
        ensures
            r.last_open_folder is None,
            r.save_folder is None,
    {
        PathConfig { last_open_folder: None, save_folder: None }
    }
}

impl Default for Config {
    fn default() -> (r: Config)
        ensures
            is_config_default(r),
    {
        Config {
            window: WindowConfig::default(),
            viewing: ViewingConfig::default(),
            scrolling: ScrollConfig::default(),
            cache: CacheConfig::default(),
            image: ImageConfig::default(),
            paths: PathConfig::default(),
        }
    }
}

} // verus!
