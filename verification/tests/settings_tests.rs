use mangameeya::config::{Config, PageModeConfig, ReadingDirectionConfig};
use mangameeya::i18n::I18n;
use mangameeya::ini::{import_ini_text, parse_ini};
use std::collections::HashSet;

#[test]
fn lib_test_default_config() {
    let config = Config::default();
    assert_eq!(config.window.width, 640);
    assert_eq!(config.window.height, 480);
    assert_eq!(config.cache.prepage_forward, 2);
    assert_eq!(config.cache.prepage_backward, 2);
    assert_eq!(config.cache.cache_num, 200);
    assert_eq!(config.cache.file_cache_size_mb, 200);
    assert_eq!(config.cache.gc_limit_mb, 300);
    assert!(config.scrolling.smooth_scroll);
    assert_eq!(config.scrolling.smooth_scroll_speed, 1300);
    assert_eq!(config.viewing.page_mode, PageModeConfig::Dual);
    assert_eq!(config.viewing.reading_direction, ReadingDirectionConfig::RightToLeft);
}

#[test]
fn test_parse_ini_basic() {
    let ini = "[Config]\nWidth=640\nHeight=480\n";
    let sections = parse_ini(ini);
    assert_eq!(sections.get("Config").unwrap().get("Width").unwrap(), "640");
    assert_eq!(sections.get("Config").unwrap().get("Height").unwrap(), "480");
}

#[test]
fn test_parse_ini_comments() {
    let ini = ";comment\n[Config]\n#also comment\nKey=Value\n";
    let sections = parse_ini(ini);
    assert_eq!(sections.get("Config").unwrap().get("Key").unwrap(), "Value");
    assert_eq!(sections.get("Config").unwrap().len(), 1);
}

#[test]
fn test_parse_ini_multiple_sections() {
    let ini = "[A]\nX=1\n[B]\nY=2\n";
    let sections = parse_ini(ini);
    assert_eq!(sections.get("A").unwrap().get("X").unwrap(), "1");
    assert_eq!(sections.get("B").unwrap().get("Y").unwrap(), "2");
}

#[test]
fn parse_ini_trims_and_overwrites() {
    let ini = "  [S]  \r\n k = v1 \r\nk=v2\nnoequals\nx==y\n";
    let sections = parse_ini(ini);
    let s = sections.get("S").unwrap();
    assert_eq!(s.get("k").unwrap(), "v2");
    assert_eq!(s.get("x").unwrap(), "=y");
    assert_eq!(s.len(), 2);
    assert!(sections.get("T").is_none());
}

#[test]
fn parse_ini_keys_before_any_section() {
    let sections = parse_ini("a=1\n[]\nb=2\n");
    assert_eq!(sections.len(), 1);
    let unnamed = sections.get("").unwrap();
    assert_eq!(unnamed.get("a").unwrap(), "1");
    assert_eq!(unnamed.get("b").unwrap(), "2");
}

#[test]
fn test_import_ini_from_original() {
    let text = ";MangaMeeya v7.4\n[Config]\nStartUpWidth=640\nStartUpHeight=480\nFullScreen=1\nSmoothScroll=1\nSmoothScrollSpeed=1300\nSmoothScrollAccel=50\nPrepageForwardNum=2\nPrepageBackwardNum=2\nCacheNum=200\nFileCacheSize=200\nGCLimitSize=300\nPageMode=1\nScaleFilter=6\nSaveJpgQuality=100\nSavePngCompress=9\n";
    let config = import_ini_text(text);
    assert_eq!(config.window.width, 640);
    assert_eq!(config.window.height, 480);
    assert!(config.window.fullscreen);
    assert!(config.scrolling.smooth_scroll);
    assert_eq!(config.scrolling.smooth_scroll_speed, 1300);
    assert_eq!(config.cache.prepage_forward, 2);
    assert_eq!(config.cache.cache_num, 200);
    assert_eq!(config.cache.file_cache_size_mb, 200);
    assert_eq!(config.cache.gc_limit_mb, 300);
    assert_eq!(config.image.jpeg_quality, 100);
}

#[test]
fn import_ini_bad_values_keep_defaults() {
    let text = "[Config]\nStartUpWidth=wide\nSaveJpgQuality=300\nPageMode=2\nTopMost=1\nCacheNum=+42\n";
    let config = import_ini_text(text);
    assert_eq!(config.window.width, 640);
    assert_eq!(config.image.jpeg_quality, 100);
    assert_eq!(config.viewing.page_mode, PageModeConfig::Single);
    assert!(config.window.top_most);
    assert_eq!(config.cache.cache_num, 42);
}

#[test]
fn import_ini_without_config_section_is_default() {
    let config = import_ini_text("[Other]\nStartUpWidth=1\n");
    assert_eq!(config.window.width, 640);
    assert_eq!(config.viewing.page_mode, PageModeConfig::Dual);
    assert_eq!(config.image.default_save_format, "jpg");
}

// ---- messages

#[test]
fn test_load_english() {
    let i18n = I18n::new("en");
    assert_eq!(i18n.locale(), "en");
    assert_eq!(i18n.get("menu.file"), "File");
}

#[test]
fn test_load_japanese() {
    let i18n = I18n::new("ja");
    assert_eq!(i18n.locale(), "ja");
    assert_eq!(i18n.get("menu.file"), "ファイル");
}

#[test]
fn test_missing_key() {
    let i18n = I18n::new("en");
    assert_eq!(i18n.get("nonexistent.key"), "nonexistent.key");
}

#[test]
fn test_format_interpolation() {
    let i18n = I18n::new("en");
    let result = i18n.format("page.info", &[("current", "5"), ("total", "100")]);
    assert_eq!(result, "Page 5/100");
}

#[test]
fn test_format_interpolation_japanese() {
    let i18n = I18n::new("ja");
    let result = i18n.format("page.info", &[("current", "5"), ("total", "100")]);
    assert_eq!(result, "ページ 5/100");
}

#[test]
fn format_replaces_every_occurrence_in_order() {
    let i18n = I18n::new("en");
    assert_eq!(i18n.format("error.open_failed", &[("path", "{path}x"), ("path", "y")]), "Failed to open: yx");
    assert_eq!(i18n.format("unknown {a} {a}", &[("a", "1")]), "unknown 1 1");
}

#[test]
fn test_switch_locale() {
    let mut i18n = I18n::new("en");
    assert_eq!(i18n.get("menu.file"), "File");
    i18n.set_locale("ja");
    assert_eq!(i18n.get("menu.file"), "ファイル");
    assert_eq!(i18n.locale(), "ja");
}

#[test]
fn test_all_keys_present_both_locales() {
    let en = I18n::new("en");
    let ja = I18n::new("ja");
    let en_keys: HashSet<_> = en.keys().into_iter().collect();
    let ja_keys: HashSet<_> = ja.keys().into_iter().collect();
    assert_eq!(en_keys, ja_keys);
    assert_eq!(en_keys.len(), 17);
}
