use image::{DynamicImage, GenericImageView, RgbaImage};
use sh_images::cli::parse_cli_path;
use sh_images::config::settings::{default_slideshow_interval_secs, Settings};
use sh_images::ui::editor::EditorResponse;
use sh_images::ui::info_panel::{orientation_label, InfoPanelState};
use sh_images::ui::statusbar::{format_bytes, format_status, StatusInfo};
use sh_images::ui::theme::toggle;
use sh_images::utils::default_app::{associated_extensions, ASSOCIATED_EXTENSIONS, PROG_ID, PROG_ID_FRIENDLY};
use sh_images::utils::errors::{Result, ShImagesError};
use sh_images::utils::paths::{config_dir_with, settings_path_in, Platform};
use sh_images::viewer_core::edit_state::{CropRect, EditState, Filter};
use sh_images::viewer_core::editor::apply_crop;
use sh_images::viewer_core::exif::is_exif_capable;
use sh_images::viewer_core::shortcuts::ShortcutMap;
use sh_images::viewer_core::thumbnail_gen::{
    generate_thumbnail, generate_thumbnail_capped, thumbnail_size, THUMB_MAX,
};
use std::io;

fn rgba(w: u32, h: u32) -> DynamicImage {
    DynamicImage::ImageRgba8(RgbaImage::new(w, h))
}

#[test]
fn thumbnail_size_keeps_aspect_ratio_wide() {
    assert_eq!(thumbnail_size(1920, 1080, THUMB_MAX), (96, 54));
}

#[test]
fn thumbnail_size_keeps_aspect_ratio_tall() {
    assert_eq!(thumbnail_size(1080, 1920, THUMB_MAX), (54, 96));
}

#[test]
fn thumbnail_size_keeps_aspect_ratio_square() {
    assert_eq!(thumbnail_size(100, 100, THUMB_MAX), (96, 96));
}

#[test]
fn thumbnail_size_does_not_upscale() {
    assert_eq!(thumbnail_size(50, 30, THUMB_MAX), (50, 30));
}

#[test]
fn thumbnail_size_zero_max_returns_zero() {
    assert_eq!(thumbnail_size(1920, 1080, 0), (0, 0));
}

#[test]
fn thumbnail_size_zero_dimension_returns_zero() {
    assert_eq!(thumbnail_size(0, 1080, THUMB_MAX), (0, 0));
    assert_eq!(thumbnail_size(1920, 0, THUMB_MAX), (0, 0));
}

#[test]
fn thumbnail_size_never_returns_zero_for_small_dimensions() {
    assert_eq!(thumbnail_size(1, 1, THUMB_MAX), (1, 1));
    assert_eq!(thumbnail_size(1920, 1, THUMB_MAX), (96, 1));
}

fn float_thumbnail_size(w: u32, h: u32, max: u32) -> (u32, u32) {
    if max == 0 || w == 0 || h == 0 {
        return (0, 0);
    }
    let (wf, hf, mf) = (w as f64, h as f64, max as f64);
    if wf <= mf && hf <= mf {
        return (w, h);
    }
    let scale = mf / wf.max(hf);
    (((wf * scale).round() as u32).max(1), ((hf * scale).round() as u32).max(1))
}

#[test]
fn thumbnail_size_agrees_with_binary64_formula() {
    let maxes = [1u32, 3, 7, 48, 96, 128, 200, 255, 1000];
    for &max in &maxes {
        for big in (max + 1)..(max + 400) {
            for x in [1u32, 2, 3, big / 3, big / 2, big - 1, big] {
                assert_eq!(thumbnail_size(x, big, max), float_thumbnail_size(x, big, max), "{x} {big} {max}");
                assert_eq!(thumbnail_size(big, x, max), float_thumbnail_size(big, x, max), "{big} {x} {max}");
            }
        }
    }
    let mut seed: u64 = 0x9E3779B97F4A7C15;
    for _ in 0..20000 {
        seed ^= seed << 13;
        seed ^= seed >> 7;
        seed ^= seed << 17;
        let w = (seed >> 32) as u32;
        let h = seed as u32;
        let max = ((seed >> 16) as u32) % 5000 + 1;
        assert_eq!(thumbnail_size(w, h, max), float_thumbnail_size(w, h, max), "{w} {h} {max}");
        assert_eq!(thumbnail_size(w, h, u32::MAX - 1), float_thumbnail_size(w, h, u32::MAX - 1));
    }
}

#[test]
fn generate_thumbnail_downscales_to_max() {
    let img = generate_thumbnail(&rgba(1920, 1080), THUMB_MAX);
    assert_eq!(img.dimensions(), (96, 54));
}

#[test]
fn generate_thumbnail_small_image_unchanged() {
    let img = generate_thumbnail(&rgba(50, 30), THUMB_MAX);
    assert_eq!(img.dimensions(), (50, 30));
}

#[test]
fn generate_thumbnail_zero_max_returns_original() {
    let img = generate_thumbnail(&rgba(1920, 1080), 0);
    assert_eq!(img.dimensions(), (1920, 1080));
}

#[test]
fn generate_thumbnail_capped_resamples_large_images() {
    let img = generate_thumbnail_capped(&rgba(1080, 1920), THUMB_MAX);
    assert_eq!(img.dimensions(), (54, 96));
    let img = generate_thumbnail_capped(&rgba(0, 10), THUMB_MAX);
    assert_eq!(img.dimensions(), (0, 10));
}

#[test]
fn format_bytes_handles_all_units() {
    assert_eq!(format_bytes(0), "0 B");
    assert_eq!(format_bytes(512), "512 B");
    assert_eq!(format_bytes(1536), "1.5 KB");
    assert_eq!(format_bytes(4_404_019), "4.2 MB");
    assert_eq!(format_bytes(5_368_709_120), "5.0 GB");
}

fn float_format_bytes(bytes: u64) -> String {
    const KB: f64 = 1024.0;
    const MB: f64 = KB * 1024.0;
    const GB: f64 = MB * 1024.0;
    let b = bytes as f64;
    if b >= GB {
        format!("{:.1} GB", b / GB)
    } else if b >= MB {
        format!("{:.1} MB", b / MB)
    } else if b >= KB {
        format!("{:.1} KB", b / KB)
    } else {
        format!("{bytes} B")
    }
}

#[test]
fn format_bytes_agrees_with_binary64_formula() {
    let mut values = vec![1023u64, 1024, 1025, 1075, 1076, 1126, 1127, 1048575, 1048576, u64::MAX, u64::MAX - 1];
    for k in [10u32, 20, 30, 40, 53, 54, 60, 63] {
        let p = 1u64 << k;
        values.extend([p - 1, p, p + 1, p + p / 20, p + p / 20 + 1, p / 20 * 21]);
    }
    let mut seed: u64 = 0x2545F4914F6CDD1D;
    for _ in 0..20000 {
        seed ^= seed << 13;
        seed ^= seed >> 7;
        seed ^= seed << 17;
        values.push(seed >> (seed % 64));
    }
    for b in values {
        assert_eq!(format_bytes(b), float_format_bytes(b), "{b}");
    }
}

fn info(name: &str, w: u32, h: u32, bytes: Option<u64>, idx: usize, total: usize) -> StatusInfo {
    StatusInfo { name: name.to_string(), width: w, height: h, size_bytes: bytes, index: idx, total }
}

#[test]
fn format_status_shows_all_fields() {
    let s = format_status(&info("img_0042.png", 3840, 2160, Some(4_404_019), 3, 50));
    assert_eq!(s, "img_0042.png · 3840×2160 · 4.2 MB · 3/50");
}

#[test]
fn format_status_missing_size_uses_dash() {
    let s = format_status(&info("a.jpg", 64, 64, None, 1, 1));
    assert_eq!(s, "a.jpg · 64×64 · — · 1/1");
}

#[test]
fn format_status_of_a_huge_file() {
    let s = format_status(&info("big_file_with_a_long_name.jpeg", 8, 8, Some(5_368_709_120), 9, 9));
    assert_eq!(s, "big_file_with_a_long_name.jpeg · 8×8 · 5.0 GB · 9/9");
}

#[test]
fn orientation_labels() {
    assert_eq!(orientation_label(1), "Horizontal");
    assert_eq!(orientation_label(6), "Rotada (6)");
    assert_eq!(orientation_label(3), "Rotada (3)");
    assert_eq!(orientation_label(2), "Vertical (2)");
    assert!(InfoPanelState::default().show);
}

#[test]
fn default_response_has_no_actions() {
    let resp = EditorResponse::default();
    assert!(!resp.apply_crop);
    assert!(!resp.save);
    assert!(!resp.cancel);
    assert!(!resp.start_crop);
}

#[test]
fn toggle_dark_to_light() {
    assert_eq!(toggle("dark"), "light");
}

#[test]
fn toggle_light_to_dark() {
    assert_eq!(toggle("light"), "dark");
}

#[test]
fn toggle_unknown_falls_back_to_dark() {
    assert_eq!(toggle("solarized"), "dark");
}

#[test]
fn associated_extensions_contains_common_formats() {
    assert!(ASSOCIATED_EXTENSIONS.contains(&".png"));
    assert!(ASSOCIATED_EXTENSIONS.contains(&".jpg"));
    assert!(ASSOCIATED_EXTENSIONS.contains(&".gif"));
    assert!(ASSOCIATED_EXTENSIONS.contains(&".webp"));
    assert_eq!(associated_extensions(), ASSOCIATED_EXTENSIONS);
}

#[test]
fn prog_id_is_valid() {
    assert!(!PROG_ID.is_empty());
    assert!(!PROG_ID_FRIENDLY.is_empty());
}

#[test]
fn io_error_converts_from_std_io_error() {
    let source = io::Error::new(io::ErrorKind::NotFound, "missing file");
    let err: ShImagesError = source.into();
    assert!(matches!(err, ShImagesError::Io(_)));
}

#[test]
fn display_messages_are_human_readable() {
    assert_eq!(ShImagesError::Config("bad file".to_string()).message(), "configuration error: bad file");
    assert_eq!(ShImagesError::Decode("crc failed".to_string()).message(), "decode error: crc failed");
    assert_eq!(ShImagesError::UnsupportedFormat("webp".to_string()).message(), "unsupported format: webp");
    assert!(ShImagesError::Io(io::Error::other("boom")).message().contains("io error"));
    assert!(ShImagesError::Io(io::Error::other("boom")).message().contains("boom"));
}

#[test]
fn exif_error_displays_message() {
    let err = ShImagesError::Exif("bad block".to_string());
    assert_eq!(err.message(), "exif error: bad block");
    assert!(matches!(err, ShImagesError::Exif(_)));
}

#[test]
fn result_alias_uses_sh_images_error() {
    fn fallible() -> Result<()> {
        Err(ShImagesError::Config("nope".to_string()))
    }
    assert!(fallible().is_err());
}

#[test]
fn config_dir_errors_when_no_env_var_is_available() {
    for platform in [Platform::Windows, Platform::MacOs, Platform::Unix] {
        let err = config_dir_with(platform, None, None, None).unwrap_err();
        assert!(matches!(err, ShImagesError::Config(_)));
    }
}

#[test]
fn windows_config_dir_uses_appdata() {
    let path = config_dir_with(Platform::Windows, Some(r"C:\Users\test\AppData\Roaming".to_string()), None, None)
        .unwrap();
    assert_eq!(path, r"C:\Users\test\AppData\Roaming");
}

#[test]
fn macos_config_dir_uses_home_library() {
    let path = config_dir_with(Platform::MacOs, None, Some("/Users/test".to_string()), None).unwrap();
    assert_eq!(path, "/Users/test/Library/Application Support");
}

#[test]
fn linux_config_dir_prefers_xdg() {
    let path = config_dir_with(Platform::Unix, None, Some("/home/test".to_string()), Some("/etc/xdg".to_string()))
        .unwrap();
    assert_eq!(path, "/etc/xdg");
}

#[test]
fn linux_config_dir_falls_back_to_home_dot_config() {
    let path = config_dir_with(Platform::Unix, None, Some("/home/test".to_string()), None).unwrap();
    assert_eq!(path, "/home/test/.config");
}

#[test]
fn missing_variable_is_named_in_the_error() {
    match config_dir_with(Platform::Unix, Some("C:/x".to_string()), None, None) {
        Err(ShImagesError::Config(m)) => assert_eq!(m, "HOME is not set"),
        other => panic!("unexpected {other:?}"),
    }
    match config_dir_with(Platform::Windows, None, Some("/h".to_string()), None) {
        Err(ShImagesError::Config(m)) => assert_eq!(m, "APPDATA is not set"),
        other => panic!("unexpected {other:?}"),
    }
}

#[test]
fn settings_path_in_composes_sh_images_subdir() {
    assert_eq!(settings_path_in("/tmp/config"), "/tmp/config/sh_images/settings.toml");
    assert_eq!(settings_path_in("/tmp/config/"), "/tmp/config/sh_images/settings.toml");
}

#[test]
fn default_settings_match_plan_values() {
    let s = Settings::default();
    assert_eq!(s.cache_memory_limit_mb, 512);
    assert_eq!(s.theme, "dark");
    assert_eq!(s.slideshow_interval_secs, 5);
    assert_eq!(s.shortcuts, ShortcutMap::defaults());
}

#[test]
fn slideshow_interval_defaults_to_five() {
    let s = Settings::default();
    assert_eq!(s.slideshow_interval_secs, 5);
    assert_eq!(default_slideshow_interval_secs(), 5);
}

#[test]
fn is_exif_capable_checks_extensions() {
    assert!(is_exif_capable("a.JPG"));
    assert!(is_exif_capable("a.TIFF"));
    assert!(!is_exif_capable("a.PNG"));
    assert!(!is_exif_capable("jpg"));
}

#[test]
fn new_state_has_no_changes() {
    let state = EditState::new(rgba(10, 10));
    assert!(!state.has_changes());
    assert!(!state.has_crop());
}

#[test]
fn reset_restores_original() {
    let mut state = EditState::new(rgba(10, 10));
    state.brightness = 50;
    state.filter = Some(Filter::Grayscale);
    state.crop_rect = Some(CropRect { x: 0, y: 0, w: 5, h: 5 });
    state.crop_mode = true;
    assert!(state.has_changes());
    state.reset();
    assert!(!state.has_changes());
    assert_eq!(state.brightness, 0);
    assert!(state.filter.is_none());
    assert!(!state.crop_mode);
}

#[test]
fn crop_rect_is_detected() {
    let mut state = EditState::new(rgba(10, 10));
    assert!(!state.has_crop());
    state.crop_rect = Some(CropRect { x: 1, y: 1, w: 5, h: 5 });
    assert!(state.has_crop());
    assert!(!state.is_crop_mode());
}

fn crop_test_image() -> DynamicImage {
    let mut img = RgbaImage::new(4, 4);
    for (x, y, pixel) in img.enumerate_pixels_mut() {
        *pixel = image::Rgba([(x * 60) as u8, (y * 60) as u8, 100, 255]);
    }
    DynamicImage::ImageRgba8(img)
}

#[test]
fn crop_returns_smaller_image() {
    let img = crop_test_image();
    let cropped = apply_crop(&img, CropRect { x: 1, y: 1, w: 2, h: 2 });
    assert_eq!(cropped.dimensions(), (2, 2));
}

#[test]
fn crop_clamps_to_bounds() {
    let img = crop_test_image();
    let cropped = apply_crop(&img, CropRect { x: 2, y: 2, w: 100, h: 100 });
    assert_eq!(cropped.dimensions(), (2, 2));
}

#[test]
fn crop_outside_the_image_keeps_one_pixel() {
    let img = crop_test_image();
    let cropped = apply_crop(&img, CropRect { x: 9, y: 9, w: 0, h: 0 });
    assert_eq!(cropped.dimensions(), (1, 1));
}

#[test]
fn parse_path_from_argv() {
    let sample = vec!["sh_images.exe".to_string(), "C:\\foto.png".to_string()];
    let parsed = parse_cli_path(sample);
    assert_eq!(parsed.unwrap(), "C:\\foto.png");
}

#[test]
fn empty_string_arg_is_filtered() {
    let sample = vec!["sh_images.exe".to_string(), "".to_string()];
    assert!(parse_cli_path(sample).is_none());
}

#[test]
fn whitespace_arg_is_filtered() {
    let sample = vec!["sh_images.exe".to_string(), "   ".to_string()];
    assert!(parse_cli_path(sample).is_none());
}

#[test]
fn missing_argument_gives_no_path() {
    assert!(parse_cli_path(vec!["sh_images".to_string()]).is_none());
    assert_eq!(parse_cli_path(vec!["p".to_string(), " a b ".to_string(), "c".to_string()]).unwrap(), " a b ");
}

#[test]
fn thumbnails_never_exceed_max() {
    let mut seed: u64 = 0xDEAD_BEEF_CAFE_F00D;
    for _ in 0..20000 {
        seed ^= seed << 13;
        seed ^= seed >> 7;
        seed ^= seed << 17;
        let w = (seed >> 40) as u32 + 1;
        let h = (seed & 0xFF_FFFF) as u32 + 1;
        let max = ((seed >> 20) as u32) % 700 + 1;
        let (tw, th) = thumbnail_size(w, h, max);
        assert!(tw <= max && th <= max, "{w} {h} {max}");
        assert!(tw >= 1 && th >= 1);
    }
    assert_eq!(thumbnail_size(u32::MAX, u32::MAX, u32::MAX - 1), (u32::MAX - 1, u32::MAX - 1));
}
