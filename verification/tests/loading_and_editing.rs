use image::{DynamicImage, GenericImageView, ImageFormat, RgbaImage};
use sh_images::config::settings::Settings;
use sh_images::ui::editor::{EditorCommand, EditorResponse};
use sh_images::utils::errors::ShImagesError;
use sh_images::utils::paths::{portable_path, settings_path, settings_path_for, Platform};
use sh_images::viewer_core::export::{edit_copy_name, suggested_edit_name};
use sh_images::utils::text::file_name;
use sh_images::viewer_core::edit_state::{CropRect, EditState, Filter};
use sh_images::viewer_core::editor::apply_crop;
use sh_images::viewer_core::thumbnail_gen::generate_thumbnail;
use sh_images::viewer_core::exif::{exif_from_bytes, exif_from_container, ContainerExif, ExifRead};
use sh_images::viewer_core::image_loader::{decode_hint, decode_with_hint, decode_image, loaded_from_outcome, DecodeOutcome, LoadedImage};
use sh_images::viewer_core::lang::Language;
use sh_images::viewer_core::session::ViewerSession;
use std::io::Cursor;
use std::time::Duration;

fn rgba(w: u32, h: u32) -> DynamicImage {
    DynamicImage::ImageRgba8(RgbaImage::new(w, h))
}

fn png_bytes(w: u32, h: u32) -> Vec<u8> {
    let mut out = Cursor::new(Vec::new());
    rgba(w, h).write_to(&mut out, ImageFormat::Png).unwrap();
    out.into_inner()
}

/// A JPEG whose only content is an EXIF block with `Make = "Nikon"`.
fn jpeg_with_make() -> Vec<u8> {
    let mut tiff = Vec::new();
    tiff.extend_from_slice(b"II*\0");
    tiff.extend_from_slice(&8u32.to_le_bytes());
    tiff.extend_from_slice(&1u16.to_le_bytes());
    tiff.extend_from_slice(&0x010Fu16.to_le_bytes());
    tiff.extend_from_slice(&2u16.to_le_bytes());
    tiff.extend_from_slice(&6u32.to_le_bytes());
    tiff.extend_from_slice(&26u32.to_le_bytes());
    tiff.extend_from_slice(&0u32.to_le_bytes());
    tiff.extend_from_slice(b"Nikon\0");
    let mut app1 = b"Exif\0\0".to_vec();
    app1.extend_from_slice(&tiff);
    let mut jpeg = vec![0xFF, 0xD8, 0xFF, 0xE1];
    jpeg.extend_from_slice(&((app1.len() + 2) as u16).to_be_bytes());
    jpeg.extend_from_slice(&app1);
    jpeg.extend_from_slice(&[0xFF, 0xD9]);
    jpeg
}

#[test]
fn exif_of_an_image_without_a_block_is_none() {
    assert!(matches!(exif_from_bytes(&png_bytes(2, 2)), Ok(None)));
}

#[test]
fn exif_of_unknown_bytes_is_an_exif_error() {
    match exif_from_bytes(&[1, 2, 3, 4, 5]) {
        Err(ShImagesError::Exif(m)) => assert!(!m.is_empty()),
        other => panic!("unexpected: {other:?}"),
    }
}

#[test]
fn exif_block_of_a_jpeg_is_read() {
    let img = exif_from_bytes(&jpeg_with_make()).unwrap().unwrap();
    assert_eq!(img.make.as_deref(), Some("Nikon"));
    assert_eq!(img.model, None);
    assert_eq!(img.iso, None);
}

#[test]
fn png_bytes_decode_with_and_without_hint() {
    let bytes = png_bytes(3, 2);
    match decode_image(Some("png"), &bytes).unwrap() {
        LoadedImage::Static(img) => assert_eq!(img.dimensions(), (3, 2)),
        _ => panic!("expected a still image"),
    }
    match decode_image(None, &bytes).unwrap() {
        LoadedImage::Static(img) => assert_eq!(img.dimensions(), (3, 2)),
        _ => panic!("expected a still image"),
    }
    match decode_image(Some("jpg"), &bytes).unwrap() {
        LoadedImage::Static(img) => assert_eq!(img.dimensions(), (3, 2)),
        _ => panic!("the content decides over a wrong extension"),
    }
}

#[test]
fn broken_png_is_a_decode_error() {
    let mut bytes = png_bytes(3, 2);
    bytes[17] ^= 0xFF;
    assert!(matches!(decode_image(Some("png"), &bytes), Err(ShImagesError::Decode(_))));
}

#[test]
fn cut_off_png_is_a_read_error() {
    let mut bytes = png_bytes(3, 2);
    bytes.truncate(20);
    assert!(matches!(decode_image(Some("png"), &bytes), Err(ShImagesError::Io(_))));
}

#[test]
fn unknown_bytes_are_an_unsupported_format() {
    assert!(matches!(
        decode_image(None, b"not an image at all"),
        Err(ShImagesError::UnsupportedFormat(_))
    ));
    assert!(matches!(
        decode_image(Some("txt"), b"not an image at all"),
        Err(ShImagesError::UnsupportedFormat(_))
    ));
}

#[test]
fn crop_keeps_the_requested_size_inside_the_image() {
    let out = apply_crop(&rgba(10, 8), CropRect { x: 2, y: 2, w: 5, h: 3 });
    assert_eq!(out.dimensions(), (5, 3));
    let out = apply_crop(&rgba(10, 8), CropRect { x: 8, y: 1, w: 5, h: 3 });
    assert_eq!(out.dimensions(), (2, 3));
    let out = apply_crop(&rgba(10, 8), CropRect { x: 20, y: 20, w: 5, h: 5 });
    assert_eq!(out.dimensions(), (1, 1));
    let out = apply_crop(&rgba(10, 8), CropRect { x: 0, y: 0, w: 0, h: 0 });
    assert_eq!(out.dimensions(), (1, 1));
}

#[test]
fn crop_selection_flags() {
    let mut s = EditState::new(rgba(10, 8));
    s.start_crop();
    assert!(s.is_crop_mode());
    assert!(!s.has_crop());
    let rect = CropRect { x: 1, y: 1, w: 4, h: 4 };
    s.set_crop_result(rect);
    assert!(!s.is_crop_mode());
    assert_eq!(s.crop_rect, Some(rect));
    s.start_crop();
    assert_eq!(s.crop_rect, None);
    assert!(s.is_crop_mode());
    s.cancel_crop();
    assert!(!s.is_crop_mode());
    assert_eq!(s.crop_rect, None);
}

#[test]
fn crop_button_keeps_a_selection_or_cuts_the_chosen_crop() {
    let mut s = EditState::new(rgba(10, 8));
    s.start_crop();
    s.apply_crop_button(Some(CropRect { x: 1, y: 2, w: 4, h: 3 }));
    assert_eq!(s.crop_rect, Some(CropRect { x: 1, y: 2, w: 4, h: 3 }));
    assert_eq!(s.working.dimensions(), (10, 8));
    s.toggle_filter(Filter::Sepia);
    s.apply_crop_button(None);
    assert_eq!(s.crop_rect, None);
    assert_eq!(s.filter, None);
    assert_eq!(s.working.dimensions(), (4, 3));
    assert_eq!(s.original.dimensions(), (4, 3));
    s.apply_crop_button(None);
    assert_eq!(s.working.dimensions(), (4, 3));
}

#[test]
fn filter_buttons_toggle() {
    let mut s = EditState::new(rgba(2, 2));
    s.toggle_filter(Filter::Grayscale);
    assert_eq!(s.filter, Some(Filter::Grayscale));
    s.toggle_filter(Filter::Invert);
    assert_eq!(s.filter, Some(Filter::Invert));
    s.toggle_filter(Filter::Invert);
    assert_eq!(s.filter, None);
    assert!(!s.has_changes());
}

#[test]
fn editor_buttons_pick_one_command() {
    let mut r = EditorResponse::default();
    assert_eq!(r.command(), EditorCommand::Nothing);
    r.reset = true;
    assert_eq!(r.command(), EditorCommand::Reset);
    r.save_as = true;
    assert_eq!(r.command(), EditorCommand::SaveAs);
    r.apply_crop = true;
    assert_eq!(r.command(), EditorCommand::ApplyCrop);
    r.start_crop = true;
    assert_eq!(r.command(), EditorCommand::StartCrop);
}

#[test]
fn slowing_down_is_refused_at_the_edge_of_duration() {
    let mut s = ViewerSession::new(Settings::default(), Language::Es);
    assert!(s.can_slow_down());
    s.slideshow_interval = Duration::MAX;
    assert!(!s.can_slow_down());
    s.slideshow_interval = Duration::new(u64::MAX / 2, 0);
    assert!(s.can_slow_down());
}

#[test]
fn settings_path_uses_the_platform_separator() {
    assert_eq!(
        settings_path_for(Platform::Windows, r"C:\Users\t\AppData\Roaming"),
        r"C:\Users\t\AppData\Roaming\sh_images\settings.toml"
    );
    assert_eq!(
        settings_path_for(Platform::Windows, r"C:\Roaming\"),
        r"C:\Roaming\sh_images\settings.toml"
    );
    assert_eq!(settings_path_for(Platform::Unix, "/home/t/.config"), "/home/t/.config/sh_images/settings.toml");
    assert_eq!(
        settings_path(Platform::Unix, None, Some("/home/t".to_string()), None).unwrap(),
        "/home/t/.config/sh_images/settings.toml"
    );
    assert_eq!(
        settings_path(Platform::MacOs, None, Some("/Users/t".to_string()), None).unwrap(),
        "/Users/t/Library/Application Support/sh_images/settings.toml"
    );
    assert!(matches!(
        settings_path(Platform::Windows, None, Some("/h".to_string()), None),
        Err(ShImagesError::Config(_))
    ));
}

#[test]
fn decoding_outcomes_become_the_viewer_errors() {
    match loaded_from_outcome(DecodeOutcome::Decoded(rgba(2, 3))) {
        Ok(LoadedImage::Static(img)) => assert_eq!(img.dimensions(), (2, 3)),
        _ => panic!("expected a still image"),
    }
    match loaded_from_outcome(DecodeOutcome::Unsupported("no such format".to_string())) {
        Err(ShImagesError::UnsupportedFormat(m)) => assert_eq!(m, "no such format"),
        _ => panic!("expected an unsupported format"),
    }
    match loaded_from_outcome(DecodeOutcome::Other("bad chunk".to_string())) {
        Err(ShImagesError::Decode(m)) => assert_eq!(m, "bad chunk"),
        _ => panic!("expected a decoding error"),
    }
    let io = std::io::Error::new(std::io::ErrorKind::UnexpectedEof, "short");
    assert!(matches!(loaded_from_outcome(DecodeOutcome::Io(io)), Err(ShImagesError::Io(_))));
}

#[test]
fn parsed_containers_become_metadata_or_errors() {
    assert!(matches!(exif_from_container(ContainerExif::NotFound), Ok(None)));
    match exif_from_container(ContainerExif::Malformed("truncated IFD".to_string())) {
        Err(ShImagesError::Exif(m)) => assert_eq!(m, "truncated IFD"),
        other => panic!("unexpected: {other:?}"),
    }
}

#[test]
fn read_outcomes_for_the_panel() {
    assert!(matches!(ExifRead::from_result(Ok(None)), ExifRead::NoExif));
    assert!(matches!(
        ExifRead::from_result(Err(ShImagesError::Exif("x".to_string()))),
        ExifRead::Error(ShImagesError::Exif(_))
    ));
    let img = exif_from_bytes(&jpeg_with_make()).unwrap();
    match ExifRead::from_result(Ok(img)) {
        ExifRead::Found(found) => assert_eq!(found.make.as_deref(), Some("Nikon")),
        other => panic!("unexpected: {other:?}"),
    }
}

#[test]
fn windows_paths_are_read_with_both_separators() {
    let p = portable_path(Platform::Windows, r"C:\Users\t\Pictures\beach.jpg");
    assert_eq!(p, "C:/Users/t/Pictures/beach.jpg");
    assert_eq!(file_name(&p).as_deref(), Some("beach.jpg"));
    assert_eq!(edit_copy_name(&p), "beach_edit.jpg");
    assert_eq!(suggested_edit_name(&p), "beach_edit");
    assert_eq!(portable_path(Platform::Unix, r"/pics/a\b.png"), r"/pics/a\b.png");
    assert_eq!(file_name(&portable_path(Platform::Unix, r"/pics/a\b.png")).as_deref(), Some(r"a\b.png"));
}

fn gradient(w: u32, h: u32) -> DynamicImage {
    DynamicImage::ImageRgba8(RgbaImage::from_fn(w, h, |x, y| image::Rgba([x as u8, y as u8, (x * y) as u8, 255])))
}

#[test]
fn applied_crop_becomes_the_original_too() {
    let img = gradient(10, 8);
    let mut s = EditState::new(img.clone());
    assert_eq!(s.original, img);
    assert_eq!(s.working, img);
    s.set_crop_result(CropRect { x: 3, y: 2, w: 4, h: 3 });
    s.apply_crop_edit();
    assert_eq!(s.working, apply_crop(&img, CropRect { x: 3, y: 2, w: 4, h: 3 }));
    assert_eq!(s.original, s.working);
    s.toggle_filter(Filter::Invert);
    s.reset();
    assert_eq!(s.working, s.original);
    assert_eq!(s.working.dimensions(), (4, 3));
}

#[test]
fn fitting_image_is_its_own_thumbnail() {
    let img = gradient(20, 10);
    assert_eq!(generate_thumbnail(&img, 96), img);
    assert_eq!(generate_thumbnail(&img, 0), img);
}

#[test]
fn extensions_name_formats_without_case() {
    let bytes = png_bytes(2, 2);
    for ext in ["PNG", "Png", "apng", "jfif", "unknown", ""] {
        assert!(matches!(decode_image(Some(ext), &bytes), Ok(LoadedImage::Static(_))));
    }
}

#[test]
fn extension_gives_the_reader_its_hint() {
    assert_eq!(decode_hint(Some("PNG")), Some(ImageFormat::Png));
    assert_eq!(decode_hint(Some("jfif")), Some(ImageFormat::Jpeg));
    assert_eq!(decode_hint(Some("Tiff")), Some(ImageFormat::Tiff));
    assert_eq!(decode_hint(Some("txt")), None);
    assert_eq!(decode_hint(Some("")), None);
    assert_eq!(decode_hint(None), None);
    let bytes = png_bytes(4, 1);
    assert!(matches!(decode_with_hint(Some(ImageFormat::Png), &bytes), DecodeOutcome::Decoded(_)));
    assert!(matches!(decode_with_hint(None, &bytes), DecodeOutcome::Decoded(_)));
    assert!(matches!(decode_with_hint(None, b"plain text"), DecodeOutcome::Unsupported(_)));
}
