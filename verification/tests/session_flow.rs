use image::{DynamicImage, GenericImageView, RgbaImage};
use sh_images::config::settings::Settings;
use sh_images::ui::statusbar::current_status_info;
use sh_images::viewer_core::actions::Action;
use sh_images::viewer_core::edit_state::{CropRect, EditState, Filter};
use sh_images::viewer_core::export::{edit_copy_name, guess_format, suggested_edit_name, SaveFormat};
use sh_images::viewer_core::lang::Language;
use sh_images::viewer_core::navigation::Navigation;
use sh_images::viewer_core::session::{load_plan, load_verdict, Effect, LoadPlan, LoadVerdict, ViewerSession};
use std::time::Duration;

fn folder(n: usize, current: usize) -> Navigation {
    Navigation { images: (0..n).map(|i| format!("/pics/{i}.png")).collect(), current }
}

fn session_with_folder() -> ViewerSession {
    let mut s = ViewerSession::new(Settings::default(), Language::Es);
    let effects = s.open_folder(folder(3, 0));
    assert_eq!(effects, vec![Effect::ForgetFolder, Effect::EnqueueThumbnails, Effect::ShowOpened]);
    s
}

#[test]
fn new_session_uses_settings_interval() {
    let mut settings = Settings::default();
    settings.slideshow_interval_secs = 0;
    let s = ViewerSession::new(settings, Language::En);
    assert_eq!(s.slideshow_interval, Duration::from_secs(1));
    let s = ViewerSession::new(Settings::default(), Language::En);
    assert_eq!(s.slideshow_interval, Duration::from_secs(5));
    assert!(s.navigation.is_none());
    assert!(s.info_open);
    assert!(s.sidebar_open);
}

#[test]
fn next_and_prev_navigate_and_pause_slideshow() {
    let mut s = session_with_folder();
    s.slideshow_active = true;
    assert_eq!(s.dispatch(Action::Next), vec![Effect::ShowCurrent]);
    assert_eq!(s.navigation.as_ref().unwrap().current, 1);
    assert!(!s.slideshow_active);
    assert_eq!(s.dispatch(Action::Prev), vec![Effect::ShowCurrent]);
    assert_eq!(s.dispatch(Action::Prev), vec![Effect::ShowCurrent]);
    assert_eq!(s.navigation.as_ref().unwrap().current, 2);
}

#[test]
fn navigation_is_ignored_while_editing() {
    let mut s = session_with_folder();
    s.edit_started();
    assert!(s.dispatch(Action::Next).is_empty());
    assert_eq!(s.navigation.as_ref().unwrap().current, 0);
    assert_eq!(s.dispatch(Action::CancelEdit), vec![Effect::StopEditing]);
    assert!(!s.editing);
    assert_eq!(s.dispatch(Action::Next), vec![Effect::ShowCurrent]);
}

#[test]
fn toggles_undo_themselves() {
    let mut s = session_with_folder();
    assert_eq!(s.dispatch(Action::Fullscreen), vec![Effect::SetFullscreen(true)]);
    assert_eq!(s.dispatch(Action::Fullscreen), vec![Effect::SetFullscreen(false)]);
    assert!(s.sidebar_open);
    assert!(s.dispatch(Action::ToggleSidebar).is_empty());
    assert!(!s.sidebar_open);
    assert_eq!(s.dispatch(Action::ToggleSidebar), vec![Effect::EnqueueThumbnails]);
    assert!(s.sidebar_open);
    assert!(s.dispatch(Action::ToggleInfo).is_empty());
    assert!(!s.info_open);
    assert!(s.dispatch(Action::ToggleInfo).is_empty());
    assert!(s.info_open);
}

#[test]
fn theme_and_language_changes_are_saved() {
    let mut s = session_with_folder();
    assert_eq!(s.dispatch(Action::ToggleTheme), vec![Effect::SaveSettings]);
    assert_eq!(s.settings.theme, "light");
    s.dispatch(Action::ToggleTheme);
    assert_eq!(s.settings.theme, "dark");
    assert_eq!(s.dispatch(Action::SetLangEn), vec![Effect::SaveSettings]);
    assert_eq!(s.language, Language::En);
}

#[test]
fn slideshow_speed_changes_update_the_setting() {
    let mut s = session_with_folder();
    let effects = s.dispatch(Action::SlideshowFaster);
    assert_eq!(effects, vec![Effect::SaveSettings, Effect::RestartSlideshowClock]);
    assert_eq!(s.slideshow_interval, Duration::from_millis(2500));
    assert_eq!(s.settings.slideshow_interval_secs, 2);
    s.dispatch(Action::SlideshowFaster);
    s.dispatch(Action::SlideshowFaster);
    assert_eq!(s.slideshow_interval, Duration::from_secs(1));
    assert_eq!(s.settings.slideshow_interval_secs, 1);
    for _ in 0..10 {
        s.dispatch(Action::SlideshowSlower);
    }
    assert_eq!(s.slideshow_interval, Duration::from_secs(60));
    assert_eq!(s.settings.slideshow_interval_secs, 60);
}

#[test]
fn slideshow_tick_advances_once_the_interval_passed() {
    let mut s = session_with_folder();
    assert!(s.tick(Duration::from_secs(10)).is_empty());
    assert_eq!(s.dispatch(Action::ToggleSlideshow), vec![Effect::RestartSlideshowClock]);
    assert!(s.tick(Duration::from_secs(4)).is_empty());
    assert_eq!(s.tick(Duration::from_secs(5)), vec![Effect::RestartSlideshowClock, Effect::ShowCurrent]);
    assert_eq!(s.navigation.as_ref().unwrap().current, 1);
    s.view_moved_by_user();
    assert!(!s.slideshow_active);
    assert!(s.user_interacted);
}

#[test]
fn view_commands_need_an_image() {
    let mut s = session_with_folder();
    assert!(s.dispatch(Action::RotateCw).is_empty());
    assert!(s.dispatch(Action::Fit).is_empty());
    s.image_shown();
    s.view_moved_by_user();
    assert_eq!(s.dispatch(Action::RotateCcw), vec![Effect::Rotate(false)]);
    assert!(!s.user_interacted);
    assert_eq!(s.dispatch(Action::Fit), vec![Effect::FitView]);
}

#[test]
fn dialogs_and_editor_actions() {
    let mut s = session_with_folder();
    assert_eq!(s.dispatch(Action::Open), vec![Effect::PickFile]);
    assert!(s.dispatch(Action::EditShortcuts).is_empty());
    assert!(s.shortcut_dialog_open);
    assert!(s.dispatch(Action::SetDefaultViewer).is_empty());
    assert!(s.default_viewer_dialog_open);
    assert_eq!(s.dispatch(Action::Edit), vec![Effect::StartEditing]);
    assert_eq!(s.dispatch(Action::SaveCopy), vec![Effect::SaveEdit(false)]);
    assert_eq!(s.dispatch(Action::SaveAs), vec![Effect::SaveEdit(true)]);
    assert_eq!(s.dispatch(Action::ResetEdit), vec![Effect::ResetEdit]);
    assert_eq!(s.dispatch(Action::ApplyCrop), vec![Effect::ApplyCrop]);
}

#[test]
fn navigate_to_picks_an_image_in_range() {
    let mut s = session_with_folder();
    s.slideshow_active = true;
    assert_eq!(s.navigate_to(2), vec![Effect::ShowCurrent]);
    assert_eq!(s.navigation.as_ref().unwrap().current, 2);
    assert!(!s.slideshow_active);
    assert!(s.navigate_to(7).is_empty());
    assert_eq!(s.navigation.as_ref().unwrap().current, 2);
}

#[test]
fn loader_reports_are_judged() {
    let cur = "/pics/1.png".to_string();
    let other = "/pics/0.png".to_string();
    assert_eq!(load_verdict(Some(&cur), None, "/pics/0.png", true), LoadVerdict::Ignore);
    assert_eq!(load_verdict(None, None, "/pics/1.png", true), LoadVerdict::Ignore);
    assert_eq!(load_verdict(Some(&cur), Some(&other), "/pics/1.png", false), LoadVerdict::Failed);
    assert_eq!(load_verdict(Some(&cur), Some(&cur), "/pics/1.png", true), LoadVerdict::AlreadyShown);
    assert_eq!(load_verdict(Some(&cur), Some(&other), "/pics/1.png", true), LoadVerdict::Show);
    assert_eq!(load_plan(true, true), LoadPlan::FromCache);
    assert_eq!(load_plan(false, true), LoadPlan::AlreadyLoading);
    assert_eq!(load_plan(false, false), LoadPlan::Decode);
}

#[test]
fn status_info_of_the_current_image() {
    let nav = folder(3, 1);
    let info = current_status_info(&nav, 640, 480, 2048).unwrap();
    assert_eq!(info.name, "1.png");
    assert_eq!((info.width, info.height), (640, 480));
    assert_eq!(info.size_bytes, Some(2048));
    assert_eq!((info.index, info.total), (2, 3));
    assert!(current_status_info(&folder(0, 0), 1, 1, 1).is_none());
    let odd = Navigation { images: vec!["/pics/..".to_string()], current: 0 };
    assert!(current_status_info(&odd, 1, 1, 1).is_none());
}

#[test]
fn save_format_follows_the_extension() {
    assert_eq!(guess_format("/a/b.JPG"), SaveFormat::Jpeg);
    assert_eq!(guess_format("/a/b.jpeg"), SaveFormat::Jpeg);
    assert_eq!(guess_format("b.bmp"), SaveFormat::Bmp);
    assert_eq!(guess_format("b.GIF"), SaveFormat::Gif);
    assert_eq!(guess_format("b.tif"), SaveFormat::Tiff);
    assert_eq!(guess_format("b.webp"), SaveFormat::WebP);
    assert_eq!(guess_format("b.avif"), SaveFormat::Avif);
    assert_eq!(guess_format("b.png"), SaveFormat::Png);
    assert_eq!(guess_format("b"), SaveFormat::Png);
    assert_eq!(guess_format("b.xyz"), SaveFormat::Png);
}

#[test]
fn edited_copy_names() {
    assert_eq!(edit_copy_name("/pics/holiday.jpg"), "holiday_edit.jpg");
    assert_eq!(edit_copy_name("/pics/archive.tar.gz"), "archive.tar_edit.gz");
    assert_eq!(edit_copy_name("/pics/noext"), "noext_edit.png");
    assert_eq!(edit_copy_name("/pics/.hidden"), ".hidden_edit.png");
    assert_eq!(edit_copy_name(""), "imagen_edit.png");
    assert_eq!(suggested_edit_name("/pics/holiday.jpg"), "holiday_edit");
    assert_eq!(suggested_edit_name("/"), "imagen_editada");
}

#[test]
fn applying_a_crop_makes_it_the_new_original() {
    let mut state = EditState::new(DynamicImage::ImageRgba8(RgbaImage::new(10, 8)));
    state.apply_crop_edit();
    assert_eq!(state.original.dimensions(), (10, 8));
    state.crop_rect = Some(CropRect { x: 2, y: 2, w: 4, h: 3 });
    state.filter = Some(Filter::Sepia);
    state.brightness = 20;
    state.apply_crop_edit();
    assert_eq!(state.original.dimensions(), (4, 3));
    assert_eq!(state.working.dimensions(), (4, 3));
    assert!(state.crop_rect.is_none());
    assert!(state.filter.is_none());
    assert_eq!(state.brightness, 0);
    assert!(!state.has_changes());
}

#[test]
fn default_viewer_dialog_answers() {
    let mut s = session_with_folder();
    assert!(s.dispatch(Action::SetDefaultViewer).is_empty());
    assert!(s.default_viewer_dialog_open);
    assert!(!s.answer_default_viewer_dialog(false, false));
    assert!(s.default_viewer_dialog_open);
    assert!(!s.answer_default_viewer_dialog(false, true));
    assert!(!s.default_viewer_dialog_open);
    s.dispatch(Action::SetDefaultViewer);
    assert!(s.answer_default_viewer_dialog(true, false));
    assert!(!s.default_viewer_dialog_open);
}
