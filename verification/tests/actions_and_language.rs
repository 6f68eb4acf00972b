use sh_images::viewer_core::actions::Action;
use sh_images::viewer_core::edit_state::Filter;
use sh_images::viewer_core::lang::Language;
use sh_images::viewer_core::shortcuts::{KeyBinding, KeyCode, Modifiers, ShortcutError, ShortcutMap};

#[test]
fn every_action_has_a_label() {
    for action in Action::all() {
        assert!(!action.label(Language::Es).is_empty(), "{action:?} sin label");
    }
}

#[test]
fn every_action_has_a_default_shortcut_except_ui_only() {
    let no_shortcut = &[
        Action::SetDefaultViewer,
        Action::Edit,
        Action::SaveCopy,
        Action::SaveAs,
        Action::CancelEdit,
        Action::ResetEdit,
        Action::ApplyCrop,
        Action::SetLangEs,
        Action::SetLangEn,
    ];
    for action in Action::all() {
        if no_shortcut.contains(&action) {
            assert!(action.default_shortcut().is_none(), "{action:?} no debe tener atajo por defecto");
        } else {
            assert!(action.default_shortcut().is_some(), "{action:?} sin atajo por defecto");
        }
    }
}

#[test]
fn label_is_stable_and_descriptive() {
    assert_eq!(Action::Open.label(Language::Es), "Abrir");
    assert_eq!(Action::Next.label(Language::Es), "Siguiente");
    assert_eq!(Action::RotateCw.label(Language::Es), "Rotar 90° CW");
    assert_eq!(Action::EditShortcuts.label(Language::Es), "Configurar atajos");
    assert_eq!(Action::ToggleInfo.label(Language::Es), "Información");
    assert_eq!(Action::ToggleSlideshow.label(Language::Es), "Slideshow");
    assert_eq!(Action::SlideshowFaster.label(Language::Es), "Slideshow más rápido");
    assert_eq!(Action::SlideshowSlower.label(Language::Es), "Slideshow más lento");
}

#[test]
fn all_returns_twenty_three_actions() {
    let all = Action::all();
    assert_eq!(all.len(), 23);
    let unique: std::collections::HashSet<_> = all.into_iter().collect();
    assert_eq!(unique.len(), 23, "sin variantes duplicadas");
}

#[test]
fn labels_differ_between_languages() {
    assert_eq!(Action::Open.label(Language::En), "Open");
    assert_ne!(Action::Next.label(Language::Es), Action::Next.label(Language::En));
}

#[test]
fn filter_label_is_readable() {
    assert_eq!(Filter::Grayscale.label(Language::Es), "Grises");
    assert_eq!(Filter::Sepia.label(Language::Es), "Sepia");
    assert_eq!(Filter::Invert.label(Language::Es), "Invertir");
    assert_eq!(Filter::BlackWhite.label(Language::Es), "B/N");
}

#[test]
fn languages_have_native_names() {
    assert_eq!(Language::Es.native_name(), "Español");
    assert_eq!(Language::En.native_name(), "English");
}

#[test]
fn es_and_en_have_same_keys() {
    let es = Language::Es.translations();
    let en = Language::En.translations();
    assert_eq!(es.open, "Abrir");
    assert_eq!(en.open, "Open");
    assert_eq!(es.edit, "Editar");
    assert_eq!(en.edit, "Edit");
}

#[test]
fn language_default_is_es() {
    assert_eq!(Language::default(), Language::Es);
}

#[test]
fn default_shortcuts_match_action_defaults() {
    let map = ShortcutMap::defaults();
    for action in Action::all() {
        assert_eq!(map.get(action), action.default_shortcut());
        if let Some(b) = action.default_shortcut() {
            assert_eq!(map.action_for(b), Some(action));
        }
    }
}

#[test]
fn assign_then_lookup_finds_the_new_binding() {
    let mut map = ShortcutMap::defaults();
    let b = KeyBinding::new(KeyCode::KeyO, Modifiers::CtrlShift);
    assert_eq!(map.assign(Action::Fit, b), Ok(()));
    assert_eq!(map.get(Action::Fit), Some(b));
    assert_eq!(map.action_for(b), Some(Action::Fit));
    let old = KeyBinding::new(KeyCode::KeyF, Modifiers::Plain);
    assert_eq!(map.action_for(old), None);
}

#[test]
fn assign_taken_binding_reports_conflict() {
    let mut map = ShortcutMap::defaults();
    let taken = KeyBinding::new(KeyCode::KeyO, Modifiers::Ctrl);
    assert_eq!(map.assign(Action::Fit, taken), Err(ShortcutError::Conflict(Action::Open)));
    assert_eq!(map.get(Action::Fit), Action::Fit.default_shortcut());
}

#[test]
fn reset_restores_the_defaults() {
    let mut map = ShortcutMap::defaults();
    let b = KeyBinding::new(KeyCode::Comma, Modifiers::Ctrl);
    map.assign(Action::Open, b).unwrap();
    map.reset();
    assert_eq!(map, ShortcutMap::defaults());
}
