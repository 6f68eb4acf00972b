use sh_images::ui::shortcut_dialog::ShortcutDialog;
use sh_images::utils::default_app::{registration_plan, ASSOCIATED_EXTENSIONS, PROG_ID, PROG_ID_FRIENDLY};
use sh_images::viewer_core::actions::Action;
use sh_images::viewer_core::lang::Language;
use sh_images::viewer_core::shortcuts::{KeyBinding, KeyCode, Modifiers, ShortcutMap};

#[test]
fn capture_assigns_a_free_key() {
    let mut dialog = ShortcutDialog::default();
    let mut map = ShortcutMap::defaults();
    let b = KeyBinding::new(KeyCode::KeyO, Modifiers::CtrlShift);
    assert!(!dialog.capture(&mut map, b, Language::Es));
    dialog.start_capture(Action::Fit);
    assert_eq!(dialog.capture_for, Some(Action::Fit));
    assert!(dialog.capture(&mut map, b, Language::Es));
    assert_eq!(map.get(Action::Fit), Some(b));
    assert!(dialog.capture_for.is_none());
    assert!(dialog.error.is_none());
}

#[test]
fn capture_of_a_taken_key_names_the_other_action() {
    let mut dialog = ShortcutDialog::default();
    let mut map = ShortcutMap::defaults();
    dialog.start_capture(Action::Fit);
    let taken = KeyBinding::new(KeyCode::KeyO, Modifiers::Ctrl);
    assert!(!dialog.capture(&mut map, taken, Language::Es));
    assert_eq!(dialog.error.as_deref(), Some("« «Abrir» » ya usa esa combinación"));
    assert!(dialog.capture_for.is_none());
    assert_eq!(map, ShortcutMap::defaults());
    dialog.start_capture(Action::Fit);
    assert!(dialog.error.is_none());
    dialog.cancel_capture();
    assert!(dialog.capture_for.is_none());
}

#[test]
fn reset_all_restores_defaults() {
    let mut dialog = ShortcutDialog::default();
    let mut map = ShortcutMap::defaults();
    map.assign(Action::Open, KeyBinding::new(KeyCode::Comma, Modifiers::Ctrl)).unwrap();
    assert!(dialog.reset_all(&mut map));
    assert_eq!(map, ShortcutMap::defaults());
}

#[test]
fn capture_prompt_names_the_action() {
    let prompt = ShortcutDialog::capture_prompt(Action::Next, Language::Es);
    assert!(prompt.contains("«Siguiente»"));
    assert!(prompt.contains("(Esc "));
}

#[test]
fn shortcut_entries_roundtrip() {
    let map = ShortcutMap::defaults();
    let entries = map.entries();
    assert_eq!(entries.len(), 14);
    assert_eq!(ShortcutMap::from_entries(entries.clone()), Some(map));
    let mut twice = entries.clone();
    twice.push(entries[0]);
    assert_eq!(ShortcutMap::from_entries(twice), None);
    let mut same_key = entries;
    same_key[1].1 = same_key[0].1;
    assert_eq!(ShortcutMap::from_entries(same_key), None);
}

#[test]
fn registration_plan_lists_every_value() {
    let plan = registration_plan(r"C:\Apps\sh_images.exe", "sh_images.exe");
    assert_eq!(plan.len(), 3 + 9 + 2 + 9 + 1);
    assert_eq!(plan[0].key, format!(r"Software\Classes\{PROG_ID}"));
    assert_eq!(plan[0].name, "");
    assert_eq!(plan[0].value, PROG_ID_FRIENDLY);
    assert_eq!(plan[1].key, r"Software\Classes\ShImages.ImageViewer\shell\open\command");
    assert_eq!(plan[1].value, r#""C:\Apps\sh_images.exe" "%1""#);
    assert_eq!(plan[2].value, r#""C:\Apps\sh_images.exe",0"#);
    for (i, ext) in ASSOCIATED_EXTENSIONS.iter().enumerate() {
        assert_eq!(plan[3 + i].key, format!(r"Software\Classes\{ext}"));
        assert_eq!(plan[3 + i].value, PROG_ID);
        assert_eq!(plan[3 + i].key_error, format!("no se pudo crear asociación {ext}"));
        assert_eq!(plan[14 + i].key, r"Software\sh_images.exe\Capabilities\FileAssociations");
        assert_eq!(plan[14 + i].name, *ext);
    }
    assert_eq!(plan[12].name, "ApplicationName");
    assert_eq!(plan[13].value, "Visor de imágenes rápido y ligero");
    let last = &plan[23];
    assert_eq!(last.key, r"Software\RegisteredApplications");
    assert_eq!(last.name, "sh_images.exe");
    assert_eq!(last.value, r"Software\sh_images.exe\Capabilities");
}
