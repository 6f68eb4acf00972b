//! The user-facing actions of the viewer, their labels and default
//! shortcuts.
use crate::viewer_core::lang::{translations_spec, Language};
use crate::viewer_core::shortcuts::{KeyBinding, KeyCode, Modifiers};
use vstd::prelude::*;

verus! {

/// An action the user can trigger from a menu, a button or a shortcut.
#[derive(Debug, Clone, Copy, PartialEq, Eq, Hash, PartialOrd, Ord, Structural)]
pub enum Action {
    Open,
    Prev,
    Next,
    RotateCw,
    RotateCcw,
    Fit,
    Fullscreen,
    ToggleTheme,
    ToggleSidebar,
    ToggleInfo,
    ToggleSlideshow,
    SlideshowFaster,
    SlideshowSlower,
    EditShortcuts,
    SetDefaultViewer,
    Edit,
    SaveCopy,
    SaveAs,
    CancelEdit,
    ResetEdit,
    ApplyCrop,
    SetLangEs,
    SetLangEn,
}

/// The label of `a` in `lang`.
pub open spec fn label_spec(a: Action, lang: Language) -> &'static str {
    let t = translations_spec(lang);
    match a {
        Action::Open => t.open,
        Action::Prev => t.prev,
        Action::Next => t.next,
        Action::RotateCw => t.rotate_cw,
        Action::RotateCcw => t.rotate_ccw,
        Action::Fit => t.fit,
        Action::Fullscreen => t.fullscreen,
        Action::ToggleTheme => t.toggle_theme,
        Action::ToggleSidebar => t.toggle_sidebar,
        Action::ToggleInfo => t.toggle_info,
        Action::ToggleSlideshow => t.toggle_slideshow,
        Action::SlideshowFaster => t.slideshow_faster,
        Action::SlideshowSlower => t.slideshow_slower,
        Action::EditShortcuts => t.edit_shortcuts,
        Action::SetDefaultViewer => t.set_default_viewer,
        Action::Edit => t.edit,
        Action::SaveCopy => t.save_copy,
        Action::SaveAs => t.save_as,
        Action::CancelEdit => t.cancel_edit,
        Action::ResetEdit => t.reset_edit,
        Action::ApplyCrop => t.apply_crop,
        Action::SetLangEs => "🌐 ES",
        Action::SetLangEn => "🌐 EN",
    }
}

/// The default shortcut of `a`; actions only reachable from the interface
/// have none.
pub open spec fn default_shortcut_spec(a: Action) -> Option<KeyBinding> {
    match a {
        Action::Open => Some(KeyBinding { key: KeyCode::KeyO, modifiers: Modifiers::Ctrl }),
        Action::Prev => Some(KeyBinding { key: KeyCode::ArrowLeft, modifiers: Modifiers::Plain }),
        Action::Next => Some(KeyBinding { key: KeyCode::ArrowRight, modifiers: Modifiers::Plain }),
        Action::RotateCw => Some(KeyBinding { key: KeyCode::CloseBracket, modifiers: Modifiers::Ctrl }),
        Action::RotateCcw => Some(KeyBinding { key: KeyCode::OpenBracket, modifiers: Modifiers::Ctrl }),
        Action::Fit => Some(KeyBinding { key: KeyCode::KeyF, modifiers: Modifiers::Plain }),
        Action::Fullscreen => Some(KeyBinding { key: KeyCode::F11, modifiers: Modifiers::Plain }),
        Action::ToggleTheme => Some(KeyBinding { key: KeyCode::KeyT, modifiers: Modifiers::Ctrl }),
        Action::ToggleSidebar => Some(KeyBinding { key: KeyCode::KeyH, modifiers: Modifiers::Plain }),
        Action::ToggleInfo => Some(KeyBinding { key: KeyCode::KeyI, modifiers: Modifiers::Plain }),
        Action::ToggleSlideshow => Some(KeyBinding { key: KeyCode::KeyF5, modifiers: Modifiers::Plain }),
        Action::SlideshowFaster => Some(KeyBinding { key: KeyCode::Comma, modifiers: Modifiers::Plain }),
        Action::SlideshowSlower => Some(KeyBinding { key: KeyCode::Period, modifiers: Modifiers::Plain }),
        Action::EditShortcuts => Some(KeyBinding { key: KeyCode::KeyK, modifiers: Modifiers::Ctrl }),
        _ => None,
    }
}

/// Every action, in menu order.
pub open spec fn all_spec() -> Seq<Action> {
    seq![
        Action::Open,
        Action::Prev,
        Action::Next,
        Action::RotateCw,
        Action::RotateCcw,
        Action::Fit,
        Action::Fullscreen,
        Action::ToggleTheme,
        Action::ToggleSidebar,
        Action::ToggleInfo,
        Action::ToggleSlideshow,
        Action::SlideshowFaster,
        Action::SlideshowSlower,
        Action::EditShortcuts,
        Action::SetDefaultViewer,
        Action::Edit,
        Action::SaveCopy,
        Action::SaveAs,
        Action::CancelEdit,
        Action::ResetEdit,
        Action::ApplyCrop,
        Action::SetLangEs,
        Action::SetLangEn,
    ]
}

impl Action {
    /// The label of the action in `lang`.
    pub fn label(self, lang: Language) -> (r: &'static str)
        ensures
            r == label_spec(self, lang),
    {
        let t = lang.translations();
        match self {
            Action::Open => t.open,
            Action::Prev => t.prev,
            Action::Next => t.next,
            Action::RotateCw => t.rotate_cw,
            Action::RotateCcw => t.rotate_ccw,
            Action::Fit => t.fit,
            Action::Fullscreen => t.fullscreen,
            Action::ToggleTheme => t.toggle_theme,
            Action::ToggleSidebar => t.toggle_sidebar,
            Action::ToggleInfo => t.toggle_info,
            Action::ToggleSlideshow => t.toggle_slideshow,
            Action::SlideshowFaster => t.slideshow_faster,
            Action::SlideshowSlower => t.slideshow_slower,
            Action::EditShortcuts => t.edit_shortcuts,
            Action::SetDefaultViewer => t.set_default_viewer,
            Action::Edit => t.edit,
            Action::SaveCopy => t.save_copy,
            Action::SaveAs => t.save_as,
            Action::CancelEdit => t.cancel_edit,
            Action::ResetEdit => t.reset_edit,
            Action::ApplyCrop => t.apply_crop,
            Action::SetLangEs => "🌐 ES",
            Action::SetLangEn => "🌐 EN",
        }
    }

    /// The shortcut the action has by default.
    pub fn default_shortcut(self) -> (r: Option<KeyBinding>)
        ensures
            r == default_shortcut_spec(self),
    {
        match self {
            Action::Open => Some(KeyBinding::new(KeyCode::KeyO, Modifiers::Ctrl)),
            Action::Prev => Some(KeyBinding::new(KeyCode::ArrowLeft, Modifiers::Plain)),
            Action::Next => Some(KeyBinding::new(KeyCode::ArrowRight, Modifiers::Plain)),
            Action::RotateCw => Some(KeyBinding::new(KeyCode::CloseBracket, Modifiers::Ctrl)),
            Action::RotateCcw => Some(KeyBinding::new(KeyCode::OpenBracket, Modifiers::Ctrl)),
            Action::Fit => Some(KeyBinding::new(KeyCode::KeyF, Modifiers::Plain)),
            Action::Fullscreen => Some(KeyBinding::new(KeyCode::F11, Modifiers::Plain)),
            Action::ToggleTheme => Some(KeyBinding::new(KeyCode::KeyT, Modifiers::Ctrl)),
            Action::ToggleSidebar => Some(KeyBinding::new(KeyCode::KeyH, Modifiers::Plain)),
            Action::ToggleInfo => Some(KeyBinding::new(KeyCode::KeyI, Modifiers::Plain)),
            Action::ToggleSlideshow => Some(KeyBinding::new(KeyCode::KeyF5, Modifiers::Plain)),
            Action::SlideshowFaster => Some(KeyBinding::new(KeyCode::Comma, Modifiers::Plain)),
            Action::SlideshowSlower => Some(KeyBinding::new(KeyCode::Period, Modifiers::Plain)),
            Action::EditShortcuts => Some(KeyBinding::new(KeyCode::KeyK, Modifiers::Ctrl)),
            Action::SetDefaultViewer => None,
            Action::Edit => None,
            Action::SaveCopy => None,
            Action::SaveAs => None,
            Action::CancelEdit => None,
            Action::ResetEdit => None,
            Action::ApplyCrop => None,
            Action::SetLangEs => None,
            Action::SetLangEn => None,
        }
    }

    /// Every action, in menu order.
    pub fn all() -> (r: [Action; 23])
        ensures
            r@ == all_spec(),
    {
        let r = [
            Action::Open,
            Action::Prev,
            Action::Next,
            Action::RotateCw,
            Action::RotateCcw,
            Action::Fit,
            Action::Fullscreen,
            Action::ToggleTheme,
            Action::ToggleSidebar,
            Action::ToggleInfo,
            Action::ToggleSlideshow,
            Action::SlideshowFaster,
            Action::SlideshowSlower,
            Action::EditShortcuts,
            Action::SetDefaultViewer,
            Action::Edit,
            Action::SaveCopy,
            Action::SaveAs,
            Action::CancelEdit,
            Action::ResetEdit,
            Action::ApplyCrop,
            Action::SetLangEs,
            Action::SetLangEn,
        ];
        assert(r@ =~= all_spec());
        r
    }
}

/// Law: `Action::all` lists every action exactly once.
pub proof fn law_all_lists_each_action_once()
    ensures
        all_spec().len() == 23,
        forall|a: Action| #[trigger] all_spec().contains(a),
        forall|i: int, j: int|
            0 <= i < all_spec().len() && 0 <= j < all_spec().len() && i != j ==> all_spec()[i]
                != all_spec()[j],
{
    let s = all_spec();
    assert forall|a: Action| #[trigger] s.contains(a) by {
        match a {
            Action::Open => assert(s[0] == a),
            Action::Prev => assert(s[1] == a),
            Action::Next => assert(s[2] == a),
            Action::RotateCw => assert(s[3] == a),
            Action::RotateCcw => assert(s[4] == a),
            Action::Fit => assert(s[5] == a),
            Action::Fullscreen => assert(s[6] == a),
            Action::ToggleTheme => assert(s[7] == a),
            Action::ToggleSidebar => assert(s[8] == a),
            Action::ToggleInfo => assert(s[9] == a),
            Action::ToggleSlideshow => assert(s[10] == a),
            Action::SlideshowFaster => assert(s[11] == a),
            Action::SlideshowSlower => assert(s[12] == a),
            Action::EditShortcuts => assert(s[13] == a),
            Action::SetDefaultViewer => assert(s[14] == a),
            Action::Edit => assert(s[15] == a),
            Action::SaveCopy => assert(s[16] == a),
            Action::SaveAs => assert(s[17] == a),
            Action::CancelEdit => assert(s[18] == a),
            Action::ResetEdit => assert(s[19] == a),
            Action::ApplyCrop => assert(s[20] == a),
            Action::SetLangEs => assert(s[21] == a),
            Action::SetLangEn => assert(s[22] == a),
        }
    }
}

/// Law: no two actions share a default shortcut, and the actions without
/// one are exactly those that only the interface reaches.
pub proof fn law_default_shortcuts_distinct(a: Action, b: Action)
    ensures
        a != b && default_shortcut_spec(a) is Some ==> default_shortcut_spec(a)
            != default_shortcut_spec(b),
        default_shortcut_spec(a) is None <==> (a == Action::SetDefaultViewer || a == Action::Edit
            || a == Action::SaveCopy || a == Action::SaveAs || a == Action::CancelEdit || a
            == Action::ResetEdit || a == Action::ApplyCrop || a == Action::SetLangEs || a
            == Action::SetLangEn),
{
}

/// Law: every action has a label in every language: none is empty.
pub proof fn law_labels_not_empty(a: Action, lang: Language)
    ensures
        label_spec(a, lang)@.len() > 0,
{
    reveal_strlit("Abrir");
    reveal_strlit("Anterior");
    reveal_strlit("Siguiente");
    reveal_strlit("Rotar 90° CW");
    reveal_strlit("Rotar 90° CCW");
    reveal_strlit("Ajustar a la ventana");
    reveal_strlit("Pantalla completa");
    reveal_strlit("Cambiar tema");
    reveal_strlit("Barra lateral");
    reveal_strlit("Información");
    reveal_strlit("Slideshow");
    reveal_strlit("Slideshow más rápido");
    reveal_strlit("Slideshow más lento");
    reveal_strlit("Configurar atajos");
    reveal_strlit("Establecer como predeterminado");
    reveal_strlit("Editar");
    reveal_strlit("Guardar copia");
    reveal_strlit("Guardar como");
    reveal_strlit("Cancelar edición");
    reveal_strlit("Restablecer");
    reveal_strlit("Aplicar recorte");
    reveal_strlit("Open");
    reveal_strlit("Previous");
    reveal_strlit("Next");
    reveal_strlit("Rotate 90° CW");
    reveal_strlit("Rotate 90° CCW");
    reveal_strlit("Fit to window");
    reveal_strlit("Fullscreen");
    reveal_strlit("Toggle theme");
    reveal_strlit("Sidebar");
    reveal_strlit("Info");
    reveal_strlit("Slideshow faster");
    reveal_strlit("Slideshow slower");
    reveal_strlit("Configure shortcuts");
    reveal_strlit("Set as default viewer");
    reveal_strlit("Edit");
    reveal_strlit("Save copy");
    reveal_strlit("Save as");
    reveal_strlit("Cancel edit");
    reveal_strlit("Reset");
    reveal_strlit("Apply crop");
    reveal_strlit("🌐 ES");
    reveal_strlit("🌐 EN");
}

} // verus!
