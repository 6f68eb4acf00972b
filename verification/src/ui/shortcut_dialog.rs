//! The shortcut editor dialog: which action waits for a new key, and the
//! error shown after a refused key. Drawing the dialog and reading the keys
//! is done by the program.
use crate::utils::text::push_str;
use crate::viewer_core::actions::{label_spec, Action};
use crate::viewer_core::lang::{translations_spec, Language};
use crate::viewer_core::shortcuts::{
    action_in, without_action, KeyBinding, ShortcutError, ShortcutMap,
};
use vstd::prelude::*;

verus! {

#[derive(Debug)]
pub struct ShortcutDialog {
    pub open: bool,
    /// The action whose new key is awaited.
    pub capture_for: Option<Action>,
    /// The message about the last refused key.
    pub error: Option<String>,
}

impl Default for ShortcutDialog {
    fn default() -> (r: Self)
        ensures
            !r.open && r.capture_for is None && r.error is None,
    {
        ShortcutDialog { open: false, capture_for: None, error: None }
    }
}

/// The message when the key is already bound to `other`:
/// `<conflict_prefix> «<label of other>» <conflict_suffix>`.
pub open spec fn conflict_text(other: Action, lang: Language) -> Seq<char> {
    translations_spec(lang).conflict_prefix@ + " \u{ab}"@ + label_spec(other, lang)@ + "\u{bb} "@
        + translations_spec(lang).conflict_suffix@
}

/// The prompt while waiting for the key of `action`:
/// `<capture_prefix> «<label>» (Esc <capture_suffix>)`.
pub open spec fn capture_text(action: Action, lang: Language) -> Seq<char> {
    translations_spec(lang).capture_prefix@ + " \u{ab}"@ + label_spec(action, lang)@
        + "\u{bb} (Esc "@ + translations_spec(lang).capture_suffix@ + ")"@
}

impl ShortcutDialog {
    /// The user chose to change the key of `action`: its new key is awaited
    /// and the last error is cleared.
    pub fn start_capture(&mut self, action: Action)
        ensures
            final(self).open == old(self).open,
            final(self).capture_for == Some(action),
            final(self).error is None,
    {
        self.capture_for = Some(action);
        self.error = None;
    }

    /// The user pressed Escape while a key was awaited: nothing changes but
    /// the wait and the error, which end.
    pub fn cancel_capture(&mut self)
        ensures
            final(self).open == old(self).open,
            final(self).capture_for is None,
            final(self).error is None,
    {
        self.capture_for = None;
        self.error = None;
    }

    /// The user pressed `binding` while the key of an action was awaited: it
    /// is assigned unless another action uses it, in which case the error
    /// names that action. Returns whether the shortcuts changed. Does nothing
    /// when no key is awaited.
    pub fn capture(&mut self, shortcuts: &mut ShortcutMap, binding: KeyBinding, lang: Language) -> (changed: bool)
        requires
            old(shortcuts).wf(),
        ensures
            final(shortcuts).wf(),
            final(self).open == old(self).open,
            match old(self).capture_for {
                None => !changed && *final(shortcuts) == *old(shortcuts) && final(self).capture_for
                    is None && final(self).error == old(self).error,
                Some(action) => match action_in(old(shortcuts).view_entries(), binding) {
                    Some(other) => if other != action {
                        &&& !changed
                        &&& *final(shortcuts) == *old(shortcuts)
                        &&& final(self).capture_for is None
                        &&& final(self).error matches Some(e) && e@ == conflict_text(other, lang)
                    } else {
                        &&& changed
                        &&& *final(shortcuts) == *old(shortcuts)
                        &&& final(self).capture_for is None
                        &&& final(self).error is None
                    },
                    None => {
                        &&& changed
                        &&& final(shortcuts).view_entries() == without_action(
                            old(shortcuts).view_entries(),
                            action,
                        ).push((action, binding))
                        &&& final(self).capture_for is None
                        &&& final(self).error is None
                    },
                },
            },
    {
        let action = match self.capture_for {
            Some(a) => a,
            None => return false,
        };
        match shortcuts.assign(action, binding) {
            Ok(()) => {
                self.capture_for = None;
                self.error = None;
                true
            },
            Err(ShortcutError::Conflict(other)) => {
                let t = lang.translations();
                let mut msg = String::from_str(t.conflict_prefix);
                push_str(&mut msg, " \u{ab}");
                push_str(&mut msg, other.label(lang));
                push_str(&mut msg, "\u{bb} ");
                push_str(&mut msg, t.conflict_suffix);
                self.error = Some(msg);
                self.capture_for = None;
                false
            },
        }
    }

    /// The user asked to restore every default shortcut. Returns that the
    /// shortcuts changed.
    pub fn reset_all(&mut self, shortcuts: &mut ShortcutMap) -> (changed: bool)
        ensures
            changed,
            final(shortcuts).wf(),
            final(shortcuts).view_entries() == crate::viewer_core::shortcuts::default_entries(),
            final(self).open == old(self).open,
            final(self).capture_for == old(self).capture_for,
            final(self).error == old(self).error,
    {
        shortcuts.reset();
        true
    }

    /// The prompt shown while the key of `action` is awaited.
    pub fn capture_prompt(action: Action, lang: Language) -> (r: String)
        ensures
            r@ == capture_text(action, lang),
    {
        let t = lang.translations();
        let mut s = String::from_str(t.capture_prefix);
        push_str(&mut s, " \u{ab}");
        push_str(&mut s, action.label(lang));
        push_str(&mut s, "\u{bb} (Esc ");
        push_str(&mut s, t.capture_suffix);
        push_str(&mut s, ")");
        s
    }
}

} // verus!
