//! Configurable keyboard shortcuts.
use crate::viewer_core::actions::{default_shortcut_spec, Action};
use vstd::prelude::*;

verus! {

/// The key of a shortcut (the subset of keys the viewer binds).
#[derive(Debug, Clone, Copy, PartialEq, Eq, Hash, PartialOrd, Ord, Structural)]
pub enum KeyCode {
    ArrowLeft,
    ArrowRight,
    KeyF,
    KeyH,
    KeyI,
    KeyK,
    KeyO,
    KeyT,
    OpenBracket,
    CloseBracket,
    F11,
    KeyF5,
    Comma,
    Period,
}

/// The modifiers held with the key of a shortcut.
#[derive(Debug, Clone, Copy, PartialEq, Eq, Hash, PartialOrd, Ord, Structural)]
pub enum Modifiers {
    /// No modifier.
    Plain,
    /// Ctrl.
    Ctrl,
    /// Ctrl + Shift.
    CtrlShift,
}

/// A key with its modifiers.
#[derive(Debug, Clone, Copy, PartialEq, Eq, Hash, PartialOrd, Ord, Structural)]
pub struct KeyBinding {
    pub key: KeyCode,
    pub modifiers: Modifiers,
}

impl KeyBinding {
    /// The binding of `key` with `modifiers`.
    pub fn new(key: KeyCode, modifiers: Modifiers) -> (r: Self)
        ensures
            r.key == key,
            r.modifiers == modifiers,
    {
        Self { key, modifiers }
    }
}

/// The modifiers that a key press with these modifier keys held stands for:
/// Ctrl+Shift, Ctrl, or none (Shift alone counts as none).
pub fn modifiers_from(ctrl: bool, shift: bool) -> (r: Modifiers)
    ensures
        r == (if ctrl {
            if shift {
                Modifiers::CtrlShift
            } else {
                Modifiers::Ctrl
            }
        } else {
            Modifiers::Plain
        }),
{
    if ctrl {
        if shift {
            Modifiers::CtrlShift
        } else {
            Modifiers::Ctrl
        }
    } else {
        Modifiers::Plain
    }
}

/// Why a binding could not be assigned.
#[derive(Debug, Clone, Copy, PartialEq, Eq, Structural)]
pub enum ShortcutError {
    /// Another action already uses the binding.
    Conflict(Action),
}

/// The binding of `a` in `s`: that of the first entry for `a`.
pub open spec fn binding_in(s: Seq<(Action, KeyBinding)>, a: Action) -> Option<KeyBinding>
    decreases s.len(),
{
    if s.len() == 0 {
        None
    } else if s[0].0 == a {
        Some(s[0].1)
    } else {
        binding_in(s.drop_first(), a)
    }
}

/// The action bound to `b` in `s`: that of the first entry with `b`.
pub open spec fn action_in(s: Seq<(Action, KeyBinding)>, b: KeyBinding) -> Option<Action>
    decreases s.len(),
{
    if s.len() == 0 {
        None
    } else if s[0].1 == b {
        Some(s[0].0)
    } else {
        action_in(s.drop_first(), b)
    }
}

/// No action and no binding occurs twice.
pub open spec fn one_to_one(s: Seq<(Action, KeyBinding)>) -> bool {
    forall|i: int, j: int|
        0 <= i < s.len() && 0 <= j < s.len() && i != j ==> s[i].0 != s[j].0 && s[i].1 != s[j].1
}

/// The default bindings, in the order of `Action::all`.
pub open spec fn default_entries() -> Seq<(Action, KeyBinding)> {
    seq![
        (Action::Open, KeyBinding { key: KeyCode::KeyO, modifiers: Modifiers::Ctrl }),
        (Action::Prev, KeyBinding { key: KeyCode::ArrowLeft, modifiers: Modifiers::Plain }),
        (Action::Next, KeyBinding { key: KeyCode::ArrowRight, modifiers: Modifiers::Plain }),
        (Action::RotateCw, KeyBinding { key: KeyCode::CloseBracket, modifiers: Modifiers::Ctrl }),
        (Action::RotateCcw, KeyBinding { key: KeyCode::OpenBracket, modifiers: Modifiers::Ctrl }),
        (Action::Fit, KeyBinding { key: KeyCode::KeyF, modifiers: Modifiers::Plain }),
        (Action::Fullscreen, KeyBinding { key: KeyCode::F11, modifiers: Modifiers::Plain }),
        (Action::ToggleTheme, KeyBinding { key: KeyCode::KeyT, modifiers: Modifiers::Ctrl }),
        (Action::ToggleSidebar, KeyBinding { key: KeyCode::KeyH, modifiers: Modifiers::Plain }),
        (Action::ToggleInfo, KeyBinding { key: KeyCode::KeyI, modifiers: Modifiers::Plain }),
        (Action::ToggleSlideshow, KeyBinding { key: KeyCode::KeyF5, modifiers: Modifiers::Plain }),
        (Action::SlideshowFaster, KeyBinding { key: KeyCode::Comma, modifiers: Modifiers::Plain }),
        (Action::SlideshowSlower, KeyBinding { key: KeyCode::Period, modifiers: Modifiers::Plain }),
        (Action::EditShortcuts, KeyBinding { key: KeyCode::KeyK, modifiers: Modifiers::Ctrl }),
    ]
}

/// The bindings in use: each action has at most one binding and each binding
/// triggers at most one action.
#[derive(Debug, Clone, PartialEq, Eq)]
pub struct ShortcutMap {
    entries: Vec<(Action, KeyBinding)>,
}

impl ShortcutMap {
    /// The `(action, binding)` pairs.
    pub closed spec fn view_entries(&self) -> Seq<(Action, KeyBinding)> {
        self.entries@
    }

    /// The map's invariant.
    pub open spec fn wf(&self) -> bool {
        one_to_one(self.view_entries())
    }

    /// The default bindings of every action that has one.
    pub fn defaults() -> (r: Self)
        ensures
            r.wf(),
            r.view_entries() == default_entries(),
            forall|a: Action| #[trigger] binding_in(r.view_entries(), a) == default_shortcut_spec(a),
    {
        let entries = vec![
            (Action::Open, KeyBinding::new(KeyCode::KeyO, Modifiers::Ctrl)),
            (Action::Prev, KeyBinding::new(KeyCode::ArrowLeft, Modifiers::Plain)),
            (Action::Next, KeyBinding::new(KeyCode::ArrowRight, Modifiers::Plain)),
            (Action::RotateCw, KeyBinding::new(KeyCode::CloseBracket, Modifiers::Ctrl)),
            (Action::RotateCcw, KeyBinding::new(KeyCode::OpenBracket, Modifiers::Ctrl)),
            (Action::Fit, KeyBinding::new(KeyCode::KeyF, Modifiers::Plain)),
            (Action::Fullscreen, KeyBinding::new(KeyCode::F11, Modifiers::Plain)),
            (Action::ToggleTheme, KeyBinding::new(KeyCode::KeyT, Modifiers::Ctrl)),
            (Action::ToggleSidebar, KeyBinding::new(KeyCode::KeyH, Modifiers::Plain)),
            (Action::ToggleInfo, KeyBinding::new(KeyCode::KeyI, Modifiers::Plain)),
            (Action::ToggleSlideshow, KeyBinding::new(KeyCode::KeyF5, Modifiers::Plain)),
            (Action::SlideshowFaster, KeyBinding::new(KeyCode::Comma, Modifiers::Plain)),
            (Action::SlideshowSlower, KeyBinding::new(KeyCode::Period, Modifiers::Plain)),
            (Action::EditShortcuts, KeyBinding::new(KeyCode::KeyK, Modifiers::Ctrl)),
        ];
        let r = ShortcutMap { entries };
        proof {
            let d = default_entries();
            assert(r.view_entries() =~= d);
            assert forall|a: Action| #[trigger] binding_in(d, a) == default_shortcut_spec(a) by {
                reveal_with_fuel(binding_in, 15);
            }
        }
        r
    }

    /// The binding of `action`, if it has one.
    pub fn get(&self, action: Action) -> (r: Option<KeyBinding>)
        ensures
            r == binding_in(self.view_entries(), action),
    {
        let mut i: usize = 0;
        assert(self.entries@.skip(0) =~= self.entries@);
        while i < self.entries.len()
            invariant
                i <= self.entries@.len(),
                binding_in(self.entries@, action) == binding_in(self.entries@.skip(i as int), action),
            decreases self.entries@.len() - i,
        {
            let (a, b) = self.entries[i];
            proof {
                assert(self.entries@.skip(i as int).drop_first() =~= self.entries@.skip(i + 1));
            }
            if a == action {
                return Some(b);
            }
            i = i + 1;
        }
        assert(self.entries@.skip(i as int) =~= Seq::<(Action, KeyBinding)>::empty());
        None
    }

    /// The action that `binding` triggers, if any.
    pub fn action_for(&self, binding: KeyBinding) -> (r: Option<Action>)
        ensures
            r == action_in(self.view_entries(), binding),
    {
        let mut i: usize = 0;
        assert(self.entries@.skip(0) =~= self.entries@);
        while i < self.entries.len()
            invariant
                i <= self.entries@.len(),
                action_in(self.entries@, binding) == action_in(self.entries@.skip(i as int), binding),
            decreases self.entries@.len() - i,
        {
            let (a, b) = self.entries[i];
            proof {
                assert(self.entries@.skip(i as int).drop_first() =~= self.entries@.skip(i + 1));
            }
            if b == binding {
                return Some(a);
            }
            i = i + 1;
        }
        assert(self.entries@.skip(i as int) =~= Seq::<(Action, KeyBinding)>::empty());
        None
    }

    /// Binds `binding` to `action`, replacing the action's previous binding.
    /// Fails, changing nothing, when another action already uses `binding`.
    pub fn assign(&mut self, action: Action, binding: KeyBinding) -> (r: Result<(), ShortcutError>)
        requires
            old(self).wf(),
        ensures
            final(self).wf(),
            match action_in(old(self).view_entries(), binding) {
                Some(other) => if other != action {
                    r == Err::<(), ShortcutError>(ShortcutError::Conflict(other)) && *final(self)
                        == *old(self)
                } else {
                    r is Ok && *final(self) == *old(self)
                },
                None => r is Ok && final(self).view_entries() == without_action(
                    old(self).view_entries(),
                    action,
                ).push((action, binding)),
            },
    {
        match self.action_for(binding) {
            Some(other) => {
                if other != action {
                    return Err(ShortcutError::Conflict(other));
                }
                return Ok(());
            },
            None => {},
        }
        let ghost s0 = self.entries@;
        let mut kept: Vec<(Action, KeyBinding)> = Vec::new();
        let mut i: usize = 0;
        while i < self.entries.len()
            invariant
                i <= self.entries@.len(),
                self.entries@ == s0,
                kept@ == without_action(s0.take(i as int), action),
            decreases self.entries@.len() - i,
        {
            let e = self.entries[i];
            proof {
                assert(s0.take(i + 1).drop_last() =~= s0.take(i as int));
            }
            if e.0 != action {
                kept.push(e);
            }
            i = i + 1;
        }
        proof {
            assert(s0.take(i as int) =~= s0);
            lemma_without_action_sub(s0, action);
            lemma_action_in_absent(s0, binding);
            let n = kept@.push((action, binding));
            assert forall|i: int, j: int|
                0 <= i < n.len() && 0 <= j < n.len() && i != j implies n[i].0 != n[j].0 && n[i].1
                != n[j].1 by {
                if i < kept@.len() && j < kept@.len() {
                } else if i == kept@.len() {
                    assert(kept@.contains(n[j]));
                } else {
                    assert(kept@.contains(n[i]));
                }
            }
        }
        kept.push((action, binding));
        self.entries = kept;
        Ok(())
    }

    /// The `(action, binding)` pairs, in the order they were assigned.
    pub fn entries(&self) -> (r: Vec<(Action, KeyBinding)>)
        ensures
            r@ == self.view_entries(),
    {
        let mut r: Vec<(Action, KeyBinding)> = Vec::new();
        let mut i: usize = 0;
        while i < self.entries.len()
            invariant
                i <= self.entries@.len(),
                r@ == self.entries@.take(i as int),
            decreases self.entries@.len() - i,
        {
            r.push(self.entries[i]);
            proof {
                assert(self.entries@.take(i + 1) =~= self.entries@.take(i as int).push(
                    self.entries@[i as int],
                ));
            }
            i = i + 1;
        }
        assert(self.entries@.take(i as int) =~= self.entries@);
        r
    }

    /// The map holding exactly `entries`, when no action and no binding
    /// occurs twice in them; `None` otherwise.
    pub fn from_entries(entries: Vec<(Action, KeyBinding)>) -> (r: Option<Self>)
        ensures
            r is Some <==> one_to_one(entries@),
            r matches Some(m) ==> m.wf() && m.view_entries() == entries@,
    {
        let n = entries.len();
        let mut i: usize = 0;
        while i < n
            invariant
                n == entries@.len(),
                i <= n,
                forall|a: int, b: int|
                    0 <= a < i && 0 <= b < n && a != b ==> entries@[a].0 != entries@[b].0
                        && entries@[a].1 != entries@[b].1,
            decreases n - i,
        {
            let mut j: usize = 0;
            while j < n
                invariant
                    n == entries@.len(),
                    i < n,
                    j <= n,
                    forall|b: int|
                        0 <= b < j && b != i ==> entries@[i as int].0 != entries@[b].0
                            && entries@[i as int].1 != entries@[b].1,
                decreases n - j,
            {
                if j != i && (entries[i].0 == entries[j].0 || entries[i].1 == entries[j].1) {
                    return None;
                }
                j = j + 1;
            }
            i = i + 1;
        }
        Some(ShortcutMap { entries })
    }

    /// Restores the default bindings.
    pub fn reset(&mut self)
        ensures
            final(self).wf(),
            final(self).view_entries() == default_entries(),
    {
        *self = Self::defaults();
    }
}

/// `s` without the entries for `a`.
pub open spec fn without_action(s: Seq<(Action, KeyBinding)>, a: Action) -> Seq<(Action, KeyBinding)>
    decreases s.len(),
{
    if s.len() == 0 {
        s
    } else if s.last().0 == a {
        without_action(s.drop_last(), a)
    } else {
        without_action(s.drop_last(), a).push(s.last())
    }
}

/// Dropping the entries of `a` keeps a one-to-one list one-to-one, keeps
/// only entries of `s`, and leaves no entry for `a`.
proof fn lemma_without_action_sub(s: Seq<(Action, KeyBinding)>, a: Action)
    requires
        one_to_one(s),
    ensures
        one_to_one(without_action(s, a)),
        forall|e: (Action, KeyBinding)| #[trigger] without_action(s, a).contains(e) ==> s.contains(e) && e.0 != a,
    decreases s.len(),
{
    if s.len() > 0 {
        let t = s.drop_last();
        assert(one_to_one(t)) by {
            assert forall|i: int, j: int|
                0 <= i < t.len() && 0 <= j < t.len() && i != j implies t[i].0 != t[j].0 && t[i].1
                != t[j].1 by {
                assert(t[i] == s[i] && t[j] == s[j]);
            }
        }
        lemma_without_action_sub(t, a);
        let w = without_action(t, a);
        assert forall|e: (Action, KeyBinding)| #[trigger] w.contains(e) implies s.contains(e) by {
            let k = choose|k: int| 0 <= k < t.len() && t[k] == e;
            assert(s[k] == e);
        }
        if s.last().0 != a {
            let n = w.push(s.last());
            assert forall|i: int, j: int|
                0 <= i < n.len() && 0 <= j < n.len() && i != j implies n[i].0 != n[j].0 && n[i].1
                != n[j].1 by {
                if i < w.len() && j < w.len() {
                    assert(n[i] == w[i] && n[j] == w[j]);
                } else {
                    let other = if i < w.len() { i } else { j };
                    assert(w.contains(n[other]));
                    let k = choose|k: int| 0 <= k < t.len() && t[k] == n[other];
                    assert(s[k] == n[other]);
                    assert(s[s.len() - 1] == s.last());
                }
            }
            assert forall|e: (Action, KeyBinding)| #[trigger] n.contains(e) implies s.contains(e)
                && e.0 != a by {
                let k = choose|k: int| 0 <= k < n.len() && n[k] == e;
                if k < w.len() {
                    assert(w.contains(e));
                } else {
                    assert(s[s.len() - 1] == e);
                }
            }
        }
    }
}

/// When no entry has binding `b`, no entry of `s` equals one with `b`.
proof fn lemma_action_in_absent(s: Seq<(Action, KeyBinding)>, b: KeyBinding)
    requires
        action_in(s, b) is None,
    ensures
        forall|i: int| 0 <= i < s.len() ==> s[i].1 != b,
    decreases s.len(),
{
    if s.len() > 0 {
        lemma_action_in_absent(s.drop_first(), b);
        assert forall|i: int| 0 <= i < s.len() implies s[i].1 != b by {
            if i > 0 {
                assert(s[i] == s.drop_first()[i - 1]);
            }
        }
    }
}


/// Looking up a binding that only the appended entry may have finds it
/// there.
proof fn lemma_action_in_push(t: Seq<(Action, KeyBinding)>, e: (Action, KeyBinding), b: KeyBinding)
    requires
        forall|i: int| 0 <= i < t.len() ==> t[i].1 != b,
    ensures
        action_in(t.push(e), b) == (if e.1 == b {
            Some(e.0)
        } else {
            None::<Action>
        }),
    decreases t.len(),
{
    if t.len() > 0 {
        assert(t.push(e)[0] == t[0]);
        assert(t.push(e).drop_first() =~= t.drop_first().push(e));
        assert forall|i: int| 0 <= i < t.drop_first().len() implies t.drop_first()[i].1 != b by {
            assert(t.drop_first()[i] == t[i + 1]);
        }
        lemma_action_in_push(t.drop_first(), e, b);
        assert(t[0].1 != b);
    } else {
        assert(t.push(e).drop_first() =~= Seq::<(Action, KeyBinding)>::empty());
        assert(action_in(t.push(e).drop_first(), b) is None);
    }
}

/// Looking up an action that only the appended entry may have finds it
/// there.
proof fn lemma_binding_in_push(t: Seq<(Action, KeyBinding)>, e: (Action, KeyBinding), a: Action)
    requires
        forall|i: int| 0 <= i < t.len() ==> t[i].0 != a,
    ensures
        binding_in(t.push(e), a) == (if e.0 == a {
            Some(e.1)
        } else {
            None::<KeyBinding>
        }),
    decreases t.len(),
{
    if t.len() > 0 {
        assert(t.push(e)[0] == t[0]);
        assert(t.push(e).drop_first() =~= t.drop_first().push(e));
        assert forall|i: int| 0 <= i < t.drop_first().len() implies t.drop_first()[i].0 != a by {
            assert(t.drop_first()[i] == t[i + 1]);
        }
        lemma_binding_in_push(t.drop_first(), e, a);
        assert(t[0].0 != a);
    } else {
        assert(t.push(e).drop_first() =~= Seq::<(Action, KeyBinding)>::empty());
        assert(binding_in(t.push(e).drop_first(), a) is None);
    }
}

/// Law: once `binding` is assigned to `action` (when no action used it),
/// the binding triggers `action` and `action` has that binding.
pub proof fn law_assign_then_lookup(s: Seq<(Action, KeyBinding)>, action: Action, binding: KeyBinding)
    requires
        one_to_one(s),
        action_in(s, binding) is None,
    ensures
        action_in(without_action(s, action).push((action, binding)), binding) == Some(action),
        binding_in(without_action(s, action).push((action, binding)), action) == Some(binding),
{
    lemma_without_action_sub(s, action);
    lemma_action_in_absent(s, binding);
    let w = without_action(s, action);
    assert forall|i: int| 0 <= i < w.len() implies w[i].1 != binding && w[i].0 != action by {
        assert(w.contains(w[i]));
        let k = choose|k: int| 0 <= k < s.len() && s[k] == w[i];
        assert(s[k].1 != binding);
    }
    lemma_action_in_push(w, (action, binding), binding);
    lemma_binding_in_push(w, (action, binding), action);
}

} // verus!
