//! The viewer's session: the folder being browsed, which panels and dialogs
//! are open, the slideshow and the editor. Each user action changes the
//! session and yields the effects that the program then carries out
//! (decoding, drawing, writing the settings).
use crate::config::settings::Settings;
use crate::ui::theme::{toggle, toggle_spec};
use crate::utils::text::str_eq;
use crate::viewer_core::actions::Action;
use crate::viewer_core::lang::Language;
use crate::viewer_core::navigation::{law_next_prev_roundtrip, views, Navigation};
use crate::viewer_core::shortcuts::KeyBinding;
use crate::viewer_core::slideshow::{
    duration_nanos, elapsed_reached, faster, faster_spec, interval_from_setting, interval_setting,
    interval_setting_spec, max_duration_nanos, slower, slower_spec, can_double,
};
use std::time::Duration;
use vstd::prelude::*;

verus! {

/// Work that a decision of the session asks the program to do.
#[derive(Debug, Clone, Copy, PartialEq, Eq, Structural)]
pub enum Effect {
    /// Ask the user for an image to open.
    PickFile,
    /// Show the current image of the folder (from the cache, or decode it).
    ShowCurrent,
    /// Rotate the view a quarter turn, clockwise when `true`.
    Rotate(bool),
    /// Fit the image to the window.
    FitView,
    /// Enter (`true`) or leave fullscreen.
    SetFullscreen(bool),
    /// Queue a thumbnail for every image of the folder.
    EnqueueThumbnails,
    /// Start timing the current slide from now.
    RestartSlideshowClock,
    /// Write the settings to disk.
    SaveSettings,
    /// Open the editor on the current image.
    StartEditing,
    /// Save the edited image next to the original, or where the user
    /// chooses when `true`.
    SaveEdit(bool),
    /// Close the editor, dropping the edits.
    StopEditing,
    /// Undo every edit.
    ResetEdit,
    /// Crop the edited image to the chosen rectangle.
    ApplyCrop,
    /// Forget the thumbnails, pending thumbnail work and metadata of the
    /// previous folder.
    ForgetFolder,
    /// Show the image that was just opened.
    ShowOpened,
}

/// What to do with a decoded (or failed) image that a loader reports.
#[derive(Debug, Clone, Copy, PartialEq, Eq, Structural)]
pub enum LoadVerdict {
    /// The user moved on: it is not the current image.
    Ignore,
    /// It is already on screen.
    AlreadyShown,
    /// Show it (it is in the cache unless it was too large for it).
    Show,
    /// Decoding failed: tell the user.
    Failed,
}

/// How to start showing an image.
#[derive(Debug, Clone, Copy, PartialEq, Eq, Structural)]
pub enum LoadPlan {
    /// It is decoded in the cache: show it now.
    FromCache,
    /// A loader is already decoding it: wait for it.
    AlreadyLoading,
    /// Start a loader.
    Decode,
}

/// The verdict on a loader's report for `event_path`, when `current` is the
/// current image and `last_shown` the one last put on screen.
pub open spec fn load_verdict_spec(
    current: Option<Seq<char>>,
    last_shown: Option<Seq<char>>,
    event_path: Seq<char>,
    decoded: bool,
) -> LoadVerdict {
    if current != Some(event_path) {
        LoadVerdict::Ignore
    } else if !decoded {
        LoadVerdict::Failed
    } else if last_shown == Some(event_path) {
        LoadVerdict::AlreadyShown
    } else {
        LoadVerdict::Show
    }
}

/// Decides what to do with a loader's report for `event_path` (`decoded`
/// tells whether it succeeded).
pub fn load_verdict(
    current: Option<&String>,
    last_shown: Option<&String>,
    event_path: &str,
    decoded: bool,
) -> (r: LoadVerdict)
    ensures
        r == load_verdict_spec(
            match current {
                Some(c) => Some(c@),
                None => None,
            },
            match last_shown {
                Some(l) => Some(l@),
                None => None,
            },
            event_path@,
            decoded,
        ),
{
    let is_current = match current {
        Some(c) => str_eq(c.as_str(), event_path),
        None => false,
    };
    if !is_current {
        return LoadVerdict::Ignore;
    }
    if !decoded {
        return LoadVerdict::Failed;
    }
    let already = match last_shown {
        Some(l) => str_eq(l.as_str(), event_path),
        None => false,
    };
    if already {
        LoadVerdict::AlreadyShown
    } else {
        LoadVerdict::Show
    }
}

/// How to show an image: from the cache when it is there, else by waiting
/// for the loader already decoding it, else by starting one.
pub fn load_plan(cached: bool, in_flight: bool) -> (r: LoadPlan)
    ensures
        r == (if cached {
            LoadPlan::FromCache
        } else if in_flight {
            LoadPlan::AlreadyLoading
        } else {
            LoadPlan::Decode
        }),
{
    if cached {
        LoadPlan::FromCache
    } else if in_flight {
        LoadPlan::AlreadyLoading
    } else {
        LoadPlan::Decode
    }
}

/// The session's state, as the decisions see it.
pub struct ViewerSession {
    /// The folder being browsed, once an image was opened.
    pub navigation: Option<Navigation>,
    /// An image is on screen.
    pub showing_image: bool,
    /// The editor is open.
    pub editing: bool,
    pub sidebar_open: bool,
    pub info_open: bool,
    pub fullscreen: bool,
    pub slideshow_active: bool,
    pub slideshow_interval: Duration,
    /// The user zoomed or panned since the image was fitted.
    pub user_interacted: bool,
    pub shortcut_dialog_open: bool,
    pub default_viewer_dialog_open: bool,
    pub settings: Settings,
    pub language: Language,
}

/// The abstract state of a session.
pub struct SessionView {
    /// The images of the folder and the index of the current one.
    pub nav: Option<(Seq<Seq<char>>, int)>,
    pub showing_image: bool,
    pub editing: bool,
    pub sidebar_open: bool,
    pub info_open: bool,
    pub fullscreen: bool,
    pub slideshow_active: bool,
    /// The slideshow interval in nanoseconds.
    pub interval: int,
    pub user_interacted: bool,
    pub shortcut_dialog_open: bool,
    pub default_viewer_dialog_open: bool,
    pub theme: Seq<char>,
    pub cache_memory_limit_mb: u64,
    pub shortcuts: Seq<(Action, KeyBinding)>,
    /// The slideshow interval kept in the settings, in seconds.
    pub interval_setting: int,
    pub language: Language,
}

impl View for ViewerSession {
    type V = SessionView;

    open spec fn view(&self) -> SessionView {
        SessionView {
            nav: match self.navigation {
                Some(n) => Some((views(n.images@), n.current as int)),
                None => None,
            },
            showing_image: self.showing_image,
            editing: self.editing,
            sidebar_open: self.sidebar_open,
            info_open: self.info_open,
            fullscreen: self.fullscreen,
            slideshow_active: self.slideshow_active,
            interval: duration_nanos(self.slideshow_interval) as int,
            user_interacted: self.user_interacted,
            shortcut_dialog_open: self.shortcut_dialog_open,
            default_viewer_dialog_open: self.default_viewer_dialog_open,
            theme: self.settings.theme@,
            cache_memory_limit_mb: self.settings.cache_memory_limit_mb,
            shortcuts: self.settings.shortcuts.view_entries(),
            interval_setting: self.settings.slideshow_interval_secs as int,
            language: self.language,
        }
    }
}

/// A folder's images and current index that navigation can work on: the
/// index is that of an image, or 0 when there is none.
pub open spec fn nav_ok(n: Navigation) -> bool {
    &&& n.images@.len() <= isize::MAX
    &&& (n.images@.len() == 0 ==> n.current == 0)
    &&& (n.images@.len() > 0 ==> n.current < n.images@.len())
}

/// The folder moved one image forward or back, wrapping around.
pub open spec fn step(nav: Option<(Seq<Seq<char>>, int)>, forward: bool) -> Option<
    (Seq<Seq<char>>, int),
> {
    match nav {
        Some((images, current)) => if images.len() == 0 {
            Some((images, current))
        } else if forward {
            Some((images, (current + 1) % (images.len() as int)))
        } else {
            Some((images, (current + images.len() - 1) % (images.len() as int)))
        },
        None => None,
    }
}

/// `ShowCurrent` when the folder has a current image, else nothing.
pub open spec fn show_current(nav: Option<(Seq<Seq<char>>, int)>) -> Seq<Effect> {
    match nav {
        Some((images, current)) => if 0 <= current < images.len() {
            seq![Effect::ShowCurrent]
        } else {
            seq![]
        },
        None => seq![],
    }
}

/// The session after the user's navigation to the next (`forward`) or the
/// previous image: the slideshow stops, and the new current image is shown.
/// Nothing happens while editing.
pub open spec fn navigate_spec(s: SessionView, forward: bool) -> (SessionView, Seq<Effect>) {
    if s.editing {
        (s, seq![])
    } else {
        let nav = step(s.nav, forward);
        (SessionView { slideshow_active: false, nav, ..s }, show_current(nav))
    }
}

/// The session after `action`, and the effects it asks for.
pub open spec fn dispatch_spec(s: SessionView, action: Action) -> (SessionView, Seq<Effect>) {
    match action {
        Action::Open => (s, seq![Effect::PickFile]),
        Action::Prev => navigate_spec(s, false),
        Action::Next => navigate_spec(s, true),
        Action::RotateCw => if s.showing_image {
            (SessionView { user_interacted: false, ..s }, seq![Effect::Rotate(true)])
        } else {
            (s, seq![])
        },
        Action::RotateCcw => if s.showing_image {
            (SessionView { user_interacted: false, ..s }, seq![Effect::Rotate(false)])
        } else {
            (s, seq![])
        },
        Action::Fit => if s.showing_image {
            (SessionView { user_interacted: false, ..s }, seq![Effect::FitView])
        } else {
            (s, seq![])
        },
        Action::Fullscreen => (
            SessionView { fullscreen: !s.fullscreen, ..s },
            seq![Effect::SetFullscreen(!s.fullscreen)],
        ),
        Action::ToggleTheme => (
            SessionView { theme: toggle_spec(s.theme), ..s },
            seq![Effect::SaveSettings],
        ),
        Action::ToggleSidebar => (
            SessionView { sidebar_open: !s.sidebar_open, ..s },
            if !s.sidebar_open && s.nav is Some {
                seq![Effect::EnqueueThumbnails]
            } else {
                seq![]
            },
        ),
        Action::ToggleInfo => (SessionView { info_open: !s.info_open, ..s }, seq![]),
        Action::ToggleSlideshow => (
            SessionView { slideshow_active: !s.slideshow_active, ..s },
            seq![Effect::RestartSlideshowClock],
        ),
        Action::SlideshowFaster => {
            let interval = faster_spec(s.interval);
            (
                SessionView {
                    interval,
                    interval_setting: interval_setting_spec(interval),
                    ..s
                },
                seq![Effect::SaveSettings, Effect::RestartSlideshowClock],
            )
        },
        Action::SlideshowSlower => {
            let interval = slower_spec(s.interval);
            (
                SessionView {
                    interval,
                    interval_setting: interval_setting_spec(interval),
                    ..s
                },
                seq![Effect::SaveSettings, Effect::RestartSlideshowClock],
            )
        },
        Action::EditShortcuts => (SessionView { shortcut_dialog_open: true, ..s }, seq![]),
        Action::SetDefaultViewer => (SessionView { default_viewer_dialog_open: true, ..s }, seq![]),
        Action::Edit => (s, seq![Effect::StartEditing]),
        Action::SaveCopy => (s, seq![Effect::SaveEdit(false)]),
        Action::SaveAs => (s, seq![Effect::SaveEdit(true)]),
        Action::CancelEdit => (SessionView { editing: false, ..s }, seq![Effect::StopEditing]),
        Action::ResetEdit => (s, seq![Effect::ResetEdit]),
        Action::ApplyCrop => (s, seq![Effect::ApplyCrop]),
        Action::SetLangEs => (SessionView { language: Language::Es, ..s }, seq![Effect::SaveSettings]),
        Action::SetLangEn => (SessionView { language: Language::En, ..s }, seq![Effect::SaveSettings]),
    }
}

impl ViewerSession {
    /// The session's invariant: the folder's index is valid.
    pub open spec fn wf(&self) -> bool {
        self.navigation matches Some(n) ==> nav_ok(n)
    }

    /// A session with nothing open, the given settings and language, and the
    /// slideshow at the interval of the settings (at least one second).
    pub fn new(settings: Settings, language: Language) -> (r: Self)
        ensures
            r.wf(),
            r@.nav is None,
            !r@.showing_image && !r@.editing && !r@.fullscreen,
            r@.sidebar_open && r@.info_open,
            !r@.slideshow_active,
            r@.interval == (if settings.slideshow_interval_secs < 1 {
                1
            } else {
                settings.slideshow_interval_secs
            }) * 1_000_000_000,
            !r@.user_interacted && !r@.shortcut_dialog_open && !r@.default_viewer_dialog_open,
            r.settings == settings,
            r@.language == language,
    {
        ViewerSession {
            navigation: None,
            showing_image: false,
            editing: false,
            sidebar_open: true,
            info_open: true,
            fullscreen: false,
            slideshow_active: false,
            slideshow_interval: interval_from_setting(settings.slideshow_interval_secs),
            user_interacted: false,
            shortcut_dialog_open: false,
            default_viewer_dialog_open: false,
            settings,
            language,
        }
    }

    /// `true` when the slideshow interval can be doubled (what
    /// `SlideshowSlower` does) without leaving the range of a `Duration`.
    pub fn can_slow_down(&self) -> (r: bool)
        ensures
            r == (duration_nanos(self.slideshow_interval) * 2 <= max_duration_nanos()),
    {
        can_double(self.slideshow_interval)
    }

    /// Stops the slideshow, as any navigation or view change by the user
    /// does.
    pub fn pause_slideshow(&mut self)
        ensures
            final(self)@ == (SessionView { slideshow_active: false, ..old(self)@ }),
            final(self).settings == old(self).settings,
            final(self).wf() == old(self).wf(),
    {
        self.slideshow_active = false;
    }

    /// Moves to the next or the previous image and asks to show it.
    fn navigate(&mut self, forward: bool) -> (r: Vec<Effect>)
        requires
            old(self).wf(),
        ensures
            final(self).wf(),
            final(self)@ == (SessionView { nav: step(old(self)@.nav, forward), ..old(self)@ }),
            r@ == show_current(final(self)@.nav),
    {
        let mut effects: Vec<Effect> = Vec::new();
        match &mut self.navigation {
            Some(nav) => {
                if forward {
                    nav.next();
                } else {
                    nav.prev();
                }
                if nav.current < nav.images.len() {
                    effects.push(Effect::ShowCurrent);
                }
            },
            None => {},
        }
        effects
    }

    /// Carries out the decisions of `action` and returns the effects that
    /// the program must perform, in order.
    #[verifier::spinoff_prover]
    #[verifier::rlimit(80)]
    pub fn dispatch(&mut self, action: Action) -> (r: Vec<Effect>)
        requires
            old(self).wf(),
            action == Action::SlideshowSlower ==> duration_nanos(old(self).slideshow_interval) * 2
                <= max_duration_nanos(),
        ensures
            final(self).wf(),
            (final(self)@, r@) == dispatch_spec(old(self)@, action),
    {
        match action {
            Action::Open => vec![Effect::PickFile],
            Action::Prev | Action::Next => {
                if self.editing {
                    return Vec::new();
                }
                self.pause_slideshow();
                self.navigate(action == Action::Next)
            },
            Action::RotateCw | Action::RotateCcw => {
                if !self.showing_image {
                    return Vec::new();
                }
                self.user_interacted = false;
                vec![Effect::Rotate(action == Action::RotateCw)]
            },
            Action::Fit => {
                if !self.showing_image {
                    return Vec::new();
                }
                self.user_interacted = false;
                vec![Effect::FitView]
            },
            Action::Fullscreen => {
                self.fullscreen = !self.fullscreen;
                vec![Effect::SetFullscreen(self.fullscreen)]
            },
            Action::ToggleTheme => {
                let next = toggle(self.settings.theme.as_str());
                self.settings.theme = String::from_str(next);
                vec![Effect::SaveSettings]
            },
            Action::ToggleSidebar => {
                self.sidebar_open = !self.sidebar_open;
                if self.sidebar_open && self.navigation.is_some() {
                    vec![Effect::EnqueueThumbnails]
                } else {
                    Vec::new()
                }
            },
            Action::ToggleInfo => {
                self.info_open = !self.info_open;
                Vec::new()
            },
            Action::ToggleSlideshow => {
                self.slideshow_active = !self.slideshow_active;
                vec![Effect::RestartSlideshowClock]
            },
            Action::SlideshowFaster | Action::SlideshowSlower => {
                self.slideshow_interval = if action == Action::SlideshowFaster {
                    faster(self.slideshow_interval)
                } else {
                    slower(self.slideshow_interval)
                };
                self.settings.slideshow_interval_secs = interval_setting(self.slideshow_interval);
                vec![Effect::SaveSettings, Effect::RestartSlideshowClock]
            },
            Action::EditShortcuts => {
                self.shortcut_dialog_open = true;
                Vec::new()
            },
            Action::SetDefaultViewer => {
                self.default_viewer_dialog_open = true;
                Vec::new()
            },
            Action::Edit => vec![Effect::StartEditing],
            Action::SaveCopy => vec![Effect::SaveEdit(false)],
            Action::SaveAs => vec![Effect::SaveEdit(true)],
            Action::CancelEdit => {
                self.editing = false;
                vec![Effect::StopEditing]
            },
            Action::ResetEdit => vec![Effect::ResetEdit],
            Action::ApplyCrop => vec![Effect::ApplyCrop],
            Action::SetLangEs => {
                self.language = Language::Es;
                vec![Effect::SaveSettings]
            },
            Action::SetLangEn => {
                self.language = Language::En;
                vec![Effect::SaveSettings]
            },
        }
    }

    /// Opens the folder `nav` (scanned around the image the user opened):
    /// the previous folder's thumbnails and metadata are forgotten, the new
    /// folder's thumbnails are queued and the opened image is shown.
    pub fn open_folder(&mut self, nav: Navigation) -> (r: Vec<Effect>)
        requires
            old(self).wf(),
            nav_ok(nav),
        ensures
            final(self).wf(),
            final(self)@ == (SessionView {
                nav: Some((views(nav.images@), nav.current as int)),
                ..old(self)@
            }),
            r@ == seq![Effect::ForgetFolder, Effect::EnqueueThumbnails, Effect::ShowOpened],
    {
        self.navigation = Some(nav);
        vec![Effect::ForgetFolder, Effect::EnqueueThumbnails, Effect::ShowOpened]
    }

    /// The user picked image `index` (in the sidebar): the slideshow stops
    /// and, when the folder has that image, it becomes the current one.
    pub fn navigate_to(&mut self, index: usize) -> (r: Vec<Effect>)
        requires
            old(self).wf(),
        ensures
            final(self).wf(),
            match old(self)@.nav {
                Some((images, _)) => if index < images.len() {
                    &&& final(self)@ == (SessionView {
                        slideshow_active: false,
                        nav: Some((images, index as int)),
                        ..old(self)@
                    })
                    &&& r@ == seq![Effect::ShowCurrent]
                } else {
                    final(self)@ == (SessionView { slideshow_active: false, ..old(self)@ })
                        && r@ == Seq::<Effect>::empty()
                },
                None => final(self)@ == (SessionView { slideshow_active: false, ..old(self)@ })
                    && r@ == Seq::<Effect>::empty(),
            },
    {
        self.pause_slideshow();
        match &mut self.navigation {
            Some(nav) => {
                if index >= nav.images.len() {
                    return Vec::new();
                }
                nav.current = index;
                vec![Effect::ShowCurrent]
            },
            None => Vec::new(),
        }
    }

    /// A frame of the slideshow, `elapsed` after the current slide started:
    /// once the interval is reached, the next image is shown and the clock
    /// restarts.
    pub fn tick(&mut self, elapsed: Duration) -> (r: Vec<Effect>)
        requires
            old(self).wf(),
        ensures
            final(self).wf(),
            if old(self)@.slideshow_active && old(self)@.nav is Some && duration_nanos(elapsed)
                >= old(self)@.interval {
                &&& final(self)@ == (SessionView { nav: step(old(self)@.nav, true), ..old(self)@ })
                &&& r@ == seq![Effect::RestartSlideshowClock] + show_current(final(self)@.nav)
            } else {
                final(self)@ == old(self)@ && r@ == Seq::<Effect>::empty()
            },
    {
        if !self.slideshow_active || self.navigation.is_none() || !elapsed_reached(
            elapsed,
            self.slideshow_interval,
        ) {
            return Vec::new();
        }
        let mut effects = vec![Effect::RestartSlideshowClock];
        let mut shown = self.navigate(true);
        effects.append(&mut shown);
        effects
    }

    /// An image was put on screen: it is shown fitted, untouched by the
    /// user.
    pub fn image_shown(&mut self)
        requires
            old(self).wf(),
        ensures
            final(self).wf(),
            final(self)@ == (SessionView {
                showing_image: true,
                user_interacted: false,
                ..old(self)@
            }),
    {
        self.showing_image = true;
        self.user_interacted = false;
    }

    /// The user zoomed or panned: the view keeps its zoom from now on and
    /// the slideshow stops.
    pub fn view_moved_by_user(&mut self)
        requires
            old(self).wf(),
        ensures
            final(self).wf(),
            final(self)@ == (SessionView {
                user_interacted: true,
                slideshow_active: false,
                ..old(self)@
            }),
    {
        self.user_interacted = true;
        self.slideshow_active = false;
    }

    /// The default-viewer dialog was answered in a frame: `continue` or
    /// `cancel` pressed (or neither). Either button closes the dialog;
    /// `true` asks the program to register the viewer, which `continue` does.
    pub fn answer_default_viewer_dialog(&mut self, confirmed: bool, cancelled: bool) -> (r: bool)
        requires
            old(self).wf(),
        ensures
            final(self).wf(),
            r == confirmed,
            final(self)@ == (SessionView {
                default_viewer_dialog_open: if confirmed || cancelled {
                    false
                } else {
                    old(self)@.default_viewer_dialog_open
                },
                ..old(self)@
            }),
    {
        if confirmed || cancelled {
            self.default_viewer_dialog_open = false;
        }
        confirmed
    }

    /// The editor was opened on the current image.
    pub fn edit_started(&mut self)
        requires
            old(self).wf(),
        ensures
            final(self).wf(),
            final(self)@ == (SessionView { editing: true, ..old(self)@ }),
    {
        self.editing = true;
    }

    /// The editor was closed (after saving, or cancelled).
    pub fn edit_stopped(&mut self)
        requires
            old(self).wf(),
        ensures
            final(self).wf(),
            final(self)@ == (SessionView { editing: false, ..old(self)@ }),
    {
        self.editing = false;
    }
}


/// Law: fullscreen, the information panel, the sidebar and the slideshow
/// are toggles: dispatching one of them twice gives the session back.
pub proof fn law_toggles_undo_themselves(s: SessionView, action: Action)
    requires
        action == Action::Fullscreen || action == Action::ToggleInfo || action
            == Action::ToggleSidebar || action == Action::ToggleSlideshow,
    ensures
        dispatch_spec(dispatch_spec(s, action).0, action).0 == s,
{
}

/// Law: while the editor is open, `Prev` and `Next` change nothing and ask
/// for nothing.
pub proof fn law_no_navigation_while_editing(s: SessionView, action: Action)
    requires
        s.editing,
        action == Action::Prev || action == Action::Next,
    ensures
        dispatch_spec(s, action) == (s, Seq::<Effect>::empty()),
{
}

/// Law: outside the editor, `Next` then `Prev` (in either order) comes back
/// to the same image of the folder, and each shows the image it reaches.
pub proof fn law_next_then_prev_returns(s: SessionView, first: Action, second: Action)
    requires
        !s.editing,
        (first == Action::Next && second == Action::Prev) || (first == Action::Prev && second
            == Action::Next),
        s.nav matches Some((images, current)) ==> (images.len() == 0 || 0 <= current
            < images.len()),
    ensures
        dispatch_spec(dispatch_spec(s, first).0, second).0.nav == s.nav,
        !dispatch_spec(dispatch_spec(s, first).0, second).0.slideshow_active,
        s.nav matches Some((images, current)) && images.len() > 0 ==> dispatch_spec(s, first).1
            == seq![Effect::ShowCurrent],
{
    match s.nav {
        Some((images, current)) => {
            if images.len() > 0 {
                law_next_prev_roundtrip(current, images.len() as int);
                assert(0 <= (current + 1) % (images.len() as int) < images.len()) by (
                nonlinear_arith)
                    requires
                        images.len() > 0,
                        0 <= current,
                ;
                assert(0 <= (current + images.len() - 1) % (images.len() as int) < images.len())
                    by (nonlinear_arith)
                    requires
                        images.len() > 0,
                        0 <= current,
                ;
            }
        },
        None => {},
    }
}

/// Law: the slideshow interval set with `SlideshowFaster` and
/// `SlideshowSlower` stays within one to sixty seconds once it is there, and
/// the settings keep its whole seconds.
pub proof fn law_speed_changes_stay_in_range(s: SessionView, action: Action)
    requires
        action == Action::SlideshowFaster || action == Action::SlideshowSlower,
        1_000_000_000 <= s.interval <= 60_000_000_000,
    ensures
        1_000_000_000 <= dispatch_spec(s, action).0.interval <= 60_000_000_000,
        1 <= dispatch_spec(s, action).0.interval_setting <= 60,
        dispatch_spec(s, action).0.interval_setting == dispatch_spec(s, action).0.interval
            / 1_000_000_000,
{
}

/// Law: with an image on screen, `RotateCw` asks for one quarter turn
/// clockwise and `RotateCcw` for one counter-clockwise: the two request
/// opposite directions and change the session alike. With no image shown,
/// neither does anything.
pub proof fn law_rotations_turn_opposite_ways(s: SessionView)
    ensures
        s.showing_image ==> dispatch_spec(s, Action::RotateCw).1 == seq![Effect::Rotate(true)],
        s.showing_image ==> dispatch_spec(s, Action::RotateCcw).1 == seq![Effect::Rotate(false)],
        dispatch_spec(s, Action::RotateCw).0 == dispatch_spec(s, Action::RotateCcw).0,
        dispatch_spec(s, Action::RotateCw).0 == (SessionView {
            user_interacted: s.user_interacted && !s.showing_image,
            ..s
        }),
        !s.showing_image ==> dispatch_spec(s, Action::RotateCw).1.len() == 0
            && dispatch_spec(s, Action::RotateCcw).1.len() == 0,
{
}

/// Law: the actions that hand their work to the program ask for exactly
/// that work and leave the session as it was: `Open` asks for a file,
/// `Edit` opens the editor, `SaveCopy` saves next to the original and
/// `SaveAs` where the user chooses, `ResetEdit` undoes the edits and
/// `ApplyCrop` crops; `Fit` fits the view when an image is shown.
/// `CancelEdit` closes the editor.
pub proof fn law_actions_request_their_work(s: SessionView)
    ensures
        dispatch_spec(s, Action::Open) == (s, seq![Effect::PickFile]),
        dispatch_spec(s, Action::Edit) == (s, seq![Effect::StartEditing]),
        dispatch_spec(s, Action::SaveCopy) == (s, seq![Effect::SaveEdit(false)]),
        dispatch_spec(s, Action::SaveAs) == (s, seq![Effect::SaveEdit(true)]),
        dispatch_spec(s, Action::ResetEdit) == (s, seq![Effect::ResetEdit]),
        dispatch_spec(s, Action::ApplyCrop) == (s, seq![Effect::ApplyCrop]),
        s.showing_image ==> dispatch_spec(s, Action::Fit).1 == seq![Effect::FitView],
        !dispatch_spec(s, Action::CancelEdit).0.editing,
        dispatch_spec(s, Action::CancelEdit).1 == seq![Effect::StopEditing],
{
}

/// Law: fullscreen, the theme, the language and the dialogs change as
/// their actions say: fullscreen flips and the window is told its new
/// state, the theme flips between dark and light and is saved, each
/// language action selects its language and saves it, and the dialog
/// actions open their dialog.
pub proof fn law_settings_actions(s: SessionView)
    ensures
        dispatch_spec(s, Action::Fullscreen).0.fullscreen == !s.fullscreen,
        dispatch_spec(s, Action::Fullscreen).1 == seq![Effect::SetFullscreen(!s.fullscreen)],
        s.theme == "dark"@ ==> dispatch_spec(s, Action::ToggleTheme).0.theme == "light"@,
        s.theme == "light"@ ==> dispatch_spec(s, Action::ToggleTheme).0.theme == "dark"@,
        dispatch_spec(s, Action::ToggleTheme).1 == seq![Effect::SaveSettings],
        dispatch_spec(s, Action::SetLangEs).0.language == Language::Es,
        dispatch_spec(s, Action::SetLangEn).0.language == Language::En,
        dispatch_spec(s, Action::SetLangEs).1 == seq![Effect::SaveSettings],
        dispatch_spec(s, Action::SetLangEn).1 == seq![Effect::SaveSettings],
        dispatch_spec(s, Action::EditShortcuts).0.shortcut_dialog_open,
        dispatch_spec(s, Action::SetDefaultViewer).0.default_viewer_dialog_open,
{
    reveal_strlit("dark");
    reveal_strlit("light");
}

/// Law: outside the editor, `Next` moves to the following image of the
/// folder and from the last one to the first, `Prev` to the preceding one
/// and from the first to the last; the folder's list stays, the slideshow
/// stops and the new image is shown.
pub proof fn law_navigation_moves_one_step(s: SessionView, images: Seq<Seq<char>>, c: int)
    requires
        s.nav == Some((images, c)),
        0 <= c < images.len(),
        !s.editing,
    ensures
        dispatch_spec(s, Action::Next).0.nav == Some(
            (images, if c + 1 < images.len() {
                c + 1
            } else {
                0
            }),
        ),
        dispatch_spec(s, Action::Prev).0.nav == Some(
            (images, if c > 0 {
                c - 1
            } else {
                images.len() - 1
            }),
        ),
        dispatch_spec(s, Action::Next).1 == seq![Effect::ShowCurrent],
        dispatch_spec(s, Action::Prev).1 == seq![Effect::ShowCurrent],
        !dispatch_spec(s, Action::Next).0.slideshow_active,
        !dispatch_spec(s, Action::Prev).0.slideshow_active,
{
    let n = images.len() as int;
    assert((c + 1) % n == (if c + 1 < n { c + 1 } else { 0 })) by (nonlinear_arith)
        requires
            0 <= c < n,
    ;
    assert((c + n - 1) % n == (if c > 0 { c - 1 } else { n - 1 })) by (nonlinear_arith)
        requires
            0 <= c < n,
    ;
}

/// Law: the panel and slideshow toggles flip their own flag only: the
/// information panel asks for nothing, opening the sidebar on a folder asks
/// for its thumbnails, and starting or stopping the slideshow restarts its
/// clock.
pub proof fn law_toggles_flip_their_flag(s: SessionView)
    ensures
        dispatch_spec(s, Action::ToggleInfo).0 == (SessionView { info_open: !s.info_open, ..s }),
        dispatch_spec(s, Action::ToggleInfo).1.len() == 0,
        dispatch_spec(s, Action::ToggleSidebar).0 == (SessionView {
            sidebar_open: !s.sidebar_open,
            ..s
        }),
        !s.sidebar_open && s.nav is Some ==> dispatch_spec(s, Action::ToggleSidebar).1 == seq![
            Effect::EnqueueThumbnails,
        ],
        s.sidebar_open ==> dispatch_spec(s, Action::ToggleSidebar).1.len() == 0,
        dispatch_spec(s, Action::ToggleSlideshow).0 == (SessionView {
            slideshow_active: !s.slideshow_active,
            ..s
        }),
        dispatch_spec(s, Action::ToggleSlideshow).1 == seq![Effect::RestartSlideshowClock],
{
}

/// Law: `SlideshowFaster` halves the interval (never below one second) and
/// `SlideshowSlower` doubles it (never above sixty seconds); either saves
/// the new whole seconds and restarts the slide's clock.
pub proof fn law_speed_actions_halve_and_double(s: SessionView)
    requires
        s.interval >= 0,
    ensures
        s.interval / 2 >= 1_000_000_000 ==> dispatch_spec(s, Action::SlideshowFaster).0.interval
            == s.interval / 2,
        s.interval / 2 < 1_000_000_000 ==> dispatch_spec(s, Action::SlideshowFaster).0.interval
            == 1_000_000_000,
        2 * s.interval <= 60_000_000_000 ==> dispatch_spec(s, Action::SlideshowSlower).0.interval
            == 2 * s.interval,
        2 * s.interval > 60_000_000_000 ==> dispatch_spec(s, Action::SlideshowSlower).0.interval
            == 60_000_000_000,
        dispatch_spec(s, Action::SlideshowFaster).1 == seq![
            Effect::SaveSettings,
            Effect::RestartSlideshowClock,
        ],
        dispatch_spec(s, Action::SlideshowSlower).1 == seq![
            Effect::SaveSettings,
            Effect::RestartSlideshowClock,
        ],
{
    crate::viewer_core::slideshow::law_faster_halves_slower_doubles(s.interval);
}

/// Law: a loader's report is ignored unless it is for the current image; a
/// failed decode of the current image is a failure; a decoded current image
/// is shown unless it is already on screen.
pub proof fn law_load_reports(
    current: Option<Seq<char>>,
    last_shown: Option<Seq<char>>,
    event_path: Seq<char>,
    decoded: bool,
)
    ensures
        current != Some(event_path) ==> load_verdict_spec(current, last_shown, event_path, decoded)
            == LoadVerdict::Ignore,
        current == Some(event_path) && !decoded ==> load_verdict_spec(
            current,
            last_shown,
            event_path,
            decoded,
        ) == LoadVerdict::Failed,
        current == Some(event_path) && decoded && last_shown != Some(event_path)
            ==> load_verdict_spec(current, last_shown, event_path, decoded) == LoadVerdict::Show,
        current == Some(event_path) && decoded && last_shown == Some(event_path)
            ==> load_verdict_spec(current, last_shown, event_path, decoded)
            == LoadVerdict::AlreadyShown,
{
}

} // verus!
