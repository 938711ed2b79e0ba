//! What is currently hidden.

use vstd::prelude::*;

verus! {

/// A window that was hidden, kept so it can be restored to the state it had
/// (normal, minimised or maximised).
#[derive(Debug, Clone, Copy, PartialEq, Eq, Structural)]
pub struct HiddenWindow {
    /// The window handle, as an integer.
    pub hwnd: isize,
    /// The window's show state when it was hidden: 1 normal, 2 minimised,
    /// 3 maximised.
    pub show_cmd: u32,
}

/// What the app currently has hidden.
#[derive(Debug, Clone)]
pub struct AppState {
    pub icons_hidden: bool,
    pub taskbar_hidden: bool,
    pub windows_hidden: bool,
    pub active_profile: Option<String>,
    pub hidden_windows: Vec<HiddenWindow>,
}

/// Mathematical model of [`AppState`].
pub struct StateView {
    pub icons_hidden: bool,
    pub taskbar_hidden: bool,
    pub windows_hidden: bool,
    pub active_profile: Option<Seq<char>>,
    pub hidden_windows: Seq<HiddenWindow>,
}

/// The model of an optional string.
pub open spec fn opt_string_view(o: Option<String>) -> Option<Seq<char>> {
    match o {
        Some(s) => Some(s@),
        None => None,
    }
}

impl View for AppState {
    type V = StateView;

    open spec fn view(&self) -> StateView {
        StateView {
            icons_hidden: self.icons_hidden,
            taskbar_hidden: self.taskbar_hidden,
            windows_hidden: self.windows_hidden,
            active_profile: opt_string_view(self.active_profile),
            hidden_windows: self.hidden_windows@,
        }
    }
}

/// The state at launch: nothing hidden, no profile.
pub open spec fn initial_state_view() -> StateView {
    StateView {
        icons_hidden: false,
        taskbar_hidden: false,
        windows_hidden: false,
        active_profile: None,
        hidden_windows: Seq::empty(),
    }
}

impl Default for AppState {
    fn default() -> (r: Self)
        ensures
            r@ == initial_state_view(),
    {
        AppState {
            icons_hidden: false,
            taskbar_hidden: false,
            windows_hidden: false,
            active_profile: None,
            hidden_windows: Vec::new(),
        }
    }
}

/// A copy of an optional string.
pub fn copy_opt_string(o: &Option<String>) -> (r: Option<String>)
    ensures
        opt_string_view(r) == opt_string_view(*o),
{
    match o {
        Some(s) => Some(s.clone()),
        None => None,
    }
}

} // verus!
