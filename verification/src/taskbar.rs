//! Toggling the taskbar.

use vstd::prelude::*;

verus! {

/// Which way to switch the taskbar (main and secondary monitors alike).
#[derive(Debug, Clone, Copy, PartialEq, Eq, Structural)]
pub enum TaskbarAction {
    Hide,
    Show,
}

/// The toggle for a taskbar of this visibility, and whether it is visible
/// afterwards.
pub open spec fn toggle_taskbar_spec(visible: bool) -> (TaskbarAction, bool) {
    if visible {
        (TaskbarAction::Hide, false)
    } else {
        (TaskbarAction::Show, true)
    }
}

/// The toggle for the taskbar's current visibility, and whether it is
/// visible afterwards: a visible taskbar is hidden, a hidden one shown.
pub fn toggle_taskbar(visible: bool) -> (r: (TaskbarAction, bool))
    ensures
        r == toggle_taskbar_spec(visible),
        r.1 == !visible,
{
    if visible {
        (TaskbarAction::Hide, false)
    } else {
        (TaskbarAction::Show, true)
    }
}

/// Toggling twice brings the taskbar back to where it was, through the
/// opposite switch.
pub proof fn lemma_toggle_twice(visible: bool)
    ensures
        toggle_taskbar_spec(toggle_taskbar_spec(visible).1).1 == visible,
        toggle_taskbar_spec(toggle_taskbar_spec(visible).1).0 != toggle_taskbar_spec(visible).0,
{
}

} // verus!
