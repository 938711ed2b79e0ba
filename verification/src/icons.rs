//! Showing and hiding the desktop icons.
//!
//! The shell only offers a toggle, so hiding and showing read the current
//! visibility first and toggle only when it differs from the goal.

use vstd::prelude::*;

verus! {

/// What to do to reach the wanted icon visibility.
#[derive(Debug, Clone, Copy, PartialEq, Eq, Structural)]
pub enum IconsAction {
    /// Send the shell's toggle command.
    Toggle,
    /// Already as wanted; do nothing.
    Skip,
}

/// The visibility of the icons after carrying out `action`.
pub open spec fn visible_after(visible: bool, action: IconsAction) -> bool {
    match action {
        IconsAction::Toggle => !visible,
        IconsAction::Skip => visible,
    }
}

/// The step that hides the icons: toggle only while they are visible.
pub open spec fn hide_icons_spec(visible: bool) -> IconsAction {
    if visible {
        IconsAction::Toggle
    } else {
        IconsAction::Skip
    }
}

/// The step that shows the icons: toggle only while they are hidden.
pub open spec fn show_icons_spec(visible: bool) -> IconsAction {
    if visible {
        IconsAction::Skip
    } else {
        IconsAction::Toggle
    }
}

/// The step that hides the icons, given whether they are visible now.
pub fn hide_icons(visible: bool) -> (r: IconsAction)
    ensures
        r == hide_icons_spec(visible),
{
    if visible {
        IconsAction::Toggle
    } else {
        IconsAction::Skip
    }
}

/// The step that shows the icons, given whether they are visible now.
pub fn show_icons(visible: bool) -> (r: IconsAction)
    ensures
        r == show_icons_spec(visible),
{
    if !visible {
        IconsAction::Toggle
    } else {
        IconsAction::Skip
    }
}

/// Whatever the icons' visibility, hiding leaves them hidden and showing
/// leaves them visible; so hiding or showing twice is the same as once.
pub proof fn lemma_hide_show_reach_goal(visible: bool)
    ensures
        !visible_after(visible, hide_icons_spec(visible)),
        visible_after(visible, show_icons_spec(visible)),
        hide_icons_spec(visible_after(visible, hide_icons_spec(visible))) == IconsAction::Skip,
        show_icons_spec(visible_after(visible, show_icons_spec(visible))) == IconsAction::Skip,
{
}

} // verus!
