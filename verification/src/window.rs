//! What the compositor tells about a window, and how a window is classified.
use vstd::prelude::*;

verus! {

/// The shell through which a window is shown.
#[derive(Debug, Clone, Copy, PartialEq, Eq, Structural)]
pub enum ShellKind {
    /// The compositor's native protocol.
    XdgShell,
    /// The compatibility layer for the legacy protocol.
    Xwayland,
    /// Any other shell.
    Other,
}

/// The part of a window's description that classification reads.
#[derive(Debug, Clone, Copy, PartialEq, Eq, Structural)]
pub struct WindowDescriptor {
    /// The window's shell, where the compositor names one.
    pub shell: Option<ShellKind>,
}

/// What happened to a window.
#[derive(Debug, Clone, Copy, PartialEq, Eq, Structural)]
pub enum ChangeKind {
    New,
    Close,
    Focus,
    Title,
    FullscreenMode,
    Move,
    Floating,
    Urgent,
    Mark,
    /// A change that this crate has no name for.
    Other,
}

/// A notification about one window.
#[derive(Debug, Clone, Copy, PartialEq, Eq, Structural)]
pub struct FocusEvent {
    pub change_kind: ChangeKind,
    pub window: WindowDescriptor,
}

/// The three kinds of window that get a record of their own.
#[derive(Debug, Clone, Copy, PartialEq, Eq, Structural)]
pub enum Category {
    /// A window of the native protocol.
    Xdg,
    /// A window of the compatibility layer.
    Xwayland,
    /// Any other window, and no window at all.
    Unknown,
}

/// The category of the focused window, if there is one.
pub open spec fn category_of(window: Option<WindowDescriptor>) -> Category {
    match window {
        Some(WindowDescriptor { shell: Some(ShellKind::XdgShell) }) => Category::Xdg,
        Some(WindowDescriptor { shell: Some(ShellKind::Xwayland) }) => Category::Xwayland,
        _ => Category::Unknown,
    }
}

/// The window behind an optional reference.
pub open spec fn seen(window: Option<&WindowDescriptor>) -> Option<WindowDescriptor> {
    match window {
        Some(w) => Some(*w),
        None => None,
    }
}

/// Classifies the focused window. No window, a window without a shell and
/// a window of another shell are all [`Category::Unknown`].
pub fn classify(window: Option<&WindowDescriptor>) -> (category: Category)
    ensures
        category == category_of(seen(window)),
{
    match window {
        Some(w) => match w.shell {
            Some(ShellKind::XdgShell) => Category::Xdg,
            Some(ShellKind::Xwayland) => Category::Xwayland,
            _ => Category::Unknown,
        },
        None => Category::Unknown,
    }
}

/// Classification goes by the shell alone: the native shell is
/// [`Category::Xdg`], the compatibility layer is [`Category::Xwayland`], and
/// everything else, no window included, is [`Category::Unknown`].
pub proof fn lemma_category_table(window: Option<WindowDescriptor>)
    ensures
        category_of(window) == Category::Xdg <==> window == Some(
            WindowDescriptor { shell: Some(ShellKind::XdgShell) },
        ),
        category_of(window) == Category::Xwayland <==> window == Some(
            WindowDescriptor { shell: Some(ShellKind::Xwayland) },
        ),
        category_of(window) == Category::Unknown <==> (window matches Some(w) ==> (w.shell
            matches Some(s) ==> s == ShellKind::Other)),
{
}

} // verus!
