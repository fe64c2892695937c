//! Monitorable targets and the rule that selects them.
//!
//! The enumerator walks all top-level windows (a native call made by the
//! surrounding program) and keeps those that a user could meaningfully
//! monitor; the decision over each window's observed attributes is made
//! here.

use vstd::prelude::*;

verus! {

/// Extended window style bit marking a tool window.
pub const WS_EX_TOOLWINDOW_BIT: u32 = 0x80;

/// Extended window style bit marking a window with no redirection bitmap.
pub const WS_EX_NOREDIRECTIONBITMAP_BIT: u32 = 0x200000;

/// One monitorable window: its title, native handle, owning process and
/// thread, and an optional base64-encoded PNG thumbnail of its icon for
/// display purposes only.
#[derive(Clone, Debug)]
pub struct AppInfo {
    pub name: String,
    pub hwnd: isize,
    pub process_id: u32,
    pub thread_id: u32,
    pub icon: Option<String>,
}

/// Whether an enumerated window is a monitorable target: it is visible,
/// has a title, belongs to another process, is its own root owner, and
/// carries neither the tool-window nor the no-redirection-bitmap extended
/// style bit.
pub open spec fn spec_window_qualifies(
    visible: bool,
    has_title: bool,
    own_process: bool,
    is_root_owner: bool,
    ex_style: u32,
) -> bool {
    &&& visible
    &&& has_title
    &&& !own_process
    &&& is_root_owner
    &&& ex_style & WS_EX_TOOLWINDOW_BIT == 0
    &&& ex_style & WS_EX_NOREDIRECTIONBITMAP_BIT == 0
}

/// Decides whether an enumerated window qualifies as a monitorable
/// target, from its observed attributes.
pub fn window_qualifies(
    visible: bool,
    has_title: bool,
    own_process: bool,
    is_root_owner: bool,
    ex_style: u32,
) -> (r: bool)
    ensures
        r == spec_window_qualifies(visible, has_title, own_process, is_root_owner, ex_style),
{
    visible && has_title && !own_process && is_root_owner && (ex_style & WS_EX_TOOLWINDOW_BIT == 0)
        && (ex_style & WS_EX_NOREDIRECTIONBITMAP_BIT == 0)
}

} // verus!
