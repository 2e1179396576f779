//! The layout of the window.

use vstd::prelude::*;
use vstd::string::*;
use crate::text;
use crate::text::decimal_text;

verus! {

/// The side of the window that the sidebar is on.
#[derive(Clone, Copy, Debug, PartialEq, Eq, Structural)]
pub enum SidebarPosition {
    Left,
    Right,
}

/// Where the divider between the sidebar and the rest is.
#[derive(Clone, Copy, Debug, PartialEq, Eq, Structural)]
pub enum SidebarDividerPosition {
    FromStart(i32),
    FromEnd(i32),
}

/// How the sidebar and the rest share the window: the sidebar may shrink, the rest takes
/// what the window gains.
#[derive(Clone, Copy, Debug, PartialEq, Eq, Structural)]
pub struct SidebarPanedPolicy {
    pub divider_position: SidebarDividerPosition,
    pub shrink_start_child: bool,
    pub shrink_end_child: bool,
    pub resize_start_child: bool,
    pub resize_end_child: bool,
}

/// The width of the sidebar: at least one.
pub open spec fn width_of(sidebar_width: i32) -> i32 {
    if sidebar_width < 1 {
        1
    } else {
        sidebar_width
    }
}

/// How the sidebar and the rest share the window.
pub fn sidebar_paned_policy(position: SidebarPosition, sidebar_width: i32) -> (r:
    SidebarPanedPolicy)
    ensures
        r == match position {
            SidebarPosition::Left => SidebarPanedPolicy {
                divider_position: SidebarDividerPosition::FromStart(width_of(sidebar_width)),
                shrink_start_child: true,
                shrink_end_child: false,
                resize_start_child: false,
                resize_end_child: true,
            },
            SidebarPosition::Right => SidebarPanedPolicy {
                divider_position: SidebarDividerPosition::FromEnd(width_of(sidebar_width)),
                shrink_start_child: false,
                shrink_end_child: true,
                resize_start_child: true,
                resize_end_child: false,
            },
        },
{
    let width: i32 = if sidebar_width < 1 {
        1
    } else {
        sidebar_width
    };
    match position {
        SidebarPosition::Left => SidebarPanedPolicy {
            divider_position: SidebarDividerPosition::FromStart(width),
            shrink_start_child: true,
            shrink_end_child: false,
            resize_start_child: false,
            resize_end_child: true,
        },
        SidebarPosition::Right => SidebarPanedPolicy {
            divider_position: SidebarDividerPosition::FromEnd(width),
            shrink_start_child: false,
            shrink_end_child: true,
            resize_start_child: true,
            resize_end_child: false,
        },
    }
}

/// The place of the divider in a window of this width; none where the window is too narrow
/// for the sidebar at its end.
pub fn divider_offset(divider: SidebarDividerPosition, total: i32) -> (r: Option<i32>)
    requires
        divider matches SidebarDividerPosition::FromEnd(width) ==> width >= 1,
    ensures
        r == match divider {
            SidebarDividerPosition::FromStart(width) => Some(width),
            SidebarDividerPosition::FromEnd(width) => if total > width {
                Some((total - width) as i32)
            } else {
                None
            },
        },
{
    match divider {
        SidebarDividerPosition::FromStart(width) => Some(width),
        SidebarDividerPosition::FromEnd(width) => {
            if total > width {
                Some(total - width)
            } else {
                None
            }
        },
    }
}

/// Whether the dock is shown after it was toggled.
pub fn toggled_dock_visibility(current: bool) -> (r: bool)
    ensures
        r == !current,
{
    !current
}

/// The text that says where typed text goes; none where it goes to one pane only.
/// `scope_label` is the scope as it is shown.
pub fn broadcast_indicator_text(scope_label: &Option<String>, target_count: u64) -> (r: Option<
    String,
>)
    ensures
        r.deep_view() == match scope_label.deep_view() {
            Some(label) => Some(
                "Broadcast input: "@ + label + " • "@ + text::decimal(target_count as nat) + " "@
                    + if target_count == 1 {
                    "pane"@
                } else {
                    "panes"@
                },
            ),
            None => None,
        },
{
    match scope_label {
        None => None,
        Some(label) => {
            let mut r = "Broadcast input: ".to_owned();
            r.append(label.as_str());
            r.append(" • ");
            let number = decimal_text(target_count);
            r.append(number.as_str());
            r.append(" ");
            if target_count == 1 {
                r.append("pane");
            } else {
                r.append("panes");
            }
            Some(r)
        },
    }
}

/// The sidebar is at least one pixel wide.
pub proof fn law_the_width_of_the_sidebar(width: i32)
    ensures
        width >= 1 ==> width_of(width) == width,
        width < 1 ==> width_of(width) == 1,
{
}

} // verus!
