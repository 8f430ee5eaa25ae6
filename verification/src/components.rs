//! What the editor's frame shows: the sidebar's panels and which is
//! active, the debug toggle, and the problem count.

use crate::blame::{decimal, decimal_text};
use crate::text::append;
use vstd::prelude::*;

verus! {

/// The panels of the sidebar.
#[derive(Debug, Clone, Copy, PartialEq, Eq, Structural)]
pub enum ActivePanel {
    Explorer,
    Search,
    Chat,
    Database,
    Workflow,
    Terminal,
    VirtualOffice,
    Settings,
}

/// The color of a panel's icon: white for the active panel, grey for the
/// others.
pub fn panel_icon_color(active: ActivePanel, panel: ActivePanel) -> (r: &'static str)
    ensures
        active == panel ==> r@ == "#FFFFFF"@,
        active != panel ==> r@ == "#858585"@,
{
    if active == panel {
        "#FFFFFF"
    } else {
        "#858585"
    }
}

/// The label of the button that shows or hides the debug panels.
pub fn debug_toggle_label(shown: bool) -> (r: &'static str)
    ensures
        shown ==> r@ == "Hide Debug"@,
        !shown ==> r@ == "Show Debug"@,
{
    if shown {
        "Hide Debug"
    } else {
        "Show Debug"
    }
}

/// The problem count of the status bar.
pub fn problems_text(count: usize) -> (r: String)
    ensures
        count > 0 ==> r@ == decimal_text(count as nat) + " problems"@,
        count == 0 ==> r@ == "No problems"@,
{
    if count > 0 {
        append(decimal(count as u64), " problems")
    } else {
        "No problems".to_string()
    }
}

} // verus!
