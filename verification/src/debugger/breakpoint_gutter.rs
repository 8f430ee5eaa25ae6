//! What the breakpoint gutter shows of a breakpoint, and the condition a
//! conditional-breakpoint dialog sets.

use crate::debugger::session::Breakpoint;
use crate::text::append;
use vstd::prelude::*;

verus! {

/// The icon class of a breakpoint: verified or not.
pub fn breakpoint_class(bp: &Breakpoint) -> (r: &'static str)
    ensures
        bp.verified ==> r@ == "berry-breakpoint-icon berry-breakpoint-verified"@,
        !bp.verified ==> r@ == "berry-breakpoint-icon berry-breakpoint-unverified"@,
{
    if bp.verified {
        "berry-breakpoint-icon berry-breakpoint-verified"
    } else {
        "berry-breakpoint-icon berry-breakpoint-unverified"
    }
}

/// The tooltip of a breakpoint: `Conditional: ` and its condition, or
/// `Breakpoint`.
pub fn breakpoint_title(bp: &Breakpoint) -> (r: String)
    ensures
        match &bp.condition {
            Some(c) => r@ == "Conditional: "@ + c@,
            None => r@ == "Breakpoint"@,
        },
{
    match &bp.condition {
        Some(c) => append("Conditional: ".to_string(), c.as_str()),
        None => "Breakpoint".to_string(),
    }
}

/// The condition the dialog sets from its input: none for an empty input.
pub fn condition_from_input(input: String) -> (r: Option<String>)
    ensures
        input@.len() == 0 ==> r is None,
        input@.len() > 0 ==> (r matches Some(c) && c@ == input@),
{
    if input.as_str().is_empty() {
        None
    } else {
        Some(input)
    }
}

} // verus!
