//! The branch manager's decisions: whether a new branch name may be used,
//! and how each branch is marked.

use vstd::prelude::*;

verus! {

/// A branch: its name, whether it is checked out, what it tracks, and how
/// far it is ahead of and behind that.
#[derive(Debug, Clone)]
pub struct BranchInfo {
    pub name: String,
    pub is_head: bool,
    pub upstream: Option<String>,
    pub ahead: u32,
    pub behind: u32,
}

/// Whether a branch may be created under `name`: an empty one is refused.
pub fn check_branch_name(name: &str) -> (r: Result<(), String>)
    ensures
        name@.len() == 0 <==> r is Err,
        r matches Err(e) ==> e@ == "Branch name cannot be empty"@,
{
    if name.is_empty() {
        Err("Branch name cannot be empty".to_string())
    } else {
        Ok(())
    }
}

/// The mark before a branch's name: `* ` for the checked-out one.
pub fn head_marker(is_head: bool) -> (r: &'static str)
    ensures
        is_head ==> r@ == "* "@,
        !is_head ==> r@ == "  "@,
{
    if is_head {
        "* "
    } else {
        "  "
    }
}

/// Whether a branch can be deleted: any but the checked-out one.
pub fn can_delete(branch: &BranchInfo) -> (r: bool)
    ensures
        r == !branch.is_head,
{
    !branch.is_head
}

} // verus!
