//! The source control panel's decisions: which files are staged and which
//! not, whether a commit message may be sent, and which branch is checked
//! out.

use vstd::prelude::*;

verus! {

/// A changed file: its path, its git status, and whether it is staged.
#[derive(Debug, Clone)]
pub struct FileStatus {
    pub path: String,
    pub status: String,
    pub is_staged: bool,
}

/// A branch: its name, whether it is checked out, and what it tracks.
#[derive(Debug, Clone)]
pub struct BranchInfo {
    pub name: String,
    pub is_head: bool,
    pub upstream: Option<String>,
}

/// The indices of the files whose staged flag is `staged`, in order: the
/// panel's "staged changes" or its "changes".
pub fn files_by_stage(files: &Vec<FileStatus>, staged: bool) -> (r: Vec<usize>)
    ensures
        forall|a: int, b: int| 0 <= a < b < r@.len() ==> r@[a] < r@[b],
        forall|k: int| 0 <= k < r@.len() ==> r@[k] < files@.len() && files@[r@[k] as int].is_staged == staged,
        forall|i: int| 0 <= i < files@.len() && (#[trigger] files@[i]).is_staged == staged ==> r@.contains(i as usize),
{
    let mut r: Vec<usize> = Vec::new();
    let mut i: usize = 0;
    while i < files.len()
        invariant
            i <= files@.len(),
            forall|a: int, b: int| 0 <= a < b < r@.len() ==> r@[a] < r@[b],
            forall|k: int| 0 <= k < r@.len() ==> r@[k] < i && files@[r@[k] as int].is_staged == staged,
            forall|j: int| 0 <= j < i && (#[trigger] files@[j]).is_staged == staged ==> r@.contains(j as usize),
        decreases files@.len() - i,
    {
        if files[i].is_staged == staged {
            let ghost r0 = r@;
            r.push(i);
            proof {
                assert forall|j: int| 0 <= j < i + 1 && (#[trigger] files@[j]).is_staged == staged implies r@.contains(j as usize) by {
                    if j < i {
                        let k = choose|k: int| 0 <= k < r0.len() && r0[k] == j as usize;
                        assert(r@[k] == j as usize);
                    } else {
                        assert(r@[r@.len() - 1] == j as usize);
                    }
                }
            }
        }
        i += 1;
    }
    r
}

/// Whether a commit message may be sent: an empty one is refused.
pub fn check_commit_message(message: &str) -> (r: Result<(), String>)
    ensures
        message@.len() == 0 <==> r is Err,
        r matches Err(e) ==> e@ == "Commit message cannot be empty"@,
{
    if message.is_empty() {
        Err("Commit message cannot be empty".to_string())
    } else {
        Ok(())
    }
}

/// The index of the checked-out branch: the first marked as head.
pub fn head_branch(branches: &Vec<BranchInfo>) -> (r: Option<usize>)
    ensures
        match r {
            Some(i) => i < branches@.len() && branches@[i as int].is_head
                && forall|j: int| 0 <= j < i ==> !(#[trigger] branches@[j]).is_head,
            None => forall|j: int| 0 <= j < branches@.len() ==> !(#[trigger] branches@[j]).is_head,
        },
{
    let mut i: usize = 0;
    while i < branches.len()
        invariant
            i <= branches@.len(),
            forall|j: int| 0 <= j < i ==> !(#[trigger] branches@[j]).is_head,
        decreases branches@.len() - i,
    {
        if branches[i].is_head {
            return Some(i);
        }
        i += 1;
    }
    None
}

} // verus!
