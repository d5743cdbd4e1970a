//! The immutable snapshot data taken once at load time.

use vstd::prelude::*;
use crate::commit_graph::CommitId;

verus! {

/// The largest number of commits one history walk may deliver.
pub const MAX_COMMIT_WALK: usize = 100;

/// One branch reference discovered at snapshot time; immutable after
/// load.
#[derive(Debug, PartialEq, Eq)]
pub struct BranchInfo {
    /// The branch's short name.
    pub name: String,
    /// The full reference name the branch was enumerated under.
    pub reference: String,
    /// The commit the branch currently points to.
    pub top_commit: CommitId,
    /// The summary line of that commit's message.
    pub top_commit_message: String,
}

/// One commit reachable from a branch tip, resolved during the bounded
/// history walk; immutable after load.
#[derive(Debug, PartialEq, Eq)]
pub struct CommitInfo {
    /// The commit's identifier.
    pub id: CommitId,
    /// The author's name.
    pub author: String,
    /// The commit time, in seconds.
    pub time: i64,
    /// The commit message, shortened to its summary.
    pub message: String,
}

/// Cuts a walked identifier list down to the walk bound, keeping the
/// prefix in its order; a list already within the bound is untouched.
pub fn cap_commit_ids(ids: Vec<CommitId>, max: usize) -> (r: Vec<CommitId>)
    ensures
        r@.len() <= max,
        r@ == ids@.take(if ids@.len() <= max {
            ids@.len() as int
        } else {
            max as int
        }),
        ids@.len() <= max ==> r@ == ids@,
{
    let mut r = ids;
    let ghost full: Seq<CommitId> = r@;
    r.truncate(max);
    proof {
        if full.len() <= max {
            assert(r@ =~= full.take(full.len() as int));
        }
    }
    r
}

} // verus!
