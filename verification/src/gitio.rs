//! The trusted boundary to the Git access libraries.
//!
//! Every function here only makes one outside call and converts its
//! arguments and result between the outside types and the library's own
//! plain values. What a result contains depends on what is on disk, so
//! the contracts state only what holds of every outcome; the verified
//! loader takes these results as arguments and does the rest.

use vstd::prelude::*;
use crate::commit_graph::BranchTip;
use crate::commit_graph::CommitId;
use crate::snapshot::BranchInfo;
use crate::snapshot::CommitInfo;

verus! {

/// `git2::Repository`: an opaque handle on an opened repository, passed
/// between the wrappers below.
#[verifier::external_type_specification]
#[verifier::external_body]
pub struct ExRepository(git2::Repository);

/// `git2::Error`: the error the repository calls report.
#[verifier::external_type_specification]
#[verifier::external_body]
pub struct ExGitError(git2::Error);

/// `asyncgit::Error`: the error the listing and walking calls report.
#[verifier::external_type_specification]
#[verifier::external_body]
pub struct ExAsyncGitError(asyncgit::Error);

/// Relies on `git2::Repository::open`: a handle on the repository at the
/// path, or an error when the path is not an openable repository.
#[verifier::external_body]
pub(crate) fn open_repository(path: &str) -> (r: Result<git2::Repository, git2::Error>) {
    git2::Repository::open(path)
}

/// Relies on `git2::Error::message`: the error's descriptive text.
#[verifier::external_body]
pub(crate) fn git2_error_message(e: &git2::Error) -> (r: String) {
    e.message().to_string()
}

/// Relies on `asyncgit::sync::get_branches_info`: one entry per local
/// branch, in reference-iteration order, carrying the branch's name, its
/// full reference, its tip commit and that commit's summary line.
#[verifier::external_body]
pub(crate) fn list_branch_infos(path: &str) -> (r: Result<Vec<BranchInfo>, asyncgit::Error>) {
    let repo_path = asyncgit::sync::RepoPath::Path(path.into());
    let list = asyncgit::sync::get_branches_info(&repo_path, true)?;
    Ok(list.into_iter().map(|b| BranchInfo {
        name: b.name,
        reference: b.reference,
        top_commit: CommitId::from_bytes(git2::Oid::from(b.top_commit).as_bytes().to_vec()),
        top_commit_message: b.top_commit_message,
    }).collect())
}

/// Relies on `git2::Repository::branches` with `Branch::get`,
/// `Reference::peel_to_commit` and `Commit::parents`: each branch's tip
/// commit with its direct parent ids, in branch-iteration order.
#[verifier::external_body]
pub(crate) fn list_branch_tips(repo: &git2::Repository) -> (r: Result<
    Vec<BranchTip>,
    git2::Error,
>) {
    repo.branches(None)?.map(|entry| {
        let (branch, _kind) = entry?;
        let commit = branch.get().peel_to_commit()?;
        Ok(BranchTip {
            id: CommitId::from_bytes(commit.id().as_bytes().to_vec()),
            parents: commit.parents().map(
                |p| CommitId::from_bytes(p.id().as_bytes().to_vec()),
            ).collect(),
        })
    }).collect()
}

/// Relies on `asyncgit::sync::LogWalker`: `new(repo, limit)` starts a
/// walk at the repository head and `read` delivers ids newest-first,
/// stopping once `limit` commits were taken, so with a positive limit at
/// most `limit` ids come back. Fails on a repository without a head.
#[verifier::external_body]
pub(crate) fn walk_commit_ids(repo: &git2::Repository, limit: usize) -> (r: Result<
    Vec<CommitId>,
    asyncgit::Error,
>)
    requires
        limit > 0,
    ensures
        r matches Ok(ids) ==> ids@.len() <= limit,
{
    let mut walker = asyncgit::sync::LogWalker::new(repo, limit)?;
    let mut ids: Vec<asyncgit::sync::CommitId> = Vec::new();
    walker.read(&mut ids)?;
    Ok(ids.into_iter().map(
        |id| CommitId::from_bytes(git2::Oid::from(id).as_bytes().to_vec()),
    ).collect())
}

/// Relies on `asyncgit::sync::get_commits_info`: on success it delivers
/// exactly one entry per requested id, in request order, each carrying
/// that commit's author, time and summary message.
#[verifier::external_body]
pub(crate) fn resolve_commit_infos(path: &str, ids: &Vec<CommitId>) -> (r: Result<
    Vec<CommitInfo>,
    asyncgit::Error,
>)
    ensures
        r matches Ok(infos) ==> infos@.len() == ids@.len() && (forall|i: int|
            0 <= i < ids@.len() ==> infos@[i].id@ == ids@[i]@),
{
    let repo_path = asyncgit::sync::RepoPath::Path(path.into());
    let gids = ids.iter().map(
        |id| git2::Oid::from_bytes(id.as_bytes()).map(asyncgit::sync::CommitId::from),
    ).collect::<Result<Vec<_>, git2::Error>>()?;
    let infos = asyncgit::sync::get_commits_info(&repo_path, &gids, usize::MAX)?;
    Ok(infos.into_iter().map(|c| CommitInfo {
        id: CommitId::from_bytes(git2::Oid::from(c.id).as_bytes().to_vec()),
        author: c.author,
        time: c.time,
        message: c.message,
    }).collect())
}

} // verus!
