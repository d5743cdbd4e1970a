//! Live Git repository structure service.
//!
//! Snapshots a repository's branches and commit ancestry into an in-memory
//! graph, models the background filesystem watch loop that reports change
//! events, and exposes a controlled shutdown protocol for outstanding
//! watches.


pub mod commit_graph;
mod gitio;
pub mod service;
pub mod snapshot;
pub mod watch_loop;

pub use commit_graph::{discover_ancestry, BranchTip, CommitId, HierarchyTable, IdTable};
pub use service::{ActiveWatch, GitStructureService, IGitStructureWatcher, LoadError, WatchHandle};
pub use snapshot::{cap_commit_ids, BranchInfo, CommitInfo, MAX_COMMIT_WALK};
pub use watch_loop::{drain, WatchAction, WatchLoop, WatchMessage};
