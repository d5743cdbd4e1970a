//! The Git structure service: owns the snapshot, tracks active watches,
//! and mediates read access for a presentation layer.

use vstd::prelude::*;
use crate::commit_graph::BranchTip;
use crate::commit_graph::HierarchyTable;
use crate::commit_graph::IdTable;
use crate::commit_graph::discover_ancestry;
use crate::commit_graph::discover_prefix;
use crate::commit_graph::lemma_ancestry_keys_covered;
use crate::gitio;
use crate::snapshot::BranchInfo;
use crate::snapshot::CommitInfo;
use crate::snapshot::MAX_COMMIT_WALK;
use crate::snapshot::cap_commit_ids;

verus! {

/// Notification capability for "the repository structure changed".
///
/// The watch loop's forward action is the hook point that will feed this;
/// wiring a live re-snapshot through it is intentionally not done yet.
pub trait IGitStructureWatcher {
    /// Called when the repository structure changes.
    fn on_changed(&mut self);
}

impl IGitStructureWatcher for () {
    /// Headless use: notifications are dropped.
    fn on_changed(&mut self) {
    }
}

/// An opaque handle naming one active watch registration.
#[derive(Debug, PartialEq, Eq, Structural, Clone, Copy)]
pub struct WatchHandle {
    /// The registration number; handles of one service never repeat.
    pub id: u64,
}

/// One active watch: its handle and the watched path.
#[derive(Debug, PartialEq, Eq)]
pub struct ActiveWatch {
    /// The handle under which the watch was registered.
    pub handle: WatchHandle,
    /// The directory tree being watched.
    pub path: String,
}

/// The error surfaced when construction of a service fails; opening the
/// repository is the one fatal failure of loading.
#[derive(Debug)]
pub enum LoadError {
    /// The path could not be opened as a Git repository.
    RepositoryOpen(String),
}

/// Holds the snapshot taken at construction, read accessors over it, and
/// the registry of outstanding watch registrations.
pub struct GitStructureService<TWatcher> {
    watcher: TWatcher,
    branch_infos: Vec<BranchInfo>,
    commit_infos: Vec<CommitInfo>,
    id_table: IdTable,
    hierarchy_table: HierarchyTable,
    watch_registry: Vec<ActiveWatch>,
    next_handle: u64,
}

impl<TWatcher> GitStructureService<TWatcher> {
    /// The snapshot's branches, in enumeration order.
    pub closed spec fn branches_view(&self) -> Seq<BranchInfo> {
        self.branch_infos@
    }

    /// The snapshot's commits, in walk order.
    pub closed spec fn commits_view(&self) -> Seq<CommitInfo> {
        self.commit_infos@
    }

    /// The commit identifiers seen during ancestry discovery.
    pub closed spec fn ids_view(&self) -> Set<Seq<u8>> {
        self.id_table@
    }

    /// The tip-to-parents ancestry table.
    pub closed spec fn hierarchy_view(&self) -> Map<Seq<u8>, Seq<Seq<u8>>> {
        self.hierarchy_table@
    }

    /// The outstanding watch registrations, oldest first.
    pub closed spec fn registry_view(&self) -> Seq<ActiveWatch> {
        self.watch_registry@
    }

    /// The number the next registration will receive.
    pub closed spec fn next_handle_id(&self) -> u64 {
        self.next_handle
    }

    /// The held notification capability.
    pub closed spec fn watcher_ref(&self) -> TWatcher {
        self.watcher
    }

    /// Every key of the ancestry table is in the identifier set.
    pub open spec fn ancestry_covered(&self) -> bool {
        forall|k: Seq<u8>|
            #[trigger] self.hierarchy_view().dom().contains(k) ==> self.ids_view().contains(k)
    }

    /// Read access to the branch snapshot; never triggers a re-load.
    pub fn branch_infos(&self) -> (r: &Vec<BranchInfo>)
        ensures
            r@ == self.branches_view(),
    {
        &self.branch_infos
    }

    /// Read access to the commit snapshot; never triggers a re-load.
    pub fn commit_infos(&self) -> (r: &Vec<CommitInfo>)
        ensures
            r@ == self.commits_view(),
    {
        &self.commit_infos
    }

    /// Read access to the identifier set of ancestry discovery.
    pub fn id_table(&self) -> (r: &IdTable)
        ensures
            r@ == self.ids_view(),
    {
        &self.id_table
    }

    /// Read access to the ancestry table.
    pub fn hierarchy_table(&self) -> (r: &HierarchyTable)
        ensures
            r@ == self.hierarchy_view(),
    {
        &self.hierarchy_table
    }

    /// Builds the service from what the loader gathered: the branch
    /// listing (`None` when enumeration failed, degrading to zero
    /// branches), the branch tips with their parents, and the resolved
    /// commits of the bounded walk. The ancestry graph is discovered
    /// here; the result starts with no active watches.
    pub fn assemble(
        watcher: TWatcher,
        branch_result: Option<Vec<BranchInfo>>,
        tips: &Vec<BranchTip>,
        commit_infos: Vec<CommitInfo>,
    ) -> (s: Self)
        ensures
            s.branches_view() == match branch_result {
                Some(b) => b@,
                None => Seq::<BranchInfo>::empty(),
            },
            s.commits_view() == commit_infos@,
            s.ids_view() == discover_prefix(tips@).0,
            s.hierarchy_view() == discover_prefix(tips@).1,
            s.ancestry_covered(),
            s.registry_view() == Seq::<ActiveWatch>::empty(),
            s.next_handle_id() == 0,
            s.watcher_ref() == watcher,
    {
        let (id_table, hierarchy_table) = discover_ancestry(tips);
        proof {
            lemma_ancestry_keys_covered(tips@);
        }
        let branch_infos = match branch_result {
            Some(b) => b,
            None => Vec::new(),
        };
        GitStructureService {
            watcher,
            branch_infos,
            commit_infos,
            id_table,
            hierarchy_table,
            watch_registry: Vec::new(),
            next_handle: 0,
        }
    }

    /// Whether another watch can be registered: handle numbers are never
    /// reused, so registration stops at the last one.
    pub fn can_register_watch(&self) -> (r: bool)
        ensures
            r == (self.next_handle_id() < u64::MAX),
    {
        self.next_handle < u64::MAX
    }

    /// Registers a watch over the given path and hands back its handle;
    /// the caller owns the task running behind it. The snapshot is
    /// untouched.
    pub fn watch(&mut self, path: String) -> (h: WatchHandle)
        requires
            old(self).next_handle_id() < u64::MAX,
        ensures
            h.id == old(self).next_handle_id(),
            final(self).registry_view() == old(self).registry_view().push(
                (ActiveWatch { handle: h, path }),
            ),
            final(self).next_handle_id() == old(self).next_handle_id() + 1,
            final(self).branches_view() == old(self).branches_view(),
            final(self).commits_view() == old(self).commits_view(),
            final(self).ids_view() == old(self).ids_view(),
            final(self).hierarchy_view() == old(self).hierarchy_view(),
            final(self).watcher_ref() == old(self).watcher_ref(),
    {
        let handle = WatchHandle { id: self.next_handle };
        self.next_handle = self.next_handle + 1;
        self.watch_registry.push(ActiveWatch { handle, path });
        handle
    }

    /// Stops tracking every active watch and hands the registrations
    /// back, oldest first, so the caller can kill the tasks behind them.
    /// With zero active watches this is a true no-op: nothing is
    /// returned and every part of the service is left as it was.
    pub fn unwatch_all(&mut self) -> (drained: Vec<ActiveWatch>)
        ensures
            drained@ == old(self).registry_view(),
            final(self).registry_view() == Seq::<ActiveWatch>::empty(),
            final(self).next_handle_id() == old(self).next_handle_id(),
            final(self).branches_view() == old(self).branches_view(),
            final(self).commits_view() == old(self).commits_view(),
            final(self).ids_view() == old(self).ids_view(),
            final(self).hierarchy_view() == old(self).hierarchy_view(),
            final(self).watcher_ref() == old(self).watcher_ref(),
    {
        let mut drained: Vec<ActiveWatch> = Vec::new();
        core::mem::swap(&mut self.watch_registry, &mut drained);
        drained
    }
}

impl GitStructureService<()> {
    /// Loads a snapshot of the repository at `path` and builds a
    /// headless service around it.
    ///
    /// Opening the repository is the one fatal failure: it surfaces as
    /// `LoadError::RepositoryOpen`. Every other failure of loading is
    /// absorbed and degrades its part of the snapshot to empty — a
    /// repository with no branches, or none of the listing calls
    /// succeeding, still yields a service.
    pub fn from_path(path: &str) -> (r: Result<Self, LoadError>)
        ensures
            r matches Ok(s) ==> {
                &&& s.ancestry_covered()
                &&& s.commits_view().len() <= MAX_COMMIT_WALK
                &&& s.registry_view() == Seq::<ActiveWatch>::empty()
                &&& s.next_handle_id() == 0
            },
    {
        let branch_result = match gitio::list_branch_infos(path) {
            Ok(branches) => Some(branches),
            Err(_) => None,
        };
        let repo = match gitio::open_repository(path) {
            Ok(repo) => repo,
            Err(e) => {
                return Err(LoadError::RepositoryOpen(gitio::git2_error_message(&e)));
            },
        };
        let tips = match gitio::list_branch_tips(&repo) {
            Ok(tips) => tips,
            Err(_) => Vec::new(),
        };
        let walked = match gitio::walk_commit_ids(&repo, MAX_COMMIT_WALK) {
            Ok(walked) => walked,
            Err(_) => Vec::new(),
        };
        let capped = cap_commit_ids(walked, MAX_COMMIT_WALK);
        let commit_infos = match gitio::resolve_commit_infos(path, &capped) {
            Ok(infos) => infos,
            Err(_) => Vec::new(),
        };
        Ok(Self::assemble((), branch_result, &tips, commit_infos))
    }
}

impl<TWatcher: IGitStructureWatcher> GitStructureService<TWatcher> {
    /// An empty service around the given notification capability: no
    /// branches, no commits, no ancestry, no active watches.
    pub fn new(watcher: TWatcher) -> (s: Self)
        ensures
            s.branches_view() == Seq::<BranchInfo>::empty(),
            s.commits_view() == Seq::<CommitInfo>::empty(),
            s.ids_view() == Set::<Seq<u8>>::empty(),
            s.hierarchy_view() == Map::<Seq<u8>, Seq<Seq<u8>>>::empty(),
            s.registry_view() == Seq::<ActiveWatch>::empty(),
            s.next_handle_id() == 0,
            s.watcher_ref() == watcher,
    {
        GitStructureService {
            watcher,
            branch_infos: Vec::new(),
            commit_infos: Vec::new(),
            id_table: IdTable::new(),
            hierarchy_table: HierarchyTable::new(),
            watch_registry: Vec::new(),
            next_handle: 0,
        }
    }
}

} // verus!
