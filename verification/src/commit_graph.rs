//! Commit identifiers and the ancestry graph discovered from branch tips.

use vstd::prelude::*;

verus! {

/// Opaque content hash identifying a commit; equality is value-based on the
/// raw hash bytes. Used as the node key of the ancestry graph.
#[derive(Debug, PartialEq, Eq)]
pub struct CommitId {
    bytes: Vec<u8>,
}

impl View for CommitId {
    type V = Seq<u8>;

    closed spec fn view(&self) -> Seq<u8> {
        self.bytes@
    }
}

/// Byte-for-byte copy of a byte vector, proved to preserve the contents.
fn copy_bytes(v: &Vec<u8>) -> (r: Vec<u8>)
    ensures
        r@ == v@,
{
    let mut r: Vec<u8> = Vec::new();
    let mut i: usize = 0;
    while i < v.len()
        invariant
            i <= v.len(),
            r@ == v@.subrange(0, i as int),
        decreases v.len() - i,
    {
        r.push(v[i]);
        i = i + 1;
        proof {
            assert(r@ =~= v@.subrange(0, i as int));
        }
    }
    proof {
        assert(r@ =~= v@);
    }
    r
}

impl CommitId {
    /// Builds an identifier from the raw hash bytes.
    pub fn from_bytes(bytes: Vec<u8>) -> (r: CommitId)
        ensures
            r@ == bytes@,
    {
        CommitId { bytes }
    }

    /// The raw hash bytes.
    pub fn as_bytes(&self) -> (r: &Vec<u8>)
        ensures
            r@ == self@,
    {
        &self.bytes
    }

    /// Value-based equality on the hash bytes.
    pub fn same_id(&self, other: &CommitId) -> (r: bool)
        ensures
            r == (self@ == other@),
    {
        if self.bytes.len() != other.bytes.len() {
            proof {
                assert(self@ != other@);
            }
            return false;
        }
        let mut i: usize = 0;
        while i < self.bytes.len()
            invariant
                i <= self.bytes.len(),
                self.bytes.len() == other.bytes.len(),
                forall|j: int| 0 <= j < i ==> self@[j] == other@[j],
            decreases self.bytes.len() - i,
        {
            if self.bytes[i] != other.bytes[i] {
                return false;
            }
            i = i + 1;
        }
        proof {
            assert(self@ =~= other@);
        }
        true
    }
}

impl Clone for CommitId {
    /// Clones preserve the identifier's value.
    fn clone(&self) -> (r: Self)
        ensures
            r@ == self@,
    {
        CommitId { bytes: copy_bytes(&self.bytes) }
    }
}

/// The hash values of a sequence of commit identifiers, in order.
pub open spec fn id_views(ids: Seq<CommitId>) -> Seq<Seq<u8>> {
    ids.map_values(|c: CommitId| c@)
}

/// Element-wise copy of a list of commit identifiers.
pub fn clone_ids(v: &Vec<CommitId>) -> (r: Vec<CommitId>)
    ensures
        id_views(r@) == id_views(v@),
{
    let mut r: Vec<CommitId> = Vec::new();
    let mut i: usize = 0;
    while i < v.len()
        invariant
            i <= v.len(),
            r@.len() == i,
            forall|j: int| 0 <= j < i ==> r@[j]@ == v@[j]@,
        decreases v.len() - i,
    {
        r.push(v[i].clone());
        i = i + 1;
    }
    proof {
        assert(id_views(r@) =~= id_views(v@));
    }
    r
}

/// A branch tip together with the direct parents of its top commit, as
/// discovered at snapshot time.
#[derive(Debug)]
pub struct BranchTip {
    /// The commit the branch reference points to.
    pub id: CommitId,
    /// The direct parent commits of that tip, in parent order.
    pub parents: Vec<CommitId>,
}

/// The set of commit identifiers seen during ancestry discovery.
///
/// Mirrors the deduplication set the loader keeps while visiting branch
/// tips: tips and their direct parents, with value-based membership.
pub struct IdTable {
    items: Vec<CommitId>,
}

impl View for IdTable {
    type V = Set<Seq<u8>>;

    closed spec fn view(&self) -> Set<Seq<u8>> {
        Set::new(|k: Seq<u8>| exists|i: int| 0 <= i < self.items@.len() && self.items@[i]@ == k)
    }
}

impl IdTable {
    /// An empty set of identifiers.
    pub fn new() -> (r: IdTable)
        ensures
            r@ == Set::<Seq<u8>>::empty(),
    {
        let r = IdTable { items: Vec::new() };
        proof {
            assert(r@ =~= Set::<Seq<u8>>::empty());
        }
        r
    }

    /// Whether the identifier's value has been recorded.
    pub fn contains(&self, id: &CommitId) -> (r: bool)
        ensures
            r == self@.contains(id@),
    {
        let mut i: usize = 0;
        while i < self.items.len()
            invariant
                i <= self.items.len(),
                forall|j: int| 0 <= j < i ==> self.items@[j]@ != id@,
            decreases self.items.len() - i,
        {
            if self.items[i].same_id(id) {
                proof {
                    assert(self.items@[i as int]@ == id@);
                }
                return true;
            }
            i = i + 1;
        }
        proof {
            assert(!self@.contains(id@));
        }
        false
    }

    /// Records the identifier's value.
    pub fn insert(&mut self, id: CommitId)
        ensures
            final(self)@ == old(self)@.insert(id@),
    {
        self.items.push(id);
        proof {
            let pre = old(self).items@;
            assert forall|k: Seq<u8>| self@.contains(k) implies old(self)@.insert(
                id@,
            ).contains(k) by {
                let i = choose|i: int|
                    0 <= i < self.items@.len() && self.items@[i]@ == k;
                if i < pre.len() {
                    assert(pre[i]@ == k);
                }
            };
            assert forall|k: Seq<u8>| old(self)@.insert(id@).contains(k) implies self@.contains(
                k,
            ) by {
                if k == id@ {
                    assert(self.items@[pre.len() as int]@ == k);
                } else {
                    let i = choose|i: int| 0 <= i < pre.len() && pre[i]@ == k;
                    assert(self.items@[i]@ == k);
                }
            };
            assert(self@ =~= old(self)@.insert(id@));
        }
    }
}

/// The mathematical contents of an association list from tip hashes to
/// parent-hash sequences: later entries shadow earlier ones, as in a map.
pub open spec fn entries_map(s: Seq<(CommitId, Vec<CommitId>)>) -> Map<Seq<u8>, Seq<Seq<u8>>>
    decreases s.len(),
{
    if s.len() == 0 {
        Map::<Seq<u8>, Seq<Seq<u8>>>::empty()
    } else {
        entries_map(s.drop_last()).insert(s.last().0@, id_views(s.last().1@))
    }
}

/// A key is in the table exactly when some entry carries it.
pub proof fn lemma_entries_map_dom(s: Seq<(CommitId, Vec<CommitId>)>, k: Seq<u8>)
    ensures
        entries_map(s).dom().contains(k) <==> exists|i: int| 0 <= i < s.len() && s[i].0@ == k,
    decreases s.len(),
{
    if s.len() > 0 {
        lemma_entries_map_dom(s.drop_last(), k);
        if s.last().0@ == k {
            assert(s[s.len() - 1].0@ == k);
        } else if entries_map(s).dom().contains(k) {
            let i = choose|i: int| 0 <= i < s.len() - 1 && s.drop_last()[i].0@ == k;
            assert(s[i].0@ == k);
        } else if exists|i: int| 0 <= i < s.len() && s[i].0@ == k {
            let i = choose|i: int| 0 <= i < s.len() && s[i].0@ == k;
            assert(i < s.len() - 1);
            assert(s.drop_last()[i].0@ == k);
        }
    }
}

/// The value bound to a key is the one of the last entry carrying it.
pub proof fn lemma_entries_map_last_match(s: Seq<(CommitId, Vec<CommitId>)>, idx: int)
    requires
        0 <= idx < s.len(),
        forall|j: int| idx < j < s.len() ==> s[j].0@ != s[idx].0@,
    ensures
        entries_map(s).dom().contains(s[idx].0@),
        entries_map(s)[s[idx].0@] == id_views(s[idx].1@),
    decreases s.len(),
{
    if idx == s.len() - 1 {
        assert(s.last() == s[idx]);
    } else {
        assert(forall|j: int|
            idx < j < s.drop_last().len() ==> s.drop_last()[j].0@ != s.drop_last()[idx].0@);
        lemma_entries_map_last_match(s.drop_last(), idx);
        assert(s.last().0@ != s[idx].0@);
        assert(s.drop_last()[idx] == s[idx]);
    }
}

/// Mapping from a commit identifier to the ordered identifiers of its
/// direct parents; covers only commits recorded during tip-driven
/// ancestry discovery.
pub struct HierarchyTable {
    entries: Vec<(CommitId, Vec<CommitId>)>,
}

impl View for HierarchyTable {
    type V = Map<Seq<u8>, Seq<Seq<u8>>>;

    closed spec fn view(&self) -> Map<Seq<u8>, Seq<Seq<u8>>> {
        entries_map(self.entries@)
    }
}

impl HierarchyTable {
    /// An empty table.
    pub fn new() -> (r: HierarchyTable)
        ensures
            r@ == Map::<Seq<u8>, Seq<Seq<u8>>>::empty(),
    {
        HierarchyTable { entries: Vec::new() }
    }

    /// Binds the identifier to its parent list.
    pub fn insert(&mut self, id: CommitId, parents: Vec<CommitId>)
        ensures
            final(self)@ == old(self)@.insert(id@, id_views(parents@)),
    {
        self.entries.push((id, parents));
        proof {
            assert(self.entries@.drop_last() =~= old(self).entries@);
        }
    }

    /// Whether the identifier's value is a key of the table.
    pub fn contains_key(&self, id: &CommitId) -> (r: bool)
        ensures
            r == self@.dom().contains(id@),
    {
        let mut i: usize = 0;
        while i < self.entries.len()
            invariant
                i <= self.entries.len(),
                forall|j: int| 0 <= j < i ==> self.entries@[j].0@ != id@,
            decreases self.entries.len() - i,
        {
            if self.entries[i].0.same_id(id) {
                proof {
                    assert(self.entries@[i as int].0@ == id@);
                    lemma_entries_map_dom(self.entries@, id@);
                }
                return true;
            }
            i = i + 1;
        }
        proof {
            lemma_entries_map_dom(self.entries@, id@);
        }
        false
    }

    /// The recorded parent identifiers of the given commit, if any.
    pub fn parents_of(&self, id: &CommitId) -> (r: Option<&Vec<CommitId>>)
        ensures
            match r {
                Some(parents) => self@.dom().contains(id@) && id_views(parents@) == self@[id@],
                None => !self@.dom().contains(id@),
            },
    {
        let mut i: usize = self.entries.len();
        while i > 0
            invariant
                i <= self.entries.len(),
                forall|j: int| i <= j < self.entries.len() ==> self.entries@[j].0@ != id@,
            decreases i,
        {
            i = i - 1;
            if self.entries[i].0.same_id(id) {
                proof {
                    lemma_entries_map_last_match(self.entries@, i as int);
                }
                return Some(&self.entries[i].1);
            }
        }
        proof {
            lemma_entries_map_dom(self.entries@, id@);
        }
        None
    }
}

/// The identifier set after recording each parent hash in order.
pub open spec fn with_parents(ids: Set<Seq<u8>>, parents: Seq<Seq<u8>>) -> Set<Seq<u8>>
    decreases parents.len(),
{
    if parents.len() == 0 {
        ids
    } else {
        with_parents(ids, parents.drop_last()).insert(parents.last())
    }
}

/// Recording parents keeps every identifier already present and records
/// exactly the parents on top.
pub proof fn lemma_with_parents_members(ids: Set<Seq<u8>>, parents: Seq<Seq<u8>>)
    ensures
        forall|k: Seq<u8>| ids.contains(k) ==> #[trigger] with_parents(ids, parents).contains(k),
        forall|i: int|
            0 <= i < parents.len() ==> with_parents(ids, parents).contains(#[trigger] parents[i]),
        forall|k: Seq<u8>|
            #[trigger] with_parents(ids, parents).contains(k) ==> ids.contains(k) || parents.contains(
                k,
            ),
    decreases parents.len(),
{
    if parents.len() > 0 {
        lemma_with_parents_members(ids, parents.drop_last());
        let dl = parents.drop_last();
        let inner = with_parents(ids, dl);
        let whole = with_parents(ids, parents);
        assert(whole == inner.insert(parents.last()));
        assert forall|k: Seq<u8>| ids.contains(k) implies #[trigger] whole.contains(k) by {
            assert(inner.contains(k));
        };
        assert forall|i: int| 0 <= i < parents.len() implies whole.contains(
            #[trigger] parents[i],
        ) by {
            if i < parents.len() - 1 {
                assert(dl[i] == parents[i]);
                assert(inner.contains(dl[i]));
            } else {
                assert(parents[i] == parents.last());
            }
        };
        assert forall|k: Seq<u8>| #[trigger] whole.contains(k) implies ids.contains(k)
            || parents.contains(k) by {
            if k == parents.last() {
                assert(parents[parents.len() - 1] == k);
            } else {
                assert(inner.contains(k));
                if !ids.contains(k) {
                    assert(dl.contains(k));
                    let i = choose|i: int| 0 <= i < dl.len() && dl[i] == k;
                    assert(parents[i] == k);
                }
            }
        };
    }
}

/// The state of ancestry discovery after visiting a prefix of the branch
/// tips: the identifier set (tips and their direct parents) and the
/// tip-to-parents table. A tip whose identifier was already seen is
/// skipped, so converging branches are visited once.
pub open spec fn discover_prefix(tips: Seq<BranchTip>) -> (Set<Seq<u8>>, Map<
    Seq<u8>,
    Seq<Seq<u8>>,
>)
    decreases tips.len(),
{
    if tips.len() == 0 {
        (Set::<Seq<u8>>::empty(), Map::<Seq<u8>, Seq<Seq<u8>>>::empty())
    } else {
        let prev = discover_prefix(tips.drop_last());
        let t = tips.last();
        if prev.0.contains(t.id@) {
            prev
        } else {
            (
                with_parents(prev.0.insert(t.id@), id_views(t.parents@)),
                prev.1.insert(t.id@, id_views(t.parents@)),
            )
        }
    }
}

/// Every key of the ancestry table is a member of the identifier set.
pub proof fn lemma_ancestry_keys_covered(tips: Seq<BranchTip>)
    ensures
        forall|k: Seq<u8>|
            #[trigger] discover_prefix(tips).1.dom().contains(k) ==> discover_prefix(
                tips,
            ).0.contains(k),
    decreases tips.len(),
{
    if tips.len() > 0 {
        lemma_ancestry_keys_covered(tips.drop_last());
        let prev = discover_prefix(tips.drop_last());
        let t = tips.last();
        if !prev.0.contains(t.id@) {
            lemma_with_parents_members(prev.0.insert(t.id@), id_views(t.parents@));
        }
    }
}

/// Discovery only grows the identifier set and the ancestry table.
pub proof fn lemma_discover_grows(tips: Seq<BranchTip>, j: int)
    requires
        0 <= j <= tips.len(),
    ensures
        forall|k: Seq<u8>|
            #[trigger] discover_prefix(tips.take(j)).0.contains(k) ==> discover_prefix(
                tips,
            ).0.contains(k),
        forall|k: Seq<u8>|
            #[trigger] discover_prefix(tips.take(j)).1.dom().contains(k) ==> discover_prefix(
                tips,
            ).1.dom().contains(k),
    decreases tips.len() - j,
{
    if j == tips.len() {
        assert(tips.take(j) =~= tips);
    } else {
        lemma_discover_grows(tips, j + 1);
        assert(tips.take(j + 1).drop_last() =~= tips.take(j));
        let prev = discover_prefix(tips.take(j));
        let nxt = discover_prefix(tips.take(j + 1));
        let t = tips.take(j + 1).last();
        if prev.0.contains(t.id@) {
            assert(nxt == prev);
        } else {
            lemma_with_parents_members(prev.0.insert(t.id@), id_views(t.parents@));
            assert forall|k: Seq<u8>| prev.0.contains(k) implies nxt.0.contains(k) by {
                assert(prev.0.insert(t.id@).contains(k));
                assert(with_parents(prev.0.insert(t.id@), id_views(t.parents@)).contains(k));
            };
        }
        assert forall|k: Seq<u8>|
            #[trigger] discover_prefix(tips.take(j)).0.contains(k) implies discover_prefix(
            tips,
        ).0.contains(k) by {
            assert(nxt.0.contains(k));
        };
        assert forall|k: Seq<u8>|
            #[trigger] discover_prefix(tips.take(j)).1.dom().contains(k) implies discover_prefix(
            tips,
        ).1.dom().contains(k) by {
            assert(nxt.1.dom().contains(k));
        };
    }
}

/// Every branch tip is either a key of the final ancestry table or was
/// already in the identifier set when it was visited (the dedup skip).
pub proof fn lemma_tip_recorded_or_already_seen(tips: Seq<BranchTip>, i: int)
    requires
        0 <= i < tips.len(),
    ensures
        discover_prefix(tips).1.dom().contains(tips[i].id@) || discover_prefix(
            tips.take(i),
        ).0.contains(tips[i].id@),
{
    let pre = discover_prefix(tips.take(i));
    assert(tips.take(i + 1).drop_last() =~= tips.take(i));
    assert(tips.take(i + 1).last() == tips[i]);
    if !pre.0.contains(tips[i].id@) {
        lemma_with_parents_members(pre.0.insert(tips[i].id@), id_views(tips[i].parents@));
        assert(discover_prefix(tips.take(i + 1)).1.dom().contains(tips[i].id@));
        lemma_discover_grows(tips, i + 1);
    }
}

/// Visits each branch tip in order and records, for each tip not already
/// seen, its identifier and its direct parents in the identifier set and
/// the tip-to-parents table.
pub fn discover_ancestry(tips: &Vec<BranchTip>) -> (r: (IdTable, HierarchyTable))
    ensures
        r.0@ == discover_prefix(tips@).0,
        r.1@ == discover_prefix(tips@).1,
{
    let mut ids = IdTable::new();
    let mut hierarchy = HierarchyTable::new();
    let mut i: usize = 0;
    while i < tips.len()
        invariant
            i <= tips.len(),
            ids@ == discover_prefix(tips@.take(i as int)).0,
            hierarchy@ == discover_prefix(tips@.take(i as int)).1,
        decreases tips.len() - i,
    {
        let t = &tips[i];
        proof {
            assert(tips@.take(i + 1).drop_last() =~= tips@.take(i as int));
            assert(tips@.take(i + 1).last() == tips@[i as int]);
        }
        if !ids.contains(&t.id) {
            ids.insert(t.id.clone());
            let ghost after_tip: Set<Seq<u8>> = ids@;
            let mut j: usize = 0;
            while j < t.parents.len()
                invariant
                    j <= t.parents.len(),
                    ids@ == with_parents(after_tip, id_views(t.parents@).take(j as int)),
                decreases t.parents.len() - j,
            {
                ids.insert(t.parents[j].clone());
                proof {
                    assert(id_views(t.parents@).take(j + 1).drop_last() =~= id_views(
                        t.parents@,
                    ).take(j as int));
                    assert(id_views(t.parents@).take(j + 1).last() == t.parents@[j as int]@);
                }
                j = j + 1;
            }
            proof {
                assert(id_views(t.parents@).take(t.parents@.len() as int) =~= id_views(
                    t.parents@,
                ));
            }
            hierarchy.insert(t.id.clone(), clone_ids(&t.parents));
        }
        i = i + 1;
    }
    proof {
        assert(tips@.take(tips@.len() as int) =~= tips@);
    }
    (ids, hierarchy)
}

} // verus!
