//! The bounded cache of resolved projects.
//!
//! The cache is an optimization only: what was evicted is resolved again.
use crate::ids::{ProjectId, WorkspaceId};
use vstd::prelude::*;

verus! {

/// Default maximum number of hook events that are processed at once.
pub const DEFAULT_HOOK_INGEST_MAX_IN_FLIGHT: usize = 1024;

/// Maximum number of entries that a cache holds by default.
pub const DEFAULT_PROJECT_CACHE_MAX_ENTRIES: usize = 4096;

/// What a resolution depends on: working directory, workspace override, project
/// override and project strategy.
pub type ProjectCacheKey = (String, String, String, String);

/// The view of a [`ProjectCacheKey`].
pub type KeyView = (Seq<char>, Seq<char>, Seq<char>, Seq<char>);

/// The view of an entry: its key, and what the key was resolved to.
pub type EntryView = (KeyView, (WorkspaceId, ProjectId));

/// The view of a key.
pub open spec fn key_view(key: ProjectCacheKey) -> KeyView {
    (key.0@, key.1@, key.2@, key.3@)
}

/// The view of an entry.
pub open spec fn entry_view(entry: (ProjectCacheKey, (WorkspaceId, ProjectId))) -> EntryView {
    (key_view(entry.0), entry.1)
}

/// No key stands in two entries.
pub open spec fn unique_keys(entries: Seq<EntryView>) -> bool {
    forall|i: int, j: int|
        0 <= i < j < entries.len() ==> #[trigger] entries[i].0 != #[trigger] entries[j].0
}

/// `key` stands in an entry.
pub open spec fn has_key(entries: Seq<EntryView>, key: KeyView) -> bool {
    exists|i: int| 0 <= i < entries.len() && #[trigger] entries[i].0 == key
}

/// What `key` was resolved to.
pub open spec fn lookup(entries: Seq<EntryView>, key: KeyView) -> Option<(WorkspaceId, ProjectId)> {
    if has_key(entries, key) {
        let i = choose|i: int| 0 <= i < entries.len() && #[trigger] entries[i].0 == key;
        Some(entries[i].1)
    } else {
        None
    }
}

/// The entries without those of `key`, in the same order.
pub open spec fn without_key(entries: Seq<EntryView>, key: KeyView) -> Seq<EntryView>
    decreases entries.len(),
{
    if entries.len() == 0 {
        entries
    } else {
        let rest = without_key(entries.drop_last(), key);
        if entries.last().0 == key {
            rest
        } else {
            rest.push(entries.last())
        }
    }
}

/// The entries with `key` as the one used last.
pub open spec fn used_last(
    entries: Seq<EntryView>,
    key: KeyView,
    ids: (WorkspaceId, ProjectId),
) -> Seq<EntryView> {
    without_key(entries, key).push((key, ids))
}

/// The entries after an insertion: the key is the one used last, and where there
/// are more than `max` entries the one used longest ago is gone.
pub open spec fn inserted(
    entries: Seq<EntryView>,
    key: KeyView,
    ids: (WorkspaceId, ProjectId),
    max: nat,
) -> Seq<EntryView> {
    let all = used_last(entries, key, ids);
    if all.len() > max {
        all.drop_first()
    } else {
        all
    }
}

/// The elements of `s` that `kept` marks.
pub open spec fn selected<T>(s: Seq<T>, kept: Seq<bool>) -> Seq<T>
    decreases s.len(),
{
    if s.len() == 0 {
        s
    } else {
        let rest = selected(s.drop_last(), kept);
        if kept[s.len() - 1] {
            rest.push(s.last())
        } else {
            rest
        }
    }
}

/// Bounded cache of resolved projects, from the entry used longest ago to the one
/// used last.
#[derive(Debug)]
pub struct ProjectCacheStore {
    entries: Vec<(ProjectCacheKey, (WorkspaceId, ProjectId))>,
    max_entries: usize,
}

impl View for ProjectCacheStore {
    type V = Seq<EntryView>;

    closed spec fn view(&self) -> Seq<EntryView> {
        self.entries@.map_values(|e: (ProjectCacheKey, (WorkspaceId, ProjectId))| entry_view(e))
    }
}

impl Default for ProjectCacheStore {
    fn default() -> (r: Self)
        ensures
            r.wf(),
            r@ == Seq::<EntryView>::empty(),
            r.max() == DEFAULT_PROJECT_CACHE_MAX_ENTRIES,
    {
        ProjectCacheStore::new(DEFAULT_PROJECT_CACHE_MAX_ENTRIES)
    }
}

impl ProjectCacheStore {
    /// How many entries the cache may hold.
    pub closed spec fn max(&self) -> nat {
        self.max_entries as nat
    }

    /// The entries as they are stored.
    pub closed spec fn stored(&self) -> Seq<(ProjectCacheKey, (WorkspaceId, ProjectId))> {
        self.entries@
    }

    /// The cache may hold at least one entry, holds no more than it may, and no key
    /// twice.
    pub open spec fn wf(&self) -> bool {
        &&& self.max() >= 1
        &&& self@.len() <= self.max()
        &&& unique_keys(self@)
    }

    /// An empty cache for `max_entries` entries, or for one where that is zero.
    pub fn new(max_entries: usize) -> (r: Self)
        ensures
            r.wf(),
            r@ == Seq::<EntryView>::empty(),
            r.max() == (if max_entries == 0 {
                1nat
            } else {
                max_entries as nat
            }),
    {
        let max_entries = if max_entries == 0 {
            1
        } else {
            max_entries
        };
        ProjectCacheStore { entries: Vec::new(), max_entries }
    }

    /// Where `key` stands.
    fn position(&self, key: &ProjectCacheKey) -> (r: Option<usize>)
        ensures
            match r {
                Some(i) => i < self@.len() && self@[i as int].0 == key_view(*key),
                None => !has_key(self@, key_view(*key)),
            },
    {
        let mut i: usize = 0;
        while i < self.entries.len()
            invariant
                i <= self.entries@.len(),
                self@.len() == self.entries@.len(),
                forall|j: int| 0 <= j < i ==> #[trigger] self@[j].0 != key_view(*key),
            decreases self.entries.len() - i,
        {
            let k = &self.entries[i].0;
            if k.0 == key.0 && k.1 == key.1 && k.2 == key.2 && k.3 == key.3 {
                return Some(i);
            }
            i = i + 1;
        }
        None
    }

    /// What `key` was resolved to; the entry becomes the one used last.
    pub fn get(&mut self, key: &ProjectCacheKey) -> (r: Option<(WorkspaceId, ProjectId)>)
        requires
            old(self).wf(),
        ensures
            final(self).wf(),
            final(self).max() == old(self).max(),
            r == lookup(old(self)@, key_view(*key)),
            final(self)@ == (match r {
                Some(ids) => used_last(old(self)@, key_view(*key), ids),
                None => old(self)@,
            }),
    {
        match self.position(key) {
            Some(i) => {
                let ids = self.entries[i].1;
                proof {
                    lemma_lookup_at(self@, i as int);
                }
                self.touch(i);
                Some(ids)
            },
            None => None,
        }
    }

    /// Keeps `ids` for `key`, and drops the entry used longest ago where the cache
    /// would hold too many.
    pub fn insert(&mut self, key: ProjectCacheKey, ids: (WorkspaceId, ProjectId))
        requires
            old(self).wf(),
        ensures
            final(self).wf(),
            final(self).max() == old(self).max(),
            final(self)@ == inserted(old(self)@, key_view(key), ids, old(self).max()),
    {
        proof {
            lemma_without_key(self@, key_view(key));
        }
        if let Some(i) = self.position(&key) {
            proof {
                lemma_without_key_at(self@, i as int);
            }
            self.entries.remove(i);
            proof {
                assert(self@ == old(self)@.remove(i as int));
            }
        }
        self.entries.push((key, ids));
        proof {
            assert(self@ == used_last(old(self)@, key_view(key), ids));
        }
        if self.entries.len() > self.max_entries {
            self.entries.remove(0);
            proof {
                assert(self@ == used_last(old(self)@, key_view(key), ids).drop_first());
            }
        }
    }

    /// Forgets `key`.
    pub fn remove(&mut self, key: &ProjectCacheKey)
        requires
            old(self).wf(),
        ensures
            final(self).wf(),
            final(self).max() == old(self).max(),
            final(self)@ == without_key(old(self)@, key_view(*key)),
    {
        proof {
            lemma_without_key(self@, key_view(*key));
        }
        if let Some(i) = self.position(key) {
            proof {
                lemma_without_key_at(self@, i as int);
            }
            self.entries.remove(i);
            proof {
                assert(self@ == old(self)@.remove(i as int));
            }
        }
    }

    /// How many entries there are.
    pub fn len(&self) -> (r: usize)
        ensures
            r == self@.len(),
    {
        self.entries.len()
    }

    /// Whether there is an entry for `key`.
    pub fn contains_key(&self, key: &ProjectCacheKey) -> (r: bool)
        ensures
            r == has_key(self@, key_view(*key)),
    {
        self.position(key).is_some()
    }

    /// What the keys were resolved to.
    pub fn values(&self) -> (r: Vec<(WorkspaceId, ProjectId)>)
        ensures
            r@ == self@.map_values(|e: EntryView| e.1),
    {
        let mut r: Vec<(WorkspaceId, ProjectId)> = Vec::new();
        let mut i: usize = 0;
        while i < self.entries.len()
            invariant
                i <= self.entries@.len(),
                self@.len() == self.entries@.len(),
                r@.len() == i,
                forall|j: int| 0 <= j < i ==> r@[j] == #[trigger] self@[j].1,
            decreases self.entries.len() - i,
        {
            r.push(self.entries[i].1);
            i = i + 1;
        }
        r
    }

    /// Keeps only the entries that match `keep`, in their order.
    pub fn retain<F: Fn(&ProjectCacheKey, &(WorkspaceId, ProjectId)) -> bool>(&mut self, keep: F)
        requires
            old(self).wf(),
            forall|i: int|
                0 <= i < old(self).stored().len() ==> call_requires(
                    keep,
                    (&(#[trigger] old(self).stored()[i]).0, &old(self).stored()[i].1),
                ),
        ensures
            final(self).wf(),
            final(self).max() == old(self).max(),
            exists|kept: Seq<bool>|
                {
                    &&& kept.len() == old(self).stored().len()
                    &&& forall|i: int|
                        0 <= i < kept.len() ==> call_ensures(
                            keep,
                            (&old(self).stored()[i].0, &old(self).stored()[i].1),
                            #[trigger] kept[i],
                        )
                    &&& final(self).stored() == selected(old(self).stored(), kept)
                    &&& final(self)@ == #[trigger] selected(old(self)@, kept)
                },
    {
        let ghost stored = self.stored();
        let ghost mut kept: Seq<bool> = Seq::empty();
        let mut i: usize = 0;
        proof {
            assert(stored.take(0) == Seq::<(ProjectCacheKey, (WorkspaceId, ProjectId))>::empty());
            assert(selected(stored.take(0), kept) + stored.skip(0) == stored);
        }
        while i < self.entries.len()
            invariant
                self.max_entries == old(self).max_entries,
                stored == old(self).stored(),
                i <= kept.len() <= stored.len(),
                selected(stored.take(kept.len() as int), kept).len() == i,
                self.entries@ == selected(stored.take(kept.len() as int), kept) + stored.skip(
                    kept.len() as int,
                ),
                forall|j: int|
                    0 <= j < stored.len() ==> call_requires(
                        keep,
                        (&(#[trigger] stored[j]).0, &stored[j].1),
                    ),
                forall|j: int|
                    0 <= j < kept.len() ==> call_ensures(
                        keep,
                        (&stored[j].0, &stored[j].1),
                        #[trigger] kept[j],
                    ),
            decreases stored.len() - kept.len(),
        {
            let ghost n = kept.len() as int;
            let ghost done = selected(stored.take(n), kept);
            proof {
                assert(n < stored.len());
                assert(self.entries@[i as int] == stored.skip(n)[0]);
                assert(stored.take(n + 1).drop_last() == stored.take(n));
            }
            let b = keep(&self.entries[i].0, &self.entries[i].1);
            proof {
                lemma_selected_ignores_more(stored.take(n), kept, b);
                kept = kept.push(b);
                assert(stored.skip(n) == seq![stored[n]] + stored.skip(n + 1));
            }
            if b {
                i = i + 1;
                proof {
                    assert(done.push(stored[n]) + stored.skip(n + 1) == self.entries@);
                }
            } else {
                self.entries.remove(i);
                proof {
                    assert(self.entries@ == done + stored.skip(n + 1));
                }
            }
        }
        proof {
            let n = kept.len() as int;
            assert(self.entries@.len() == i + stored.skip(n).len());
            assert(stored.take(n) == stored);
            assert(self.stored() == selected(stored, kept));
            lemma_selected_views(stored, kept);
            lemma_selected_is_well_formed(old(self)@, kept);
        }
    }

    /// Makes the entry at `i` the one used last.
    fn touch(&mut self, i: usize)
        requires
            old(self).wf(),
            i < old(self)@.len(),
        ensures
            final(self).wf(),
            final(self).max() == old(self).max(),
            final(self)@ == used_last(old(self)@, old(self)@[i as int].0, old(self)@[i as int].1),
    {
        let entry = self.entries.remove(i);
        proof {
            lemma_without_key(old(self)@, old(self)@[i as int].0);
            lemma_without_key_at(old(self)@, i as int);
        }
        self.entries.push(entry);
        proof {
            assert(self@ == old(self)@.remove(i as int).push(old(self)@[i as int]));
        }
    }
}

/// What was inserted is found, and the cache stays within its bound, without a key
/// that stands twice.
pub proof fn inserted_key_is_found(
    entries: Seq<EntryView>,
    key: KeyView,
    ids: (WorkspaceId, ProjectId),
    max: nat,
)
    requires
        unique_keys(entries),
        entries.len() <= max,
        max >= 1,
    ensures
        lookup(inserted(entries, key, ids, max), key) == Some(ids),
        inserted(entries, key, ids, max).len() <= max,
        unique_keys(inserted(entries, key, ids, max)),
{
    lemma_without_key(entries, key);
    let after = inserted(entries, key, ids, max);
    lemma_lookup_at(after, after.len() - 1);
}

/// An insertion drops at most the entry used longest ago, and that only where the
/// cache is full and the key is new; every other key is found as before.
pub proof fn insertion_drops_only_the_oldest(
    entries: Seq<EntryView>,
    key: KeyView,
    ids: (WorkspaceId, ProjectId),
    max: nat,
    other: KeyView,
)
    requires
        unique_keys(entries),
        entries.len() <= max,
        max >= 1,
        has_key(entries, other),
        other != key,
    ensures
        lookup(inserted(entries, key, ids, max), other) == (if entries.len() == max && !has_key(
            entries,
            key,
        ) && entries[0].0 == other {
            None
        } else {
            lookup(entries, other)
        }),
{
    let kept = without_key(entries, key);
    let all = used_last(entries, key, ids);
    let after = inserted(entries, key, ids, max);
    lemma_without_key(entries, key);
    lemma_kept_entries(entries, key, other);
    assert(has_key(kept, other));
    let i = choose|i: int| 0 <= i < kept.len() && #[trigger] kept[i].0 == other;
    lemma_lookup_at(kept, i);
    assert(all[i] == kept[i]);
    if all.len() > max {
        if has_key(entries, key) {
            let j = choose|j: int| 0 <= j < entries.len() && #[trigger] entries[j].0 == key;
            lemma_without_key_at(entries, j);
        }
        assert(kept == entries);
        if i == 0 {
            if has_key(after, other) {
                let j = choose|j: int| 0 <= j < after.len() && #[trigger] after[j].0 == other;
                assert(all[j + 1].0 == other);
                if j + 1 < kept.len() {
                    assert(kept[0].0 != kept[j + 1].0);
                }
            }
        } else {
            assert(kept[0].0 != kept[i].0);
            assert(after[i - 1] == kept[i]);
            lemma_lookup_at(after, i - 1);
        }
    } else {
        lemma_lookup_at(after, i);
        if entries.len() == max && !has_key(entries, key) {
            assert(kept == entries);
        }
    }
}

/// An entry that was just used outlives the next insertion, in a cache for at least
/// two entries.
pub proof fn used_entry_survives_an_insertion(
    entries: Seq<EntryView>,
    used: KeyView,
    key: KeyView,
    ids: (WorkspaceId, ProjectId),
    max: nat,
)
    requires
        unique_keys(entries),
        entries.len() <= max,
        max >= 2,
        has_key(entries, used),
        key != used,
    ensures
        lookup(
            inserted(used_last(entries, used, lookup(entries, used)->0), key, ids, max),
            used,
        ) == lookup(entries, used),
{
    let i = choose|i: int| 0 <= i < entries.len() && #[trigger] entries[i].0 == used;
    lemma_without_key(entries, used);
    lemma_without_key_at(entries, i);
    let touched = used_last(entries, used, lookup(entries, used)->0);
    assert(touched[touched.len() - 1].0 == used);
    lemma_lookup_at(touched, touched.len() - 1);
    if touched.len() == max {
        assert(touched[0].0 != touched[touched.len() - 1].0);
    }
    insertion_drops_only_the_oldest(touched, key, ids, max, used);
}

/// What was removed is not found, and everything else is found as before.
pub proof fn removed_key_is_gone(entries: Seq<EntryView>, key: KeyView, other: KeyView)
    requires
        unique_keys(entries),
    ensures
        lookup(without_key(entries, key), key) is None,
        other != key ==> lookup(without_key(entries, key), other) == lookup(entries, other),
{
    lemma_without_key(entries, key);
    if other != key {
        lemma_kept_entries(entries, key, other);
    }
}

/// Dropping a key leaves the other keys' entries as they are.
proof fn lemma_kept_entries(entries: Seq<EntryView>, key: KeyView, other: KeyView)
    requires
        unique_keys(entries),
        other != key,
    ensures
        lookup(without_key(entries, key), other) == lookup(entries, other),
{
    let kept = without_key(entries, key);
    lemma_without_key(entries, key);
    assert(has_key(kept, other) <==> has_key(entries, other));
    if has_key(kept, other) {
        let i = choose|i: int| 0 <= i < kept.len() && #[trigger] kept[i].0 == other;
        lemma_lookup_at(kept, i);
        assert(entries.contains(kept[i]));
        let j = choose|j: int| 0 <= j < entries.len() && entries[j] == kept[i];
        lemma_lookup_at(entries, j);
    }
}

/// What is found is an entry.
pub(crate) proof fn lemma_lookup_is_an_entry(entries: Seq<EntryView>, key: KeyView)
    ensures
        lookup(entries, key) matches Some(ids) ==> entries.contains((key, ids)),
{
    if has_key(entries, key) {
        let i = choose|i: int| 0 <= i < entries.len() && #[trigger] entries[i].0 == key;
        assert(entries[i] == (entries[i].0, entries[i].1));
        assert(entries.contains(entries[i]));
    }
}

/// What a use leaves comes from the entries, but for the entry that was used.
pub(crate) proof fn lemma_used_last_entries(
    entries: Seq<EntryView>,
    key: KeyView,
    ids: (WorkspaceId, ProjectId),
)
    ensures
        forall|i: int|
            0 <= i < used_last(entries, key, ids).len() ==> #[trigger] used_last(
                entries,
                key,
                ids,
            )[i] == (key, ids) || entries.contains(used_last(entries, key, ids)[i]),
{
    lemma_without_key(entries, key);
    let kept = without_key(entries, key);
    let all = used_last(entries, key, ids);
    assert forall|i: int| 0 <= i < all.len() implies #[trigger] all[i] == (key, ids)
        || entries.contains(all[i]) by {
        if i < kept.len() {
            assert(all[i] == kept[i]);
        }
    }
}

/// What an insertion leaves comes from the entries, but for the entry that was
/// inserted.
pub(crate) proof fn lemma_inserted_entries(
    entries: Seq<EntryView>,
    key: KeyView,
    ids: (WorkspaceId, ProjectId),
    max: nat,
)
    ensures
        forall|i: int|
            0 <= i < inserted(entries, key, ids, max).len() ==> #[trigger] inserted(
                entries,
                key,
                ids,
                max,
            )[i] == (key, ids) || entries.contains(inserted(entries, key, ids, max)[i]),
{
    lemma_used_last_entries(entries, key, ids);
    let all = used_last(entries, key, ids);
    let after = inserted(entries, key, ids, max);
    assert forall|i: int| 0 <= i < after.len() implies #[trigger] after[i] == (key, ids)
        || entries.contains(after[i]) by {
        if all.len() > max {
            assert(after[i] == all[i + 1]);
        }
    }
}

/// A mark beyond the end selects nothing.
proof fn lemma_selected_ignores_more<T>(s: Seq<T>, kept: Seq<bool>, b: bool)
    requires
        s.len() <= kept.len(),
    ensures
        selected(s, kept.push(b)) == selected(s, kept),
    decreases s.len(),
{
    if s.len() > 0 {
        lemma_selected_ignores_more(s.drop_last(), kept, b);
    }
}

/// Selecting and viewing can change places.
proof fn lemma_selected_views(
    s: Seq<(ProjectCacheKey, (WorkspaceId, ProjectId))>,
    kept: Seq<bool>,
)
    ensures
        selected(s, kept).map_values(
            |e: (ProjectCacheKey, (WorkspaceId, ProjectId))| entry_view(e),
        ) == selected(
            s.map_values(|e: (ProjectCacheKey, (WorkspaceId, ProjectId))| entry_view(e)),
            kept,
        ),
    decreases s.len(),
{
    let view = |e: (ProjectCacheKey, (WorkspaceId, ProjectId))| entry_view(e);
    if s.len() > 0 {
        lemma_selected_views(s.drop_last(), kept);
        assert(s.map_values(view).drop_last() == s.drop_last().map_values(view));
    }
}

/// A selection has no more entries, all of them from the whole, and unique keys
/// where the whole has.
proof fn lemma_selected_is_well_formed(entries: Seq<EntryView>, kept: Seq<bool>)
    ensures
        selected(entries, kept).len() <= entries.len(),
        forall|i: int|
            0 <= i < selected(entries, kept).len() ==> entries.contains(
                #[trigger] selected(entries, kept)[i],
            ),
        unique_keys(entries) ==> unique_keys(selected(entries, kept)),
    decreases entries.len(),
{
    if entries.len() > 0 {
        let head = entries.drop_last();
        let rest = selected(head, kept);
        let all = selected(entries, kept);
        lemma_selected_is_well_formed(head, kept);
        assert forall|i: int| 0 <= i < all.len() implies entries.contains(#[trigger] all[i]) by {
            if i < rest.len() {
                assert(head.contains(rest[i]));
                let j = choose|j: int| 0 <= j < head.len() && head[j] == rest[i];
                assert(entries[j] == rest[i]);
            } else {
                assert(entries[entries.len() - 1] == all[i]);
            }
        }
        if unique_keys(entries) {
            assert forall|i: int, j: int| 0 <= i < j < head.len() implies #[trigger] head[i].0
                != #[trigger] head[j].0 by {
                assert(entries[i].0 != entries[j].0);
            }
            assert forall|i: int, j: int| 0 <= i < j < all.len() implies #[trigger] all[i].0
                != #[trigger] all[j].0 by {
                if j < rest.len() {
                    assert(rest[i].0 != rest[j].0);
                } else {
                    assert(head.contains(rest[i]));
                    let m = choose|m: int| 0 <= m < head.len() && head[m] == rest[i];
                    assert(entries[m].0 != entries[entries.len() - 1].0);
                }
            }
        }
    }
}

/// Dropping a key drops nothing else, and keeps the keys unique.
proof fn lemma_without_key(entries: Seq<EntryView>, key: KeyView)
    ensures
        !has_key(without_key(entries, key), key),
        without_key(entries, key).len() <= entries.len(),
        !has_key(entries, key) ==> without_key(entries, key) == entries,
        unique_keys(entries) ==> unique_keys(without_key(entries, key)),
        forall|k: KeyView|
            k != key ==> (#[trigger] has_key(without_key(entries, key), k) <==> has_key(
                entries,
                k,
            )),
        forall|i: int|
            0 <= i < without_key(entries, key).len() ==> entries.contains(
                #[trigger] without_key(entries, key)[i],
            ),
    decreases entries.len(),
{
    if entries.len() > 0 {
        let head = entries.drop_last();
        let last = entries.last();
        let rest = without_key(head, key);
        let all = without_key(entries, key);
        lemma_without_key(head, key);
        assert forall|i: int| 0 <= i < all.len() implies entries.contains(#[trigger] all[i]) by {
            if i < rest.len() {
                assert(head.contains(rest[i]));
                let j = choose|j: int| 0 <= j < head.len() && head[j] == rest[i];
                assert(entries[j] == rest[i]);
            } else {
                assert(entries[entries.len() - 1] == last);
            }
        }
        assert forall|k: KeyView| k != key implies (#[trigger] has_key(all, k) <==> has_key(
            entries,
            k,
        )) by {
            assert(has_key(rest, k) <==> has_key(head, k));
            if has_key(all, k) {
                let i = choose|i: int| 0 <= i < all.len() && #[trigger] all[i].0 == k;
                assert(entries.contains(all[i]));
            }
            if has_key(entries, k) {
                let i = choose|i: int| 0 <= i < entries.len() && #[trigger] entries[i].0 == k;
                if i < head.len() {
                    assert(head[i].0 == k);
                    let j = choose|j: int| 0 <= j < rest.len() && #[trigger] rest[j].0 == k;
                    assert(all[j].0 == k);
                } else {
                    assert(all[all.len() - 1].0 == k);
                }
            }
        }
        if has_key(all, key) {
            let i = choose|i: int| 0 <= i < all.len() && #[trigger] all[i].0 == key;
            if i < rest.len() {
                assert(rest[i].0 == key);
            }
        }
        if !has_key(entries, key) {
            if has_key(head, key) {
                let i = choose|i: int| 0 <= i < head.len() && #[trigger] head[i].0 == key;
                assert(entries[i].0 == key);
            }
            assert(entries[entries.len() - 1] == last);
            assert(all =~= entries);
        }
        if unique_keys(entries) {
            assert forall|i: int, j: int| 0 <= i < j < head.len() implies #[trigger] head[i].0
                != #[trigger] head[j].0 by {
                assert(entries[i].0 != entries[j].0);
            }
            assert forall|i: int, j: int| 0 <= i < j < all.len() implies #[trigger] all[i].0
                != #[trigger] all[j].0 by {
                if j < rest.len() {
                    assert(rest[i].0 != rest[j].0);
                } else {
                    assert(head.contains(rest[i]));
                    let m = choose|m: int| 0 <= m < head.len() && head[m] == rest[i];
                    assert(entries[m].0 != entries[entries.len() - 1].0);
                }
            }
        }
    }
}

/// Where the keys are unique, dropping a key is taking its one entry out.
proof fn lemma_without_key_at(entries: Seq<EntryView>, i: int)
    requires
        unique_keys(entries),
        0 <= i < entries.len(),
    ensures
        without_key(entries, entries[i].0) == entries.remove(i),
    decreases entries.len(),
{
    let head = entries.drop_last();
    let key = entries[i].0;
    assert forall|a: int, b: int| 0 <= a < b < head.len() implies #[trigger] head[a].0
        != #[trigger] head[b].0 by {
        assert(entries[a].0 != entries[b].0);
    }
    if i == entries.len() - 1 {
        if has_key(head, key) {
            let j = choose|j: int| 0 <= j < head.len() && #[trigger] head[j].0 == key;
            assert(entries[j].0 != entries[i].0);
        }
        lemma_without_key(head, key);
        assert(entries.remove(i) == head);
    } else {
        assert(entries[i].0 != entries[entries.len() - 1].0);
        lemma_without_key_at(head, i);
        assert(entries.remove(i) == head.remove(i).push(entries.last()));
    }
}

/// Where the keys are unique, an entry is what its key is looked up as.
proof fn lemma_lookup_at(entries: Seq<EntryView>, i: int)
    requires
        unique_keys(entries),
        0 <= i < entries.len(),
    ensures
        lookup(entries, entries[i].0) == Some(entries[i].1),
{
    let key = entries[i].0;
    let j = choose|j: int| 0 <= j < entries.len() && #[trigger] entries[j].0 == key;
    assert(entries[i].0 == key);
    if i < j {
        assert(entries[i].0 != entries[j].0);
    } else if j < i {
        assert(entries[j].0 != entries[i].0);
    }
}

/// A key is in the cache exactly where an entry has it, component for component, and
/// what is looked up is what that entry holds.
pub proof fn lookup_finds_the_entry(
    entries: Seq<EntryView>,
    key: KeyView,
    i: int,
    stored: (ProjectCacheKey, (WorkspaceId, ProjectId)),
)
    requires
        unique_keys(entries),
    ensures
        0 <= i < entries.len() && entries[i].0 == key ==> has_key(entries, key) && lookup(
            entries,
            key,
        ) == Some(entries[i].1),
        (forall|j: int| 0 <= j < entries.len() ==> #[trigger] entries[j].0 != key) ==> !has_key(
            entries,
            key,
        ) && lookup(entries, key) is None,
        entry_view(stored).0 == (stored.0.0@, stored.0.1@, stored.0.2@, stored.0.3@),
        key_view(stored.0) == entry_view(stored).0,
        entry_view(stored).1 == stored.1,
{
    if 0 <= i < entries.len() && entries[i].0 == key {
        lemma_lookup_at(entries, i);
    }
}

/// What is used goes to the end, and every other entry keeps its place in the order:
/// using the entry at `i` takes it out and puts it last, using a new key puts it last.
/// Removing a key takes its one entry out.
pub proof fn use_moves_the_entry_to_the_end(
    entries: Seq<EntryView>,
    key: KeyView,
    ids: (WorkspaceId, ProjectId),
    i: int,
)
    requires
        unique_keys(entries),
    ensures
        0 <= i < entries.len() && entries[i].0 == key ==> used_last(entries, key, ids)
            == entries.remove(i).push((key, ids)) && without_key(entries, key) == entries.remove(i),
        (forall|j: int| 0 <= j < entries.len() ==> #[trigger] entries[j].0 != key) ==> used_last(
            entries,
            key,
            ids,
        ) == entries.push((key, ids)) && without_key(entries, key) == entries,
{
    if 0 <= i < entries.len() && entries[i].0 == key {
        lemma_without_key_at(entries, i);
    }
    if forall|j: int| 0 <= j < entries.len() ==> #[trigger] entries[j].0 != key {
        lemma_without_key(entries, key);
    }
}

/// An insertion puts its entry last: in place of the entry of the same key, or behind
/// all others, and then the entry used longest ago goes where the cache was full.
pub proof fn insertion_puts_the_entry_last(
    entries: Seq<EntryView>,
    key: KeyView,
    ids: (WorkspaceId, ProjectId),
    max: nat,
    i: int,
)
    requires
        unique_keys(entries),
        entries.len() <= max,
        max >= 1,
    ensures
        0 <= i < entries.len() && entries[i].0 == key ==> inserted(entries, key, ids, max)
            == entries.remove(i).push((key, ids)),
        (forall|j: int| 0 <= j < entries.len() ==> #[trigger] entries[j].0 != key) && entries.len()
            < max ==> inserted(entries, key, ids, max) == entries.push((key, ids)),
        (forall|j: int| 0 <= j < entries.len() ==> #[trigger] entries[j].0 != key) && entries.len()
            == max ==> inserted(entries, key, ids, max) == entries.drop_first().push((key, ids)),
{
    use_moves_the_entry_to_the_end(entries, key, ids, i);
    if (forall|j: int| 0 <= j < entries.len() ==> #[trigger] entries[j].0 != key) && entries.len()
        == max {
        assert(entries.push((key, ids)).drop_first() == entries.drop_first().push((key, ids)));
    }
}

/// A selection goes element by element: one element more adds itself at the end where it
/// is marked, and nothing where it is not. So what is marked stays, in order, and
/// nothing else does.
pub proof fn selection_goes_element_by_element<T>(s: Seq<T>, x: T, kept: Seq<bool>, mark: bool)
    requires
        kept.len() == s.len(),
    ensures
        selected(s.push(x), kept.push(mark)) == (if mark {
            selected(s, kept).push(x)
        } else {
            selected(s, kept)
        }),
        s.len() == 0 ==> selected(s, kept).len() == 0,
{
    assert(s.push(x).drop_last() == s);
    lemma_selected_ignores_more(s, kept, mark);
}

/// A new cache is empty and may hold as many entries as it was made for, but one at
/// least; what it holds is seen as it is stored.
pub proof fn cache_is_seen_as_it_is(
    max_entries: usize,
    made: ProjectCacheStore,
    r: ProjectCacheStore,
)
    requires
        call_ensures(ProjectCacheStore::new, (max_entries,), made),
    ensures
        made@.len() == 0,
        max_entries >= 1 ==> made.max() == max_entries,
        max_entries == 0 ==> made.max() == 1,
        r@.len() == r.stored().len(),
        forall|i: int|
            0 <= i < r.stored().len() ==> (#[trigger] r@[i]).1 == r.stored()[i].1 && r@[i].0
                == key_view(r.stored()[i].0),
        r.wf() <==> 1 <= r.max() && r.stored().len() <= r.max() && forall|i: int, j: int|
            0 <= i < j < r@.len() ==> (#[trigger] r@[i]).0 != (#[trigger] r@[j]).0,
{
}

} // verus!
