//! A map keyed by workspace identity, kept as a list in which no identity
//! occurs twice. New identities go to the end, so the entries stay in the
//! order in which their identities first came.

use crate::workspace::{WorkspaceName, WorkspaceType};
use vstd::prelude::*;

verus! {

/// Whether no identity occurs twice in `entries`.
pub open spec fn distinct_keys<V>(entries: Seq<(WorkspaceType, V)>) -> bool {
    forall|i: int, j: int|
        0 <= i < j < entries.len() ==> (#[trigger] entries[i]).0@ != (#[trigger] entries[j]).0@
}

/// Whether some entry of `entries` has the identity `key`.
pub open spec fn has_key<V>(entries: Seq<(WorkspaceType, V)>, key: WorkspaceName) -> bool {
    exists|i: int| 0 <= i < entries.len() && (#[trigger] entries[i]).0@ == key
}

/// The place of an entry with the identity `key`.
pub open spec fn place_of<V>(entries: Seq<(WorkspaceType, V)>, key: WorkspaceName) -> int {
    choose|i: int| 0 <= i < entries.len() && (#[trigger] entries[i]).0@ == key
}

/// The map that `entries` stands for.
pub open spec fn map_of<V: DeepView>(entries: Seq<(WorkspaceType, V)>) -> Map<WorkspaceName, V::V> {
    Map::new(
        |key: WorkspaceName| has_key(entries, key),
        |key: WorkspaceName| entries[place_of(entries, key)].1.deep_view(),
    )
}

/// The set of the identities in `keys`.
pub open spec fn key_set(keys: Seq<WorkspaceType>) -> Set<WorkspaceName> {
    Set::new(|key: WorkspaceName| exists|i: int| 0 <= i < keys.len() && (#[trigger] keys[i])@ == key)
}

/// Where no identity occurs twice, every entry is what the map holds for
/// its identity.
pub proof fn entries_are_the_map<V: DeepView>(entries: Seq<(WorkspaceType, V)>)
    requires
        distinct_keys(entries),
    ensures
        forall|i: int|
            0 <= i < entries.len() ==> map_of(entries).contains_key((#[trigger] entries[i]).0@)
                && map_of(entries)[entries[i].0@] == entries[i].1.deep_view(),
        forall|key: WorkspaceName|
            map_of(entries).contains_key(key) ==> 0 <= place_of(entries, key) < entries.len()
                && entries[place_of(entries, key)].0@ == key,
{
    assert forall|i: int| 0 <= i < entries.len() implies map_of(entries).contains_key(
        (#[trigger] entries[i]).0@,
    ) && map_of(entries)[entries[i].0@] == entries[i].1.deep_view() by {
        let key = entries[i].0@;
        assert(has_key(entries, key));
        let j = place_of(entries, key);
        assert(0 <= j < entries.len() && entries[j].0@ == key);
        if j < i {
            assert(entries[j].0@ != entries[i].0@);
        }
        if i < j {
            assert(entries[i].0@ != entries[j].0@);
        }
    }
}

/// A list without a repeated identity stands for a finite map with one
/// key for each entry.
pub proof fn map_has_one_key_each<V: DeepView>(entries: Seq<(WorkspaceType, V)>)
    requires
        distinct_keys(entries),
    ensures
        map_of(entries).dom().finite(),
        map_of(entries).dom().len() == entries.len(),
    decreases entries.len(),
{
    if entries.len() == 0 {
        assert(map_of(entries).dom() =~= Set::empty());
    } else {
        let front = entries.drop_last();
        let last = entries.last();
        assert forall|i: int, j: int| 0 <= i < j < front.len() implies (#[trigger] front[i]).0@ != (
        #[trigger] front[j]).0@ by {
            assert(front[i] == entries[i]);
            assert(front[j] == entries[j]);
        }
        map_has_one_key_each(front);
        assert(!map_of(front).dom().contains(last.0@)) by {
            if has_key(front, last.0@) {
                let i = place_of(front, last.0@);
                assert(front[i] == entries[i]);
                assert(entries[i].0@ != entries[entries.len() - 1].0@);
            }
        }
        assert(map_of(entries).dom() =~= map_of(front).dom().insert(last.0@)) by {
            assert forall|key: WorkspaceName| map_of(entries).dom().contains(key) implies map_of(
                front,
            ).dom().insert(last.0@).contains(key) by {
                let i = place_of(entries, key);
                if i < front.len() {
                    assert(front[i] == entries[i]);
                }
            }
            assert forall|key: WorkspaceName|
                map_of(front).dom().insert(last.0@).contains(key) implies map_of(
                entries,
            ).dom().contains(key) by {
                if key == last.0@ {
                    assert(entries[entries.len() - 1].0@ == key);
                } else {
                    let i = place_of(front, key);
                    assert(front[i] == entries[i]);
                }
            }
        }
    }
}

/// Taking one entry out of a list without a repeated identity takes its
/// identity out of the map, and nothing else.
pub proof fn entry_removed<V: DeepView>(entries: Seq<(WorkspaceType, V)>, i: int)
    requires
        distinct_keys(entries),
        0 <= i < entries.len(),
    ensures
        distinct_keys(entries.remove(i)),
        map_of(entries.remove(i)) == map_of(entries).remove(entries[i].0@),
{
    let before = entries;
    let after = entries.remove(i);
    let key = entries[i].0@;
    entries_are_the_map(before);
    assert forall|a: int, b: int| 0 <= a < b < after.len() implies (#[trigger] after[a]).0@ != (
    #[trigger] after[b]).0@ by {
        let x = if a < i {
            a
        } else {
            a + 1
        };
        let y = if b < i {
            b
        } else {
            b + 1
        };
        assert(after[a] == before[x]);
        assert(after[b] == before[y]);
    }
    entries_are_the_map(after);
    assert forall|k: WorkspaceName| has_key(after, k) <==> (has_key(before, k) && k != key) by {
        if has_key(after, k) {
            let a = place_of(after, k);
            let x = if a < i {
                a
            } else {
                a + 1
            };
            assert(after[a] == before[x]);
            assert(before[x].0@ == k);
            if x < i {
                assert(before[x].0@ != before[i].0@);
            } else {
                assert(before[i].0@ != before[x].0@);
            }
        }
        if has_key(before, k) && k != key {
            let x = place_of(before, k);
            let a = if x < i {
                x
            } else {
                x - 1
            };
            assert(after[a] == before[x]);
        }
    }
    assert(map_of(after) =~= map_of(before).remove(key)) by {
        assert forall|k: WorkspaceName| map_of(after).contains_key(k) implies (#[trigger] map_of(
            after,
        )[k]) == map_of(before).remove(key)[k] by {
            let a = place_of(after, k);
            let x = if a < i {
                a
            } else {
                a + 1
            };
            assert(after[a] == before[x]);
        }
    }
}

/// Putting an entry in the place of one with the same identity writes its
/// value into the map, and nothing else.
pub proof fn entry_replaced<V: DeepView>(
    entries: Seq<(WorkspaceType, V)>,
    i: int,
    entry: (WorkspaceType, V),
)
    requires
        distinct_keys(entries),
        0 <= i < entries.len(),
        entries[i].0@ == entry.0@,
    ensures
        distinct_keys(entries.update(i, entry)),
        map_of(entries.update(i, entry)) == map_of(entries).insert(entry.0@, entry.1.deep_view()),
        place_of(entries, entry.0@) == i,
{
    let before = entries;
    let after = entries.update(i, entry);
    entries_are_the_map(before);
    assert forall|a: int, b: int| 0 <= a < b < after.len() implies (#[trigger] after[a]).0@ != (
    #[trigger] after[b]).0@ by {
        assert(after[a].0@ == before[a].0@);
        assert(after[b].0@ == before[b].0@);
    }
    entries_are_the_map(after);
    assert forall|k: WorkspaceName| has_key(after, k) <==> has_key(before, k) by {
        if has_key(after, k) {
            let a = place_of(after, k);
            assert(before[a].0@ == k);
        }
        if has_key(before, k) {
            let a = place_of(before, k);
            assert(after[a].0@ == k);
        }
    }
    assert(map_of(after) =~= map_of(before).insert(entry.0@, entry.1.deep_view())) by {
        assert forall|k: WorkspaceName| map_of(after).contains_key(k) implies (#[trigger] map_of(
            after,
        )[k]) == map_of(before).insert(entry.0@, entry.1.deep_view())[k] by {
            let a = place_of(after, k);
            assert(after[a].0@ == k);
            if a != i {
                assert(after[a] == before[a]);
            }
        }
    }
    let at = place_of(before, entry.0@);
    assert(has_key(before, entry.0@));
    if at < i {
        assert(before[at].0@ != before[i].0@);
    }
    if i < at {
        assert(before[i].0@ != before[at].0@);
    }
}

/// Adding an entry with a new identity at the end adds it to the map.
pub proof fn entry_pushed<V: DeepView>(entries: Seq<(WorkspaceType, V)>, entry: (WorkspaceType, V))
    requires
        distinct_keys(entries),
        !has_key(entries, entry.0@),
    ensures
        distinct_keys(entries.push(entry)),
        map_of(entries.push(entry)) == map_of(entries).insert(entry.0@, entry.1.deep_view()),
{
    let before = entries;
    let after = entries.push(entry);
    assert forall|a: int, b: int| 0 <= a < b < after.len() implies (#[trigger] after[a]).0@ != (
    #[trigger] after[b]).0@ by {
        assert(after[a] == before[a]);
        if b < before.len() {
            assert(after[b] == before[b]);
        }
    }
    entries_are_the_map(after);
    entries_are_the_map(before);
    assert forall|k: WorkspaceName| has_key(after, k) <==> (has_key(before, k) || k
        == entry.0@) by {
        if has_key(after, k) {
            let a = place_of(after, k);
            if a < before.len() {
                assert(before[a].0@ == k);
            }
        }
        if has_key(before, k) {
            let a = place_of(before, k);
            assert(after[a].0@ == k);
        }
        if k == entry.0@ {
            assert(after[after.len() - 1].0@ == k);
        }
    }
    assert(map_of(after) =~= map_of(before).insert(entry.0@, entry.1.deep_view())) by {
        assert forall|k: WorkspaceName| map_of(after).contains_key(k) implies (#[trigger] map_of(
            after,
        )[k]) == map_of(before).insert(entry.0@, entry.1.deep_view())[k] by {
            let a = place_of(after, k);
            assert(after[a].0@ == k);
            if a < before.len() {
                assert(after[a] == before[a]);
            }
        }
    }
}

/// The first entries of a list without a repeated identity are such a
/// list, and the next entry has an identity that is new to them.
pub proof fn prefix_is_distinct<V: DeepView>(entries: Seq<(WorkspaceType, V)>, i: int)
    requires
        distinct_keys(entries),
        0 <= i <= entries.len(),
    ensures
        distinct_keys(entries.take(i)),
        i < entries.len() ==> !has_key(entries.take(i), entries[i].0@) && entries.take(i + 1)
            == entries.take(i).push(entries[i]),
        map_of(entries.take(0)) == Map::<WorkspaceName, V::V>::empty(),
        entries.take(entries.len() as int) == entries,
{
    let front = entries.take(i);
    assert forall|a: int, b: int| 0 <= a < b < front.len() implies (#[trigger] front[a]).0@ != (
    #[trigger] front[b]).0@ by {
        assert(front[a] == entries[a]);
        assert(front[b] == entries[b]);
    }
    if i < entries.len() {
        if has_key(front, entries[i].0@) {
            let a = place_of(front, entries[i].0@);
            assert(front[a] == entries[a]);
            assert(entries[a].0@ != entries[i].0@);
        }
        assert(entries.take(i + 1) =~= front.push(entries[i]));
    }
    assert(map_of(entries.take(0)) =~= Map::<WorkspaceName, V::V>::empty());
    assert(entries.take(entries.len() as int) =~= entries);
}

/// Whether `key` is one of `keys`.
pub fn contains_workspace(keys: &Vec<WorkspaceType>, key: &WorkspaceType) -> (r: bool)
    ensures
        r == key_set(keys@).contains(key@),
{
    let mut i: usize = 0;
    while i < keys.len()
        invariant
            i <= keys.len(),
            forall|j: int| 0 <= j < i ==> (#[trigger] keys@[j])@ != key@,
        decreases keys.len() - i,
    {
        if keys[i].same(key) {
            return true;
        }
        i += 1;
    }
    false
}

/// A map from workspace identities to values.
pub struct WorkspaceMap<V> {
    entries: Vec<(WorkspaceType, V)>,
}

impl<V: DeepView> View for WorkspaceMap<V> {
    type V = Map<WorkspaceName, V::V>;

    closed spec fn view(&self) -> Map<WorkspaceName, V::V> {
        map_of(self.entries@)
    }
}

impl<V> WorkspaceMap<V> {
    #[verifier::type_invariant]
    spec fn holds_no_key_twice(&self) -> bool {
        distinct_keys(self.entries@)
    }
}

impl<V: DeepView> WorkspaceMap<V> {
    /// The entries, in the order in which their identities first came.
    pub closed spec fn listed(&self) -> Seq<(WorkspaceType, V)> {
        self.entries@
    }

    /// The map without entries.
    pub fn new() -> (r: WorkspaceMap<V>)
        ensures
            r@ == Map::<WorkspaceName, V::V>::empty(),
            r.listed().len() == 0,
    {
        let r = WorkspaceMap { entries: Vec::new() };
        assert(r@ =~= Map::<WorkspaceName, V::V>::empty());
        r
    }

    /// The entries as a list: no identity occurs twice in it, and it
    /// stands for this map.
    pub fn entries(&self) -> (r: &Vec<(WorkspaceType, V)>)
        ensures
            r@ == self.listed(),
            distinct_keys(r@),
            map_of(r@) == self@,
    {
        proof {
            use_type_invariant(self);
        }
        &self.entries
    }

    /// How many identities the map holds.
    pub fn len(&self) -> (r: usize)
        ensures
            self@.dom().finite(),
            r == self@.len(),
            r == self.listed().len(),
    {
        proof {
            use_type_invariant(self);
            map_has_one_key_each(self.entries@);
        }
        self.entries.len()
    }

    /// Whether the map holds nothing.
    pub fn is_empty(&self) -> (r: bool)
        ensures
            r == (self@ == Map::<WorkspaceName, V::V>::empty()),
    {
        proof {
            use_type_invariant(self);
            if self.entries@.len() == 0 {
                assert(self@ =~= Map::<WorkspaceName, V::V>::empty());
            } else {
                let key = self.entries@[0].0@;
                assert(has_key(self.entries@, key));
                assert(self@.contains_key(key));
                assert(!Map::<WorkspaceName, V::V>::empty().contains_key(key));
            }
        }
        self.entries.len() == 0
    }

    fn find(&self, key: &WorkspaceType) -> (r: Option<usize>)
        ensures
            match r {
                Some(i) => i < self.entries.len() && self.entries[i as int].0@ == key@,
                None => !has_key(self.entries@, key@),
            },
    {
        let mut i: usize = 0;
        while i < self.entries.len()
            invariant
                i <= self.entries.len(),
                forall|j: int| 0 <= j < i ==> (#[trigger] self.entries[j]).0@ != key@,
            decreases self.entries.len() - i,
        {
            if self.entries[i].0.same(key) {
                return Some(i);
            }
            i += 1;
        }
        None
    }

    /// The value kept for `key`, if there is one.
    pub fn get(&self, key: &WorkspaceType) -> (r: Option<&V>)
        ensures
            r is Some <==> self@.contains_key(key@),
            r is Some ==> r->0.deep_view() == self@[key@],
    {
        proof {
            use_type_invariant(self);
            entries_are_the_map(self.entries@);
        }
        match self.find(key) {
            Some(i) => Some(&self.entries[i].1),
            None => None,
        }
    }

    /// Whether a value is kept for `key`.
    pub fn contains_key(&self, key: &WorkspaceType) -> (r: bool)
        ensures
            r == self@.contains_key(key@),
    {
        self.find(key).is_some()
    }

    /// Keeps `value` for `key`, in place of what was kept for it before.
    pub fn insert(&mut self, key: WorkspaceType, value: V)
        ensures
            final(self)@ == old(self)@.insert(key@, value.deep_view()),
            old(self)@.contains_key(key@) ==> final(self).listed() == old(self).listed().update(
                place_of(old(self).listed(), key@),
                (key, value),
            ),
            !old(self)@.contains_key(key@) ==> final(self).listed() == old(self).listed().push(
                (key, value),
            ),
    {
        proof {
            use_type_invariant(&*self);
            entries_are_the_map(self.entries@);
        }
        let found = self.find(&key);
        let mut entries: Vec<(WorkspaceType, V)> = Vec::new();
        core::mem::swap(&mut self.entries, &mut entries);
        match found {
            Some(i) => {
                proof {
                    entry_replaced(entries@, i as int, (key, value));
                }
                entries[i] = (key, value);
            },
            None => {
                proof {
                    entry_pushed(entries@, (key, value));
                }
                entries.push((key, value));
            },
        }
        core::mem::swap(&mut self.entries, &mut entries);
    }

    /// Forgets `key`, and says whether a value was kept for it.
    pub fn remove(&mut self, key: &WorkspaceType) -> (r: bool)
        ensures
            r == old(self)@.contains_key(key@),
            final(self)@ == old(self)@.remove(key@),
            r ==> final(self).listed() == old(self).listed().remove(
                place_of(old(self).listed(), key@),
            ),
            !r ==> final(self).listed() == old(self).listed(),
    {
        proof {
            use_type_invariant(&*self);
        }
        match self.find(key) {
            Some(i) => {
                let mut entries: Vec<(WorkspaceType, V)> = Vec::new();
                core::mem::swap(&mut self.entries, &mut entries);
                proof {
                    entry_removed(entries@, i as int);
                }
                entries.remove(i);
                core::mem::swap(&mut self.entries, &mut entries);
                true
            },
            None => {
                assert(self@ =~= old(self)@.remove(key@));
                false
            },
        }
    }

    /// Forgets every identity that is not one of `keys`.
    pub fn retain(&mut self, keys: &Vec<WorkspaceType>)
        ensures
            final(self)@ == old(self)@.restrict(key_set(keys@)),
    {
        proof {
            use_type_invariant(&*self);
        }
        let ghost start = self@;
        let ghost wanted = key_set(keys@);
        let mut entries: Vec<(WorkspaceType, V)> = Vec::new();
        core::mem::swap(&mut self.entries, &mut entries);
        let mut i: usize = 0;
        while i < entries.len()
            invariant
                i <= entries.len(),
                wanted == key_set(keys@),
                distinct_keys(entries@),
                map_of(entries@).submap_of(start),
                start.restrict(wanted).submap_of(map_of(entries@)),
                forall|j: int| 0 <= j < i ==> wanted.contains((#[trigger] entries@[j]).0@),
            decreases entries.len() - i,
        {
            if contains_workspace(keys, &entries[i].0) {
                i += 1;
            } else {
                let ghost before = entries@;
                proof {
                    entry_removed(before, i as int);
                }
                entries.remove(i);
                proof {
                    let gone = before[i as int].0@;
                    let held = map_of(before);
                    let left = map_of(entries@);
                    assert(entries@ == before.remove(i as int));
                    assert(left == held.remove(gone));
                    assert forall|k: WorkspaceName| #[trigger] left.dom().contains(k) implies start.dom().contains(
                        k,
                    ) && left[k] == start[k] by {
                        assert(held.dom().contains(k));
                    }
                    assert forall|k: WorkspaceName| #[trigger]
                        start.restrict(wanted).dom().contains(k) implies left.dom().contains(k)
                        && start.restrict(wanted)[k] == left[k] by {
                        assert(held.dom().contains(k));
                        assert(k != gone);
                    }
                    assert forall|j: int| 0 <= j < i implies wanted.contains(
                        (#[trigger] entries@[j]).0@,
                    ) by {
                        assert(entries@[j] == before[j]);
                    }
                }
            }
        }
        proof {
            let left = map_of(entries@);
            entries_are_the_map(entries@);
            assert forall|k: WorkspaceName| left.dom().contains(k) implies wanted.contains(k) by {
                let j = place_of(entries@, k);
                assert(wanted.contains(entries@[j].0@));
            }
            assert forall|k: WorkspaceName| left.dom().contains(k) implies start.restrict(
                wanted,
            ).dom().contains(k) && left[k] == start.restrict(wanted)[k] by {
                assert(start.dom().contains(k) && left[k] == start[k]);
            }
            assert(left =~= start.restrict(wanted));
        }
        core::mem::swap(&mut self.entries, &mut entries);
    }

    /// Forgets everything.
    pub fn clear(&mut self)
        ensures
            final(self)@ == Map::<WorkspaceName, V::V>::empty(),
            final(self).listed().len() == 0,
    {
        let mut entries: Vec<(WorkspaceType, V)> = Vec::new();
        core::mem::swap(&mut self.entries, &mut entries);
        assert(self@ =~= Map::<WorkspaceName, V::V>::empty());
    }
}

} // verus!
