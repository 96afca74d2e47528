//! Change detection. The labels handed out last are kept by workspace, so
//! that a cycle hands out only the labels that differ from them, and
//! forgets the workspaces that are gone.

use crate::renamer::Renamer;
use crate::table::{
    distinct_keys, entries_are_the_map, entry_pushed, key_set, map_of, place_of,
    prefix_is_distinct, WorkspaceMap,
};
use crate::workspace::{WorkspaceName, WorkspaceType};
use vstd::prelude::*;

verus! {

/// Labels by workspace, as a mathematical value.
pub type Labels = Map<WorkspaceName, Seq<char>>;

/// The labels of `labels` that `cache` does not hold as they are: those of
/// workspaces that it does not know, and those that differ from what it
/// holds.
pub open spec fn altered(cache: Labels, labels: Labels) -> Labels {
    Map::new(
        |key: WorkspaceName|
            labels.contains_key(key) && !(cache.contains_key(key) && cache[key] == labels[key]),
        |key: WorkspaceName| labels[key],
    )
}

/// `cache` after a commit: first every label of `changed` is written, then
/// every workspace that is not in `keys` is forgotten.
pub open spec fn committed(cache: Labels, changed: Labels, keys: Set<WorkspaceName>) -> Labels {
    cache.union_prefer_right(changed).restrict(keys)
}

impl Renamer {
    /// The labels of `workspaces_strings` that differ from the labels
    /// handed out last. Nothing is changed.
    pub fn get_altered_workspaces(&self, workspaces_strings: &WorkspaceMap<String>) -> (r:
        WorkspaceMap<String>)
        ensures
            r@ == altered(self.workspace_strings_cache@, workspaces_strings@),
    {
        let ghost cache = self.workspace_strings_cache@;
        let ghost labels = workspaces_strings@;
        let ghost wanted = altered(cache, labels);
        let entries = workspaces_strings.entries();
        proof {
            entries_are_the_map(entries@);
        }
        let mut changed: WorkspaceMap<String> = WorkspaceMap::new();
        let mut i: usize = 0;
        while i < entries.len()
            invariant
                i <= entries.len(),
                cache == self.workspace_strings_cache@,
                labels == map_of(entries@),
                wanted == altered(cache, labels),
                forall|j: int|
                    0 <= j < entries.len() ==> labels.contains_key((#[trigger] entries@[j]).0@)
                        && labels[entries@[j].0@] == entries@[j].1@,
                changed@.submap_of(wanted),
                forall|j: int|
                    0 <= j < i && wanted.contains_key((#[trigger] entries@[j]).0@)
                        ==> changed@.contains_key(entries@[j].0@),
            decreases entries.len() - i,
        {
            let key = &entries[i].0;
            let label = &entries[i].1;
            let same = match self.workspace_strings_cache.get(key) {
                Some(kept) => *kept == *label,
                None => false,
            };
            if !same {
                let ghost before = changed@;
                changed.insert(key.clone(), label.clone());
                proof {
                    assert(wanted.contains_key(key@) && wanted[key@] == label@);
                    assert forall|k: WorkspaceName| #[trigger]
                        changed@.dom().contains(k) implies wanted.dom().contains(k) && changed@[k]
                        == wanted[k] by {
                        if k != key@ {
                            assert(before.dom().contains(k));
                        }
                    }
                }
            }
            i += 1;
        }
        proof {
            assert forall|k: WorkspaceName| wanted.contains_key(k) implies changed@.contains_key(
                k,
            ) by {
                let j = place_of(entries@, k);
                assert(entries@[j].0@ == k);
            }
            assert(changed@ =~= wanted);
        }
        changed
    }

    /// Writes the labels of `workspaces_strings` into the labels handed
    /// out last, then forgets every workspace that is not one of
    /// `workspace_ids`.
    pub fn update_cache(
        &mut self,
        workspaces_strings: &WorkspaceMap<String>,
        workspace_ids: &Vec<WorkspaceType>,
    )
        ensures
            final(self).workspace_strings_cache@ == committed(
                old(self).workspace_strings_cache@,
                workspaces_strings@,
                key_set(workspace_ids@),
            ),
            final(self).known_workspaces == old(self).known_workspaces,
            final(self).cfg == old(self).cfg,
            final(self).args == old(self).args,
    {
        let ghost start = self.workspace_strings_cache@;
        let entries = workspaces_strings.entries();
        let mut i: usize = 0;
        proof {
            prefix_is_distinct(entries@, 0);
            assert(start.union_prefer_right(map_of(entries@.take(0))) =~= start);
        }
        while i < entries.len()
            invariant
                i <= entries.len(),
                distinct_keys(entries@),
                self.workspace_strings_cache@ == start.union_prefer_right(
                    map_of(entries@.take(i as int)),
                ),
                self.known_workspaces == old(self).known_workspaces,
                self.cfg == old(self).cfg,
                self.args == old(self).args,
            decreases entries.len() - i,
        {
            proof {
                prefix_is_distinct(entries@, i as int);
                entry_pushed(entries@.take(i as int), entries@[i as int]);
            }
            self.workspace_strings_cache.insert(entries[i].0.clone(), entries[i].1.clone());
            proof {
                let front = map_of(entries@.take(i as int));
                let key = entries@[i as int].0@;
                let label = entries@[i as int].1@;
                assert(start.union_prefer_right(front).insert(key, label)
                    =~= start.union_prefer_right(front.insert(key, label)));
            }
            i += 1;
        }
        proof {
            prefix_is_distinct(entries@, entries.len() as int);
        }
        self.workspace_strings_cache.retain(workspace_ids);
    }
}

/// After a commit of what a diff gave, with the workspaces of the new
/// labels as the ones to keep, the cache holds exactly the new labels, and
/// a second diff of the same labels gives nothing.
pub proof fn commit_of_diff_settles(cache: Labels, labels: Labels)
    ensures
        committed(cache, altered(cache, labels), labels.dom()) == labels,
        altered(labels, labels) == Map::<WorkspaceName, Seq<char>>::empty(),
        altered(committed(cache, altered(cache, labels), labels.dom()), labels) == Map::<
            WorkspaceName,
            Seq<char>,
        >::empty(),
{
    assert(committed(cache, altered(cache, labels), labels.dom()) =~= labels);
    assert(altered(labels, labels) =~= Map::<WorkspaceName, Seq<char>>::empty());
}

/// A diff holds a label exactly where the cache has none for the workspace
/// or another one, and it holds the new label there.
pub proof fn diff_holds_the_changes(cache: Labels, labels: Labels, key: WorkspaceName)
    ensures
        altered(cache, labels).contains_key(key) <==> labels.contains_key(key) && (
        !cache.contains_key(key) || cache[key] != labels[key]),
        altered(cache, labels).contains_key(key) ==> altered(cache, labels)[key] == labels[key],
{
}

/// Where one label of the cached ones is changed, the diff holds that
/// label and no other.
pub proof fn one_change_gives_one_label(cache: Labels, key: WorkspaceName, label: Seq<char>)
    requires
        cache.contains_key(key),
        cache[key] != label,
    ensures
        altered(cache, cache.insert(key, label)) == Map::<WorkspaceName, Seq<char>>::empty().insert(
            key,
            label,
        ),
{
    assert(altered(cache, cache.insert(key, label)) =~= Map::<
        WorkspaceName,
        Seq<char>,
    >::empty().insert(key, label));
}

/// After a commit the cache knows only workspaces that are to be kept,
/// every kept workspace that it knew before or that the commit wrote, and
/// for each the written label where one was written, else the old one.
pub proof fn commit_prunes_and_writes(
    cache: Labels,
    changed: Labels,
    keys: Set<WorkspaceName>,
    key: WorkspaceName,
)
    ensures
        committed(cache, changed, keys).contains_key(key) <==> keys.contains(key) && (
        cache.contains_key(key) || changed.contains_key(key)),
        committed(cache, changed, keys).contains_key(key) && changed.contains_key(key)
            ==> committed(cache, changed, keys)[key] == changed[key],
        committed(cache, changed, keys).contains_key(key) && !changed.contains_key(key)
            ==> committed(cache, changed, keys)[key] == cache[key],
        changed.dom().subset_of(keys) && keys.subset_of(cache.dom().union(changed.dom()))
            ==> committed(cache, changed, keys).dom() == keys,
{
    if changed.dom().subset_of(keys) && keys.subset_of(cache.dom().union(changed.dom())) {
        assert(committed(cache, changed, keys).dom() =~= keys);
    }
}

} // verus!
