//! The client's store of directory listings, keyed by absolute path.

use vstd::prelude::*;
use crate::entry::{
    FileEntry, FileEntryView, entries_view, entries_of_infos, normalized_entries,
    entries_from_infos, normalize_entries, clone_entries, lemma_entries_of_infos_normal,
};
use crate::text::{hex_string, hex_text};
use crate::path::{normalized_path, normalize_path};
use crate::protocol::{DirEntriesView, Response};

verus! {

/// One stored listing.
pub struct CacheSlot {
    path: String,
    entries: Vec<FileEntry>,
}

/// The listings the client holds, at most one for each path.
pub struct CacheData {
    slots: Vec<CacheSlot>,
}

/// The mathematical value of a cache: for each path, its listing.
pub type CacheMap = Map<Seq<char>, Seq<FileEntryView>>;

spec fn distinct_paths(slots: Seq<CacheSlot>) -> bool {
    forall|i: int, j: int| 0 <= i < j < slots.len() ==> slots[i].path@ != slots[j].path@
}

spec fn holds(slots: Seq<CacheSlot>, key: Seq<char>) -> bool {
    exists|i: int| 0 <= i < slots.len() && slots[i].path@ == key
}

spec fn index_of(slots: Seq<CacheSlot>, key: Seq<char>) -> int {
    choose|i: int| 0 <= i < slots.len() && slots[i].path@ == key
}

spec fn slots_map(slots: Seq<CacheSlot>) -> CacheMap {
    Map::new(
        |key: Seq<char>| holds(slots, key),
        |key: Seq<char>| entries_view(slots[index_of(slots, key)].entries@),
    )
}

proof fn lemma_index_of(slots: Seq<CacheSlot>, i: int)
    requires
        distinct_paths(slots),
        0 <= i < slots.len(),
    ensures
        holds(slots, slots[i].path@),
        index_of(slots, slots[i].path@) == i,
{
}

/// What a lookup of `path` in the cache `m` gives: the listing stored under
/// the canonical form of `path`, each entry in normal form.
pub open spec fn cache_lookup(m: CacheMap, path: Seq<char>) -> Option<Seq<FileEntryView>> {
    let key = normalized_path(path);
    if m.contains_key(key) {
        Some(normalized_entries(m[key]))
    } else {
        None
    }
}

/// The cache `m` after the directories `data` were folded into it in
/// order: each directory replaces whatever was stored under its path.
pub open spec fn cache_updated(m: CacheMap, data: Seq<DirEntriesView>) -> CacheMap
    decreases data.len(),
{
    if data.len() == 0 {
        m
    } else {
        cache_updated(m, data.drop_last()).insert(
            data.last().absolute_path,
            entries_of_infos(data.last().entries),
        )
    }
}

fn find_slot(slots: &Vec<CacheSlot>, key: &String) -> (found: Option<usize>)
    ensures
        match found {
            Some(i) => i < slots.len() && slots[i as int].path@ == key@,
            None => !holds(slots@, key@),
        },
{
    let mut i: usize = 0;
    while i < slots.len()
        invariant
            i <= slots.len(),
            forall|k: int| 0 <= k < i ==> slots[k].path@ != key@,
        decreases slots.len() - i,
    {
        if slots[i].path == *key {
            return Some(i);
        }
        i += 1;
    }
    None
}

impl View for CacheData {
    type V = CacheMap;

    closed spec fn view(&self) -> CacheMap {
        slots_map(self.slots@)
    }
}

impl CacheData {
    #[verifier::type_invariant]
    spec fn well_formed(self) -> bool {
        distinct_paths(self.slots@)
    }

    /// A cache that holds nothing.
    pub fn new() -> (cache: CacheData)
        ensures
            cache@ == Map::<Seq<char>, Seq<FileEntryView>>::empty(),
    {
        let cache = CacheData { slots: Vec::new() };
        assert(cache@ =~= Map::<Seq<char>, Seq<FileEntryView>>::empty());
        cache
    }

    /// Looks a path up. A hit hands out a copy of the stored listing with
    /// each entry brought into normal form.
    pub fn get(&self, path: &str) -> (hit: Option<Vec<FileEntry>>)
        ensures
            match hit {
                Some(entries) => cache_lookup(self@, path@) == Some(entries_view(entries@)),
                None => cache_lookup(self@, path@) is None,
            },
    {
        proof {
            use_type_invariant(self);
        }
        let key = normalize_path(path);
        match find_slot(&self.slots, &key) {
            Some(i) => {
                proof {
                    lemma_index_of(self.slots@, i as int);
                }
                Some(normalize_entries(&self.slots[i].entries))
            },
            None => None,
        }
    }

    /// Stores `entries` under `path`, replacing what was stored there.
    pub fn insert(&mut self, path: String, entries: Vec<FileEntry>)
        ensures
            final(self)@ == old(self)@.insert(path@, entries_view(entries@)),
    {
        proof {
            use_type_invariant(&*self);
        }
        let ghost before = self.slots@;
        let ghost key = path@;
        let ghost value = entries_view(entries@);
        let mut taken = CacheData { slots: Vec::new() };
        core::mem::swap(self, &mut taken);
        let mut slots = taken.slots;
        match find_slot(&slots, &path) {
            Some(i) => {
                slots.set(i, CacheSlot { path, entries });
                proof {
                    let after = slots@;
                    assert forall|k: Seq<char>| holds(after, k) <==> holds(before, k) by {
                        if holds(before, k) {
                            let j = index_of(before, k);
                            assert(after[j].path@ == k);
                        }
                        if holds(after, k) {
                            let j = index_of(after, k);
                            assert(before[j].path@ == k);
                        }
                    }
                    assert forall|k: Seq<char>| holds(after, k) implies slots_map(after)[k]
                        == slots_map(before).insert(key, value)[k] by {
                        let j = index_of(after, k);
                        lemma_index_of(after, j);
                        lemma_index_of(before, j);
                    }
                    lemma_index_of(before, i as int);
                    assert(slots_map(after) =~= slots_map(before).insert(key, value));
                }
            },
            None => {
                slots.push(CacheSlot { path, entries });
                proof {
                    let after = slots@;
                    let n = before.len() as int;
                    assert(after[n].path@ == key);
                    assert forall|k: Seq<char>| holds(after, k) <==> (holds(before, k) || k
                        == key) by {
                        if holds(before, k) {
                            let j = index_of(before, k);
                            assert(after[j].path@ == k);
                        }
                        if holds(after, k) && k != key {
                            let j = index_of(after, k);
                            assert(before[j].path@ == k);
                        }
                    }
                    assert forall|k: Seq<char>| holds(after, k) implies slots_map(after)[k]
                        == slots_map(before).insert(key, value)[k] by {
                        let j = index_of(after, k);
                        lemma_index_of(after, j);
                        if j < n {
                            lemma_index_of(before, j);
                        }
                    }
                    assert(slots_map(after) =~= slots_map(before).insert(key, value));
                }
            },
        }
        *self = CacheData { slots };
    }

    /// Everything the cache holds, as pairs of a path and its listing:
    /// each path once, in no particular order.
    pub fn listings(&self) -> (pairs: Vec<(String, Vec<FileEntry>)>)
        ensures
            forall|i: int|
                0 <= i < pairs.len() ==> self@.contains_key(#[trigger] pairs[i].0@) && self@[pairs[i].0@]
                    == entries_view(pairs[i].1@),
            forall|key: Seq<char>|
                self@.contains_key(key) ==> exists|i: int|
                    0 <= i < pairs.len() && #[trigger] pairs[i].0@ == key,
            forall|i: int, j: int| 0 <= i < j < pairs.len() ==> pairs[i].0@ != pairs[j].0@,
    {
        proof {
            use_type_invariant(self);
        }
        let mut pairs: Vec<(String, Vec<FileEntry>)> = Vec::new();
        let mut i: usize = 0;
        while i < self.slots.len()
            invariant
                i <= self.slots.len(),
                pairs.len() == i,
                distinct_paths(self.slots@),
                forall|k: int|
                    0 <= k < i ==> (#[trigger] pairs[k]).0@ == self.slots[k].path@ && entries_view(
                        pairs[k].1@,
                    ) == entries_view(self.slots[k].entries@),
            decreases self.slots.len() - i,
        {
            let slot = &self.slots[i];
            pairs.push((slot.path.clone(), clone_entries(&slot.entries)));
            i += 1;
        }
        proof {
            assert forall|k: int| 0 <= k < pairs.len() implies self@.contains_key(
                #[trigger] pairs[k].0@,
            ) && self@[pairs[k].0@] == entries_view(pairs[k].1@) by {
                lemma_index_of(self.slots@, k);
            }
            assert forall|key: Seq<char>| self@.contains_key(key) implies exists|k: int|
                0 <= k < pairs.len() && #[trigger] pairs[k].0@ == key by {
                let k = index_of(self.slots@, key);
                assert(pairs[k].0@ == key);
            }
        }
        pairs
    }

    /// Folds a snapshot into the cache: every directory of the snapshot
    /// replaces the listing stored under its path; for a path that occurs
    /// twice the later directory stays.
    pub fn update(&mut self, resp: &Response)
        ensures
            final(self)@ == cache_updated(old(self)@, resp@.data),
    {
        let ghost start = self@;
        let mut i: usize = 0;
        while i < resp.data.len()
            invariant
                i <= resp.data.len(),
                self@ == cache_updated(start, resp@.data.take(i as int)),
            decreases resp.data.len() - i,
        {
            let dir = &resp.data[i];
            let entries = entries_from_infos(&dir.entries);
            proof {
                let next = resp@.data.take(i + 1);
                assert(next.drop_last() =~= resp@.data.take(i as int));
                assert(next.last() == dir@);
            }
            self.insert(dir.absolute_path.clone(), entries);
            i += 1;
        }
        assert(resp@.data.take(i as int) =~= resp@.data);
    }
}

/// The name of the file that holds the cache.
pub open spec fn cache_file_base() -> Seq<char> {
    "cache.json"@
}

/// The tag that tells the cache files of concurrent clients apart: the
/// process id and a time in nanoseconds, both in hexadecimal.
pub open spec fn hash_text(pid: u32, nanos: u128) -> Seq<char> {
    hex_text(pid as nat) + hex_text(nanos as nat)
}

/// The file name of a client's cache: the plain name where clients share
/// one cache, or the name with a dot and the client's tag.
pub open spec fn cache_file_text(is_hash: bool, pid: u32, nanos: u128) -> Seq<char> {
    if is_hash {
        cache_file_base() + seq!['.'] + hash_text(pid, nanos)
    } else {
        cache_file_base()
    }
}

/// Makes the tag of a client from its process id and the time.
pub fn generate_hash(pid: u32, nanos: u128) -> (tag: String)
    ensures
        tag@ == hash_text(pid, nanos),
{
    let mut tag = hex_string(pid as u128);
    let tail = hex_string(nanos);
    tag.append(tail.as_str());
    tag
}

/// Chooses the file name of a client's cache.
pub fn cache_file_name(is_hash: bool, pid: u32, nanos: u128) -> (name: String)
    ensures
        name@ == cache_file_text(is_hash, pid, nanos),
{
    let mut name = "cache.json".to_owned();
    if is_hash {
        proof {
            reveal_strlit(".");
        }
        assert("."@ =~= seq!['.']);
        name.append(".");
        let tag = generate_hash(pid, nanos);
        name.append(tag.as_str());
        assert(name@ =~= cache_file_base() + seq!['.'] + hash_text(pid, nanos));
    }
    name
}

/// Folds a snapshot into a cache.
pub fn update_cache_with_response(resp: &Response, cache: &mut CacheData)
    ensures
        final(cache)@ == cache_updated(old(cache)@, resp@.data),
{
    cache.update(resp);
}

/// After an update, a lookup of a path of the snapshot gives the entries of
/// the last directory listed under that path. This holds for paths in
/// canonical form, the only ones a lookup reaches.
pub proof fn lemma_update_then_get(m: CacheMap, data: Seq<DirEntriesView>, i: int)
    requires
        0 <= i < data.len(),
        forall|j: int| i < j < data.len() ==> data[j].absolute_path != data[i].absolute_path,
        normalized_path(data[i].absolute_path) == data[i].absolute_path,
    ensures
        cache_lookup(cache_updated(m, data), data[i].absolute_path) == Some(
            entries_of_infos(data[i].entries),
        ),
    decreases data.len(),
{
    lemma_entries_of_infos_normal(data[i].entries);
    if i < data.len() - 1 {
        let head = data.drop_last();
        lemma_update_then_get(m, head, i);
    }
}

/// An update leaves every path alone that the snapshot does not list.
pub proof fn lemma_update_keeps_others(m: CacheMap, data: Seq<DirEntriesView>, key: Seq<char>)
    requires
        forall|j: int| 0 <= j < data.len() ==> data[j].absolute_path != key,
    ensures
        cache_updated(m, data).contains_key(key) == m.contains_key(key),
        m.contains_key(key) ==> cache_updated(m, data)[key] == m[key],
    decreases data.len(),
{
    if data.len() > 0 {
        lemma_update_keeps_others(m, data.drop_last(), key);
    }
}

} // verus!
