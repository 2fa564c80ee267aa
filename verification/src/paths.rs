//! Ordered collections keyed by path.

use vstd::prelude::*;

use crate::path::FsPath;
use crate::text;

verus! {

/// Keys strictly ascend, so none occurs twice.
pub open spec fn ascending<T>(entries: Seq<(FsPath, T)>) -> bool {
    forall|i: int, j: int|
        #![trigger entries[i], entries[j]]
        0 <= i < j < entries.len() ==> text::less(entries[i].0@, entries[j].0@)
}

/// Whether `key` is the key of entry `i`.
pub open spec fn key_at<T>(entries: Seq<(FsPath, T)>, key: Seq<char>, i: int) -> bool {
    0 <= i < entries.len() && entries[i].0@ == key
}

/// The association that the entries write down.
pub open spec fn association<T>(entries: Seq<(FsPath, T)>) -> Map<Seq<char>, T> {
    Map::new(
        |key: Seq<char>| exists|i: int| key_at(entries, key, i),
        |key: Seq<char>| entries[choose|i: int| key_at(entries, key, i)].1,
    )
}

/// An ascending listing associates each of its keys with the value beside it.
proof fn lemma_association_at<T>(entries: Seq<(FsPath, T)>, i: int)
    requires
        ascending(entries),
        0 <= i < entries.len(),
    ensures
        association(entries).contains_key(entries[i].0@),
        association(entries)[entries[i].0@] == entries[i].1,
{
    let key = entries[i].0@;
    assert(key_at(entries, key, i));
    let k = choose|k: int| key_at(entries, key, k);
    text::lemma_less_irreflexive(key);
    if k < i {
        assert(text::less(entries[k].0@, entries[i].0@));
    }
    if i < k {
        assert(text::less(entries[i].0@, entries[k].0@));
    }
}

/// `i` is where `key` stands or would have to be inserted.
spec fn slot<T>(entries: Seq<(FsPath, T)>, key: Seq<char>, i: int) -> bool {
    &&& 0 <= i <= entries.len()
    &&& forall|j: int| #![trigger entries[j]] 0 <= j < i ==> text::less(entries[j].0@, key)
    &&& forall|j: int|
        #![trigger entries[j]]
        i <= j < entries.len() ==> !text::less(entries[j].0@, key)
}

/// A key that its slot does not hold is nowhere in the listing.
proof fn lemma_slot_decides<T>(entries: Seq<(FsPath, T)>, key: Seq<char>, i: int)
    requires
        ascending(entries),
        slot(entries, key, i),
    ensures
        association(entries).contains_key(key) <==> i < entries.len() && entries[i].0@ == key,
        i < entries.len() && entries[i].0@ != key ==> text::less(key, entries[i].0@),
{
    if i < entries.len() {
        text::lemma_less_total(entries[i].0@, key);
        if entries[i].0@ == key {
            assert(key_at(entries, key, i));
        }
    }
    if exists|k: int| key_at(entries, key, k) {
        let k = choose|k: int| key_at(entries, key, k);
        text::lemma_less_irreflexive(key);
        if k < i {
            assert(text::less(entries[k].0@, key));
        }
        if i < k {
            assert(text::less(entries[i].0@, entries[k].0@));
        }
    }
}

/// Finds the slot of `key`.
fn find_slot<T>(entries: &Vec<(FsPath, T)>, key: &FsPath) -> (i: usize)
    requires
        ascending(entries@),
    ensures
        slot(entries@, key@, i as int),
{
    let mut low: usize = 0;
    let mut high: usize = entries.len();
    while low < high
        invariant
            ascending(entries@),
            low <= high <= entries@.len(),
            forall|j: int|
                #![trigger entries@[j]]
                0 <= j < low ==> text::less(entries@[j].0@, key@),
            forall|j: int|
                #![trigger entries@[j]]
                high <= j < entries@.len() ==> !text::less(entries@[j].0@, key@),
        decreases high - low,
    {
        let mid = low + (high - low) / 2;
        if text::precedes(entries[mid].0.as_str(), key.as_str()) {
            assert forall|j: int| #![trigger entries@[j]] 0 <= j < mid + 1 implies text::less(
                entries@[j].0@,
                key@,
            ) by {
                if j < mid {
                    text::lemma_less_transitive(entries@[j].0@, entries@[mid as int].0@, key@);
                }
            }
            low = mid + 1;
        } else {
            assert forall|j: int| #![trigger entries@[j]] mid <= j < entries@.len() implies !text::less(
                entries@[j].0@,
                key@,
            ) by {
                if j > mid && text::less(entries@[j].0@, key@) {
                    text::lemma_less_transitive(entries@[mid as int].0@, entries@[j].0@, key@);
                }
            }
            high = mid;
        }
    }
    low
}

/// A map from paths to values, kept in path order.
#[derive(Debug)]
pub struct PathMap<T> {
    entries: Vec<(FsPath, T)>,
}

impl<T> View for PathMap<T> {
    type V = Map<Seq<char>, T>;

    closed spec fn view(&self) -> Map<Seq<char>, T> {
        association(self.entries@)
    }
}

impl<T> PathMap<T> {
    #[verifier::type_invariant]
    spec fn well_formed(self) -> bool {
        ascending(self.entries@)
    }

    /// The empty map.
    pub fn new() -> (map: PathMap<T>)
        ensures
            map@ == Map::<Seq<char>, T>::empty(),
    {
        let map = PathMap { entries: Vec::new() };
        assert(map@ =~= Map::<Seq<char>, T>::empty());
        map
    }

    /// Associates `path` with `value`, and hands back what it was associated with before.
    pub fn insert(&mut self, path: FsPath, value: T) -> (previous: Option<T>)
        ensures
            final(self)@ == old(self)@.insert(path@, value),
            match previous {
                Some(value) => old(self)@.contains_key(path@) && value == old(self)@[path@],
                None => !old(self)@.contains_key(path@),
            },
    {
        proof {
            use_type_invariant(&*self);
        }
        let ghost before = self.entries@;
        let mut entries = Vec::new();
        core::mem::swap(&mut entries, &mut self.entries);
        let i = find_slot(&entries, &path);
        proof {
            lemma_slot_decides(before, path@, i as int);
        }
        let mut previous = None;
        if i < entries.len() && entries[i].0 == path {
            proof {
                lemma_association_at(before, i as int);
            }
            let (_, value) = entries.remove(i);
            previous = Some(value);
        }
        entries.insert(i, (path, value));
        proof {
            lemma_inserted(before, path, value, i as int, entries@);
        }
        self.entries = entries;
        previous
    }

    /// What `path` is associated with.
    pub fn get(&self, path: &FsPath) -> (value: Option<&T>)
        ensures
            match value {
                Some(value) => self@.contains_key(path@) && *value == self@[path@],
                None => !self@.contains_key(path@),
            },
    {
        proof {
            use_type_invariant(self);
        }
        let i = find_slot(&self.entries, path);
        proof {
            lemma_slot_decides(self.entries@, path@, i as int);
        }
        if i < self.entries.len() && self.entries[i].0 == *path {
            proof {
                lemma_association_at(self.entries@, i as int);
            }
            Some(&self.entries[i].1)
        } else {
            None
        }
    }

    /// The associations in path order.
    pub fn entries(&self) -> (entries: &Vec<(FsPath, T)>)
        ensures
            ascending(entries@),
            association(entries@) == self@,
    {
        proof {
            use_type_invariant(self);
        }
        &self.entries
    }
}

impl<T: Clone> Clone for PathMap<T> {
    fn clone(&self) -> (copy: PathMap<T>)
        ensures
            copy@.dom() == self@.dom(),
            forall|key: Seq<char>| #[trigger]
                copy@.contains_key(key) ==> cloned(self@[key], copy@[key]),
    {
        proof {
            use_type_invariant(self);
        }
        let mut entries: Vec<(FsPath, T)> = Vec::new();
        for i in 0..self.entries.len()
            invariant
                entries@.len() == i,
                forall|j: int|
                    #![trigger entries@[j]]
                    0 <= j < i ==> entries@[j].0 == self.entries@[j].0 && cloned(
                        self.entries@[j].1,
                        entries@[j].1,
                    ),
        {
            entries.push((self.entries[i].0.clone(), self.entries[i].1.clone()));
        }
        assert forall|i: int, j: int|
            #![trigger entries@[i], entries@[j]]
            0 <= i < j < entries@.len() implies text::less(entries@[i].0@, entries@[j].0@) by {
            assert(text::less(self.entries@[i].0@, self.entries@[j].0@));
        }
        let copy = PathMap { entries };
        proof {
            assert forall|key: Seq<char>| self@.contains_key(key) == #[trigger]
                copy@.contains_key(key) by {
                if self@.contains_key(key) {
                    let i = choose|i: int| key_at(self.entries@, key, i);
                    assert(key_at(copy.entries@, key, i));
                }
                if copy@.contains_key(key) {
                    let i = choose|i: int| key_at(copy.entries@, key, i);
                    assert(key_at(self.entries@, key, i));
                }
            }
            assert(copy@.dom() =~= self@.dom());
            assert forall|key: Seq<char>| #[trigger] copy@.contains_key(key) implies cloned(
                self@[key],
                copy@[key],
            ) by {
                let i = choose|i: int| key_at(copy.entries@, key, i);
                lemma_association_at(copy.entries@, i);
                lemma_association_at(self.entries@, i);
            }
        }
        copy
    }
}

/// A set of paths, kept in path order.
#[derive(Clone, Debug)]
pub struct PathSet {
    map: PathMap<()>,
}

impl View for PathSet {
    type V = Set<Seq<char>>;

    closed spec fn view(&self) -> Set<Seq<char>> {
        self.map@.dom()
    }
}

/// `paths` lists the members of `set`, each once, in ascending order.
pub open spec fn lists(paths: Seq<(FsPath, ())>, set: Set<Seq<char>>) -> bool {
    &&& ascending(paths)
    &&& forall|i: int| 0 <= i < paths.len() ==> set.contains(#[trigger] paths[i].0@)
    &&& forall|path: Seq<char>| #[trigger]
        set.contains(path) ==> exists|i: int| key_at(paths, path, i)
}

impl PathSet {
    /// The empty set.
    pub fn new() -> (set: PathSet)
        ensures
            set@ == Set::<Seq<char>>::empty(),
    {
        let set = PathSet { map: PathMap::new() };
        assert(set@ =~= Set::<Seq<char>>::empty());
        set
    }

    /// Adds `path`, and says whether it is new to the set.
    pub fn insert(&mut self, path: FsPath) -> (added: bool)
        ensures
            final(self)@ == old(self)@.insert(path@),
            added == !old(self)@.contains(path@),
    {
        let ghost key = path@;
        let previous = self.map.insert(path, ());
        assert(self@ =~= old(self)@.insert(key));
        previous.is_none()
    }

    /// Whether `path` belongs to the set.
    pub fn contains(&self, path: &FsPath) -> (answer: bool)
        ensures
            answer == self@.contains(path@),
    {
        self.map.get(path).is_some()
    }

    /// The members, finitely many, in path order.
    pub fn paths(&self) -> (paths: &Vec<(FsPath, ())>)
        ensures
            lists(paths@, self@),
            self@.finite(),
    {
        let paths = self.map.entries();
        assert forall|i: int| 0 <= i < paths@.len() implies self@.contains(
            #[trigger] paths@[i].0@,
        ) by {
            assert(key_at(paths@, paths@[i].0@, i));
        }
        proof {
            let keys = paths@.map_values(|entry: (FsPath, ())| entry.0@);
            vstd::seq_lib::seq_to_set_is_finite(keys);
            assert forall|path: Seq<char>| self@.contains(path) implies keys.to_set().contains(
                path,
            ) by {
                let i = choose|i: int| key_at(paths@, path, i);
                assert(keys[i] == path);
            }
            vstd::set_lib::lemma_set_subset_finite(keys.to_set(), self@);
        }
        paths
    }
}

/// Putting an entry into the slot of its key, in place of one with that key, associates the key
/// with the new value and keeps the order.
proof fn lemma_inserted<T>(
    before: Seq<(FsPath, T)>,
    path: FsPath,
    value: T,
    i: int,
    after: Seq<(FsPath, T)>,
)
    requires
        ascending(before),
        slot(before, path@, i),
        i < before.len() && before[i].0@ != path@ ==> text::less(path@, before[i].0@),
        after == (if i < before.len() && before[i].0@ == path@ {
            before.remove(i)
        } else {
            before
        }).insert(i, (path, value)),
    ensures
        ascending(after),
        association(after) == association(before).insert(path@, value),
{
    let key = path@;
    let replaced = i < before.len() && before[i].0@ == key;
    let shift: int = if replaced {
        0
    } else {
        1
    };
    assert(after[i] == (path, value));
    assert forall|j: int| 0 <= j < i implies #[trigger] after[j] == before[j] by {}
    assert forall|j: int| i < j < after.len() implies #[trigger] after[j] == before[j - shift] by {}
    assert forall|j: int, k: int|
        #![trigger after[j], after[k]]
        0 <= j < k < after.len() implies text::less(after[j].0@, after[k].0@) by {
        if k == i {
            assert(text::less(before[j].0@, key));
        } else if j == i {
            let b = before[k - shift];
            if k - shift != i {
                assert(text::less(before[i].0@, b.0@));
                if !replaced {
                    text::lemma_less_transitive(key, before[i].0@, b.0@);
                }
            }
        } else {
            let a = before[if j < i {
                j
            } else {
                j - shift
            }];
            let b = before[if k < i {
                k
            } else {
                k - shift
            }];
            assert(text::less(a.0@, b.0@));
        }
    }
    let left = association(after);
    let right = association(before).insert(key, value);
    assert forall|k: Seq<char>| left.contains_key(k) == #[trigger] right.contains_key(k) by {
        if left.contains_key(k) {
            let j = choose|j: int| key_at(after, k, j);
            if j < i {
                assert(key_at(before, k, j));
            } else if j > i {
                assert(key_at(before, k, j - shift));
            }
        }
        if right.contains_key(k) {
            if k == key {
                assert(key_at(after, k, i));
            } else {
                let j = choose|j: int| key_at(before, k, j);
                assert(key_at(after, k, if j < i {
                    j
                } else {
                    j + shift
                }));
            }
        }
    }
    assert forall|k: Seq<char>| left.contains_key(k) implies #[trigger] left[k] == right[k] by {
        let j = choose|j: int| key_at(after, k, j);
        lemma_association_at(after, j);
        if j == i {
        } else {
            let b = if j < i {
                j
            } else {
                j - shift
            };
            lemma_association_at(before, b);
            text::lemma_less_irreflexive(key);
            if j < i {
                assert(text::less(after[j].0@, after[i].0@));
            } else {
                assert(text::less(after[i].0@, after[j].0@));
            }
        }
    }
    assert(left =~= right);
}

// --------------------------------------------------------------------- laws

/// The association of an ascending listing holds the listed keys and no others, each with the value
/// beside it.
pub proof fn law_association<T>(entries: Seq<(FsPath, T)>, key: Seq<char>)
    requires
        ascending(entries),
    ensures
        association(entries).contains_key(key) <==> exists|i: int|
            0 <= i < entries.len() && (#[trigger] entries[i]).0@ == key,
        forall|i: int|
            0 <= i < entries.len() && (#[trigger] entries[i]).0@ == key ==> association(
                entries,
            )[key] == entries[i].1,
{
    assert forall|i: int| 0 <= i < entries.len() && (#[trigger] entries[i]).0@ == key implies {
        &&& association(entries).contains_key(key)
        &&& association(entries)[key] == entries[i].1
    } by {
        lemma_association_at(entries, i);
    }
    if association(entries).contains_key(key) {
        let i = choose|i: int| key_at(entries, key, i);
        assert(entries[i].0@ == key);
    }
}

/// In an ascending listing each key precedes those behind it.
pub proof fn law_ascending<T>(entries: Seq<(FsPath, T)>, i: int, j: int)
    requires
        ascending(entries),
        0 <= i < j < entries.len(),
    ensures
        text::less(entries[i].0@, entries[j].0@),
{
}

/// What lists a set lists all its members and nothing else, in ascending order.
pub proof fn law_lists(paths: Seq<(FsPath, ())>, set: Set<Seq<char>>, path: Seq<char>)
    requires
        lists(paths, set),
    ensures
        ascending(paths),
        set.contains(path) <==> exists|i: int|
            0 <= i < paths.len() && (#[trigger] paths[i]).0@ == path,
{
    if set.contains(path) {
        let i = choose|i: int| key_at(paths, path, i);
        assert(paths[i].0@ == path);
    }
    if exists|i: int| 0 <= i < paths.len() && (#[trigger] paths[i]).0@ == path {
        let i = choose|i: int| 0 <= i < paths.len() && (#[trigger] paths[i]).0@ == path;
        assert(set.contains(paths[i].0@));
    }
}

} // verus!
