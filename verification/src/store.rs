//! An in-memory file store: the model the engine's plans are executed
//! against. It gives the plans their meaning — a map from path to
//! contents — and lets a whole operation, purge included, run without
//! real storage.

use vstd::prelude::*;
use crate::engine::{apply_action, apply_plan_spec, FsAction};
use crate::naming::copy_bytes;

verus! {

/// The map an entry list denotes; a later entry for the same path wins.
pub open spec fn map_of(entries: Seq<(Vec<u8>, Vec<u8>)>) -> Map<Seq<u8>, Seq<u8>>
    decreases entries.len(),
{
    if entries.len() == 0 {
        Map::empty()
    } else {
        map_of(entries.drop_last()).insert(entries.last().0@, entries.last().1@)
    }
}

/// No two entries name the same path.
pub open spec fn distinct_keys(entries: Seq<(Vec<u8>, Vec<u8>)>) -> bool {
    forall|i: int, j: int| 0 <= i < j < entries.len() ==> entries[i].0@ != entries[j].0@
}

proof fn lemma_map_of_contains(entries: Seq<(Vec<u8>, Vec<u8>)>, k: Seq<u8>)
    ensures
        map_of(entries).contains_key(k) <==> exists|i: int|
            0 <= i < entries.len() && entries[i].0@ == k,
    decreases entries.len(),
{
    if entries.len() > 0 {
        lemma_map_of_contains(entries.drop_last(), k);
        if entries.last().0@ == k {
            assert(entries[entries.len() - 1].0@ == k);
        } else if map_of(entries).contains_key(k) {
            let i = choose|i: int| 0 <= i < entries.drop_last().len() && entries.drop_last()[i].0@
                == k;
            assert(entries[i].0@ == k);
        } else if exists|i: int| 0 <= i < entries.len() && entries[i].0@ == k {
            let i = choose|i: int| 0 <= i < entries.len() && entries[i].0@ == k;
            assert(entries.drop_last()[i].0@ == k);
        }
    }
}

proof fn lemma_map_of_value(entries: Seq<(Vec<u8>, Vec<u8>)>, i: int)
    requires
        distinct_keys(entries),
        0 <= i < entries.len(),
    ensures
        map_of(entries).contains_key(entries[i].0@),
        map_of(entries)[entries[i].0@] == entries[i].1@,
    decreases entries.len(),
{
    if i == entries.len() - 1 {
    } else {
        lemma_map_of_value(entries.drop_last(), i);
        assert(entries.drop_last()[i] == entries[i]);
        assert(entries.last().0@ != entries[i].0@);
    }
}

proof fn lemma_map_of_remove(entries: Seq<(Vec<u8>, Vec<u8>)>, i: int)
    requires
        distinct_keys(entries),
        0 <= i < entries.len(),
    ensures
        distinct_keys(entries.remove(i)),
        map_of(entries.remove(i)) == map_of(entries).remove(entries[i].0@),
    decreases entries.len(),
{
    let k = entries[i].0@;
    entries.remove_ensures(i);
    assert(distinct_keys(entries.remove(i))) by {
        assert forall|a: int, b: int|
            0 <= a < b < entries.remove(i).len() implies entries.remove(i)[a].0@ != entries.remove(
            i,
        )[b].0@ by {
            entries.remove_ensures(i);
        }
    }
    if i == entries.len() - 1 {
        assert(entries.remove(i) =~= entries.drop_last());
        lemma_map_of_contains(entries.drop_last(), k);
        assert(forall|j: int|
            0 <= j < entries.drop_last().len() ==> entries.drop_last()[j].0@ != k);
        assert(!map_of(entries.drop_last()).contains_key(k));
        assert(map_of(entries.drop_last()).insert(k, entries.last().1@).remove(k) =~= map_of(
            entries.drop_last(),
        ));
    } else {
        lemma_map_of_remove(entries.drop_last(), i);
        assert(entries.remove(i).drop_last() =~= entries.drop_last().remove(i));
        assert(entries.remove(i).last() == entries.last());
        assert(entries.last().0@ != k);
        assert(map_of(entries.remove(i)) == map_of(entries.drop_last().remove(i)).insert(
            entries.last().0@,
            entries.last().1@,
        ));
        assert(map_of(entries.drop_last()).remove(k).insert(entries.last().0@, entries.last().1@)
            =~= map_of(entries.drop_last()).insert(entries.last().0@, entries.last().1@).remove(k));
    }
}

/// Two byte strings, compared by contents.
fn bytes_eq(a: &Vec<u8>, b: &Vec<u8>) -> (r: bool)
    ensures
        r == (a@ == b@),
{
    if a.len() != b.len() {
        return false;
    }
    let mut i: usize = 0;
    while i < a.len()
        invariant
            a@.len() == b@.len(),
            i <= a@.len(),
            forall|j: int| 0 <= j < i ==> a@[j] == b@[j],
        decreases a@.len() - i,
    {
        if a[i] != b[i] {
            return false;
        }
        i = i + 1;
    }
    proof {
        assert(a@ =~= b@);
    }
    true
}

/// The store: a list of (path, contents) files with pairwise distinct
/// paths, viewed as a map from path to contents.
pub struct FileStore {
    entries: Vec<(Vec<u8>, Vec<u8>)>,
}

impl View for FileStore {
    type V = Map<Seq<u8>, Seq<u8>>;

    closed spec fn view(&self) -> Map<Seq<u8>, Seq<u8>> {
        map_of(self.entries@)
    }
}

impl FileStore {
    /// The store's internal invariant: one entry per path.
    pub closed spec fn inv(self) -> bool {
        distinct_keys(self.entries@)
    }

    /// An empty store.
    pub fn new() -> (r: FileStore)
        ensures
            r.inv(),
            r@ == Map::<Seq<u8>, Seq<u8>>::empty(),
    {
        FileStore { entries: Vec::new() }
    }

    fn find(&self, path: &Vec<u8>) -> (r: Option<usize>)
        ensures
            match r {
                Some(i) => i < self.entries@.len() && self.entries@[i as int].0@ == path@,
                None => !self@.contains_key(path@),
            },
    {
        let mut i: usize = 0;
        while i < self.entries.len()
            invariant
                i <= self.entries@.len(),
                forall|j: int| 0 <= j < i ==> self.entries@[j].0@ != path@,
            decreases self.entries@.len() - i,
        {
            if bytes_eq(&self.entries[i].0, path) {
                return Some(i);
            }
            i = i + 1;
        }
        proof {
            lemma_map_of_contains(self.entries@, path@);
        }
        None
    }

    /// The contents at `path`, if the store holds that file.
    pub fn get(&self, path: &Vec<u8>) -> (r: Option<&Vec<u8>>)
        requires
            self.inv(),
        ensures
            match r {
                Some(v) => self@.contains_key(path@) && v@ == self@[path@],
                None => !self@.contains_key(path@),
            },
    {
        match self.find(path) {
            Some(i) => {
                proof {
                    lemma_map_of_value(self.entries@, i as int);
                }
                Some(&self.entries[i].1)
            },
            None => None,
        }
    }

    /// Whether the store holds a file at `path`.
    pub fn contains(&self, path: &Vec<u8>) -> (r: bool)
        requires
            self.inv(),
        ensures
            r == self@.contains_key(path@),
    {
        self.get(path).is_some()
    }

    /// Removes the file at `path`, if any; says whether one was there.
    pub fn remove(&mut self, path: &Vec<u8>) -> (r: bool)
        requires
            old(self).inv(),
        ensures
            final(self).inv(),
            final(self)@ == old(self)@.remove(path@),
            r == old(self)@.contains_key(path@),
    {
        match self.find(path) {
            Some(i) => {
                proof {
                    lemma_map_of_value(self.entries@, i as int);
                    lemma_map_of_remove(self.entries@, i as int);
                }
                self.entries.remove(i);
                true
            },
            None => {
                proof {
                    assert(old(self)@.remove(path@) =~= old(self)@);
                }
                false
            },
        }
    }

    /// Creates or overwrites the file at `path` with `contents`.
    pub fn write(&mut self, path: Vec<u8>, contents: Vec<u8>)
        requires
            old(self).inv(),
        ensures
            final(self).inv(),
            final(self)@ == old(self)@.insert(path@, contents@),
    {
        self.remove(&path);
        let ghost mid = self.entries@;
        proof {
            lemma_map_of_contains(mid, path@);
        }
        self.entries.push((path, contents));
        proof {
            assert(self.entries@.drop_last() =~= mid);
            assert(self.entries@.last() == (path, contents));
            assert(old(self)@.remove(path@).insert(path@, contents@) =~= old(self)@.insert(
                path@,
                contents@,
            ));
            assert forall|a: int, b: int|
                0 <= a < b < self.entries@.len() implies self.entries@[a].0@
                != self.entries@[b].0@ by {
                if b == self.entries@.len() - 1 {
                    assert(mid[a].0@ != path@);
                }
            }
        }
    }
}

/// Runs one action against the store, with exactly the meaning
/// `apply_action` gives it.
pub fn run_action(store: &mut FileStore, action: &FsAction)
    requires
        old(store).inv(),
    ensures
        final(store).inv(),
        final(store)@ == apply_action(old(store)@, *action),
{
    match action {
        FsAction::Write { path, contents } => {
            store.write(copy_bytes(path), copy_bytes(contents));
        },
        FsAction::Delete { path } => {
            store.remove(path);
        },
        FsAction::Rename { from, to } => {
            let moved: Option<Vec<u8>> = match store.get(from) {
                Some(v) => Some(copy_bytes(v)),
                None => None,
            };
            match moved {
                Some(contents) => {
                    store.remove(from);
                    store.write(copy_bytes(to), contents);
                },
                None => {},
            }
        },
    }
}

/// Runs a whole plan, in order.
pub fn run_plan(store: &mut FileStore, plan: &Vec<FsAction>)
    requires
        old(store).inv(),
    ensures
        final(store).inv(),
        final(store)@ == apply_plan_spec(old(store)@, plan@),
{
    let mut i: usize = 0;
    while i < plan.len()
        invariant
            old(store).inv(),
            store.inv(),
            i <= plan@.len(),
            store@ == apply_plan_spec(old(store)@, plan@.subrange(0, i as int)),
        decreases plan@.len() - i,
    {
        run_action(store, &plan[i]);
        proof {
            assert(plan@.subrange(0, i + 1).drop_last() =~= plan@.subrange(0, i as int));
            assert(plan@.subrange(0, i + 1).last() == plan@[i as int]);
        }
        i = i + 1;
    }
    proof {
        assert(plan@.subrange(0, plan@.len() as int) =~= plan@);
    }
}

} // verus!
