//! Cache of decoded images, keyed by the full path of the file they came from.
use vstd::prelude::*;

verus! {

/// Maps each path that was decoded to the handle of its image. Each path has
/// at most one entry; a new insert for a path replaces the old handle.
pub struct ImageCache<H> {
    entries: Vec<(String, H)>,
    contents: Ghost<Map<Seq<char>, H>>,
}

impl<H> ImageCache<H> {
    /// The cache as a map from path to handle.
    pub closed spec fn view(&self) -> Map<Seq<char>, H> {
        self.contents@
    }

    /// The entries hold distinct paths, and hold exactly the map of `view`.
    pub closed spec fn wf(&self) -> bool {
        &&& forall|i: int, j: int|
            0 <= i < j < self.entries@.len() ==> #[trigger] self.entries@[i].0@
                != #[trigger] self.entries@[j].0@
        &&& forall|i: int|
            0 <= i < self.entries@.len() ==> self.contents@.contains_key(
                #[trigger] self.entries@[i].0@,
            ) && self.contents@[self.entries@[i].0@] == self.entries@[i].1
        &&& forall|k: Seq<char>|
            #[trigger] self.contents@.contains_key(k) ==> exists|i: int|
                0 <= i < self.entries@.len() && #[trigger] self.entries@[i].0@ == k
    }

    /// An empty cache.
    pub fn new() -> (r: Self)
        ensures
            r.wf(),
            r@ == Map::<Seq<char>, H>::empty(),
    {
        ImageCache { entries: Vec::new(), contents: Ghost(Map::empty()) }
    }

    /// Position of the entry for `path`, if there is one.
    fn find(&self, path: &String) -> (r: Option<usize>)
        requires
            self.wf(),
        ensures
            r.is_some() == self@.contains_key(path@),
            r matches Some(i) ==> i < self.entries@.len() && self.entries@[i as int].0@ == path@,
    {
        let mut i: usize = 0;
        while i < self.entries.len()
            invariant
                self.wf(),
                i <= self.entries@.len(),
                forall|j: int| 0 <= j < i ==> self.entries@[j].0@ != path@,
            decreases self.entries@.len() - i,
        {
            if self.entries[i].0 == *path {
                return Some(i);
            }
            i = i + 1;
        }
        None
    }

    /// Whether an image for `path` is cached.
    pub fn contains(&self, path: &String) -> (r: bool)
        requires
            self.wf(),
        ensures
            r == self@.contains_key(path@),
    {
        self.find(path).is_some()
    }

    /// The cached handle for `path`, if any. Looks only; changes nothing.
    pub fn get(&self, path: &String) -> (r: Option<&H>)
        requires
            self.wf(),
        ensures
            r.is_some() == self@.contains_key(path@),
            r matches Some(h) ==> *h == self@[path@],
    {
        match self.find(path) {
            Some(i) => Some(&self.entries[i].1),
            None => None,
        }
    }

    /// Stores `handle` as the image of `path`, replacing an earlier one.
    pub fn insert(&mut self, path: String, handle: H)
        requires
            old(self).wf(),
        ensures
            final(self).wf(),
            final(self)@ == old(self)@.insert(path@, handle),
    {
        let ghost key = path@;
        let ghost old_entries = self.entries@;
        let ghost new_contents = self.contents@.insert(key, handle);
        let ghost mut w: int = 0;
        match self.find(&path) {
            Some(i) => {
                self.entries[i] = (path, handle);
                proof {
                    w = i as int;
                }
            },
            None => {
                self.entries.push((path, handle));
                proof {
                    w = old_entries.len() as int;
                }
            },
        }
        self.contents = Ghost(new_contents);
        assert(self.entries@[w].0@ == key);
        assert forall|k: Seq<char>| #[trigger] self.contents@.contains_key(k) implies exists|
            i: int,
        | 0 <= i < self.entries@.len() && #[trigger] self.entries@[i].0@ == k by {
            if k == key {
                assert(self.entries@[w].0@ == k);
            } else {
                assert(old(self).contents@.contains_key(k));
                let i = choose|i: int| 0 <= i < old_entries.len() && #[trigger] old_entries[i].0@ == k;
                assert(self.entries@[i] == old_entries[i]);
            }
        }
    }

    /// Drops every entry.
    pub fn clear(&mut self)
        ensures
            final(self).wf(),
            final(self)@ == Map::<Seq<char>, H>::empty(),
    {
        self.entries.clear();
        self.contents = Ghost(Map::empty());
    }
}

/// Inserting the same path twice leaves one entry for it, holding the
/// handle of the second insert.
pub proof fn lemma_insert_same_path_twice<H>(cache: ImageCache<H>, path: Seq<char>, first: H, second: H)
    ensures
        cache@.insert(path, first).insert(path, second) == cache@.insert(path, second),
        cache@.dom().finite() ==> cache@.insert(path, first).insert(path, second).dom().len()
            == cache@.insert(path, first).dom().len(),
{
    assert(cache@.insert(path, first).insert(path, second) =~= cache@.insert(path, second));
    assert(cache@.insert(path, first).insert(path, second).dom() =~= cache@.insert(
        path,
        first,
    ).dom());
}

/// Results for two distinct paths give the same cache in whichever order
/// they arrive, and the cache then holds both.
pub proof fn lemma_arrival_order_irrelevant<H>(
    cache: ImageCache<H>,
    path1: Seq<char>,
    handle1: H,
    path2: Seq<char>,
    handle2: H,
)
    requires
        path1 != path2,
    ensures
        cache@.insert(path1, handle1).insert(path2, handle2) == cache@.insert(path2, handle2).insert(
            path1,
            handle1,
        ),
        cache@.insert(path1, handle1).insert(path2, handle2).contains_key(path1),
        cache@.insert(path1, handle1).insert(path2, handle2).contains_key(path2),
{
    assert(cache@.insert(path1, handle1).insert(path2, handle2) =~= cache@.insert(
        path2,
        handle2,
    ).insert(path1, handle1));
}

} // verus!
