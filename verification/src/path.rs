//! Watched paths and duplicate-free, insertion-ordered collections of them.

use vstd::prelude::*;

verus! {

/// A canonical absolute filesystem path. Two paths are the same path exactly when
/// their texts are equal.
#[derive(Debug, PartialEq, Eq, Hash)]
pub struct WatchPath {
    pub text: String,
}

impl View for WatchPath {
    type V = Seq<char>;

    open spec fn view(&self) -> Seq<char> {
        self.text@
    }
}

impl WatchPath {
    pub fn new(text: String) -> (path: WatchPath)
        ensures
            path@ == text@,
    {
        WatchPath { text }
    }

    pub fn as_str(&self) -> (text: &str)
        ensures
            text@ == self@,
    {
        self.text.as_str()
    }

    pub fn into_string(self) -> (text: String)
        ensures
            text@ == self@,
    {
        self.text
    }

    /// Whether both values name the same path.
    pub fn same_as(&self, other: &WatchPath) -> (same: bool)
        ensures
            same == (self@ == other@),
    {
        self.text == other.text
    }
}

impl Clone for WatchPath {
    fn clone(&self) -> (copy: WatchPath)
        ensures
            copy == *self,
    {
        WatchPath { text: self.text.clone() }
    }
}

/// The texts of a sequence of paths, in the same order.
pub open spec fn texts(paths: Seq<WatchPath>) -> Seq<Seq<char>> {
    Seq::new(paths.len(), |i: int| paths[i]@)
}

/// `acc` with `path` appended unless it is already there.
pub open spec fn with_path(acc: Seq<Seq<char>>, path: Seq<char>) -> Seq<Seq<char>> {
    if acc.contains(path) {
        acc
    } else {
        acc.push(path)
    }
}

/// `acc` after taking in `batch` from first to last, each path at most once.
pub open spec fn merged(acc: Seq<Seq<char>>, batch: Seq<Seq<char>>) -> Seq<Seq<char>>
    decreases batch.len(),
{
    if batch.len() == 0 {
        acc
    } else {
        with_path(merged(acc, batch.drop_last()), batch.last())
    }
}

/// The paths of `batch` that `acc` did not hold yet, each once, in order of first
/// appearance.
pub open spec fn fresh(acc: Seq<Seq<char>>, batch: Seq<Seq<char>>) -> Seq<Seq<char>> {
    merged(acc, batch).skip(acc.len() as int)
}

/// Taking in a batch keeps what was there, in place, and only appends.
pub proof fn lemma_merged_extends(acc: Seq<Seq<char>>, batch: Seq<Seq<char>>)
    ensures
        acc.len() <= merged(acc, batch).len() <= acc.len() + batch.len(),
        merged(acc, batch) == acc + fresh(acc, batch),
    decreases batch.len(),
{
    if batch.len() > 0 {
        lemma_merged_extends(acc, batch.drop_last());
        let before = merged(acc, batch.drop_last());
        assert(with_path(before, batch.last()).take(acc.len() as int) =~= before.take(
            acc.len() as int,
        ));
        assert(before.take(acc.len() as int) =~= acc);
    }
    assert(merged(acc, batch) =~= acc + fresh(acc, batch));
}

/// Taking in a batch never introduces a duplicate.
pub proof fn lemma_merged_distinct(acc: Seq<Seq<char>>, batch: Seq<Seq<char>>)
    requires
        acc.no_duplicates(),
    ensures
        merged(acc, batch).no_duplicates(),
    decreases batch.len(),
{
    if batch.len() > 0 {
        lemma_merged_distinct(acc, batch.drop_last());
    }
}

/// A path is held after a merge exactly when it was held before or the batch names it.
pub proof fn lemma_merged_contains(acc: Seq<Seq<char>>, batch: Seq<Seq<char>>, path: Seq<char>)
    ensures
        merged(acc, batch).contains(path) <==> acc.contains(path) || batch.contains(path),
    decreases batch.len(),
{
    if batch.len() > 0 {
        let init = batch.drop_last();
        let before = merged(acc, init);
        lemma_merged_contains(acc, init, path);
        if batch.contains(path) {
            let i = choose|i: int| 0 <= i < batch.len() && batch[i] == path;
            if i < init.len() {
                assert(init[i] == path);
            }
        }
        if init.contains(path) {
            let i = choose|i: int| 0 <= i < init.len() && init[i] == path;
            assert(batch[i] == path);
        }
        assert(batch[batch.len() - 1] == batch.last());
        if !before.contains(batch.last()) {
            let after = before.push(batch.last());
            assert(after[before.len() as int] == batch.last());
            if before.contains(path) {
                let i = choose|i: int| 0 <= i < before.len() && before[i] == path;
                assert(after[i] == path);
            }
            if after.contains(path) {
                let i = choose|i: int| 0 <= i < after.len() && after[i] == path;
                if i < before.len() {
                    assert(before[i] == path);
                }
            }
        }
    }
}

/// As sets, a merge is the union of what was held and the batch.
pub proof fn lemma_merged_is_union(acc: Seq<Seq<char>>, batch: Seq<Seq<char>>)
    ensures
        merged(acc, batch).to_set() == acc.to_set().union(batch.to_set()),
{
    assert forall|path: Seq<char>|
        merged(acc, batch).to_set().contains(path) <==> acc.to_set().union(
            batch.to_set(),
        ).contains(path) by {
        lemma_merged_contains(acc, batch, path);
    }
    assert(merged(acc, batch).to_set() =~= acc.to_set().union(batch.to_set()));
}

/// The paths that a batch adds are the paths that it names and that were not held,
/// each once.
pub proof fn lemma_fresh_are_new(acc: Seq<Seq<char>>, batch: Seq<Seq<char>>)
    requires
        acc.no_duplicates(),
    ensures
        fresh(acc, batch).no_duplicates(),
        forall|path: Seq<char>|
            fresh(acc, batch).contains(path) <==> batch.contains(path) && !acc.contains(path),
{
    let all = merged(acc, batch);
    let added = fresh(acc, batch);
    lemma_merged_extends(acc, batch);
    lemma_merged_distinct(acc, batch);
    assert forall|path: Seq<char>| added.contains(path) <==> batch.contains(path) && !acc.contains(
        path,
    ) by {
        lemma_merged_contains(acc, batch, path);
        if added.contains(path) {
            let i = choose|i: int| 0 <= i < added.len() && added[i] == path;
            assert(all[acc.len() + i] == path);
            if acc.contains(path) {
                let j = choose|j: int| 0 <= j < acc.len() && acc[j] == path;
                assert(all[j] == path);
            }
        }
        if batch.contains(path) && !acc.contains(path) {
            let i = choose|i: int| 0 <= i < all.len() && all[i] == path;
            if i < acc.len() {
                assert(acc[i] == path);
            }
            assert(added[i - acc.len()] == path);
        }
    }
}

/// Taking in paths that are all held already changes nothing.
pub proof fn lemma_merged_known(acc: Seq<Seq<char>>, batch: Seq<Seq<char>>)
    requires
        forall|i: int| 0 <= i < batch.len() ==> acc.contains(#[trigger] batch[i]),
    ensures
        merged(acc, batch) == acc,
    decreases batch.len(),
{
    if batch.len() > 0 {
        lemma_merged_known(acc, batch.drop_last());
        assert(acc.contains(batch[batch.len() - 1]));
    }
}

/// Taking in the same path twice is taking it in once.
pub proof fn lemma_with_path_idempotent(acc: Seq<Seq<char>>, path: Seq<char>)
    ensures
        with_path(with_path(acc, path), path) == with_path(acc, path),
        with_path(with_path(acc, path), path).len() == with_path(acc, path).len(),
{
    if !acc.contains(path) {
        assert(acc.push(path)[acc.len() as int] == path);
    }
}

/// Registering the same batch twice is registering it once: the second pass finds
/// every path already held and leaves the collection, and so its size, as it was.
pub proof fn lemma_merged_idempotent(acc: Seq<Seq<char>>, batch: Seq<Seq<char>>)
    ensures
        merged(merged(acc, batch), batch) == merged(acc, batch),
        merged(merged(acc, batch), batch).len() == merged(acc, batch).len(),
        fresh(merged(acc, batch), batch).len() == 0,
{
    assert forall|i: int| 0 <= i < batch.len() implies merged(acc, batch).contains(
        #[trigger] batch[i],
    ) by {
        lemma_merged_contains(acc, batch, batch[i]);
    }
    lemma_merged_known(merged(acc, batch), batch);
}

/// Batches taken in one after the other give what their concatenation gives.
pub proof fn lemma_merged_concat(acc: Seq<Seq<char>>, first: Seq<Seq<char>>, second: Seq<Seq<char>>)
    ensures
        merged(merged(acc, first), second) == merged(acc, first + second),
    decreases second.len(),
{
    if second.len() == 0 {
        assert(first + second =~= first);
    } else {
        lemma_merged_concat(acc, first, second.drop_last());
        assert((first + second).drop_last() =~= first + second.drop_last());
        assert((first + second).last() == second.last());
    }
}

/// Copies of the given paths, in order.
pub fn copy_paths(paths: &Vec<WatchPath>) -> (copy: Vec<WatchPath>)
    ensures
        texts(copy@) == texts(paths@),
{
    let mut copy: Vec<WatchPath> = Vec::new();
    let mut i: usize = 0;
    while i < paths.len()
        invariant
            i <= paths.len(),
            copy.len() == i,
            forall|k: int| 0 <= k < i ==> copy[k]@ == paths[k]@,
        decreases paths.len() - i,
    {
        copy.push(paths[i].clone());
        i += 1;
    }
    assert(texts(copy@) =~= texts(paths@));
    copy
}

/// A collection of paths in which no path occurs twice, kept in the order in which
/// the paths first came in.
pub struct PathSet {
    items: Vec<WatchPath>,
}

impl View for PathSet {
    type V = Seq<Seq<char>>;

    closed spec fn view(&self) -> Seq<Seq<char>> {
        texts(self.items@)
    }
}

impl PathSet {
    /// No path is held twice.
    pub open spec fn wf(&self) -> bool {
        self@.no_duplicates()
    }

    pub fn new() -> (set: PathSet)
        ensures
            set.wf(),
            set@ == Seq::<Seq<char>>::empty(),
    {
        let set = PathSet { items: Vec::new() };
        assert(set@ =~= Seq::<Seq<char>>::empty());
        set
    }

    pub fn len(&self) -> (n: usize)
        ensures
            n == self@.len(),
    {
        self.items.len()
    }

    pub fn is_empty(&self) -> (empty: bool)
        ensures
            empty == (self@.len() == 0),
    {
        self.items.len() == 0
    }

    pub fn contains(&self, path: &WatchPath) -> (held: bool)
        ensures
            held == self@.contains(path@),
    {
        let mut i: usize = 0;
        while i < self.items.len()
            invariant
                i <= self.items.len(),
                forall|k: int| 0 <= k < i ==> self@[k] != path@,
            decreases self.items.len() - i,
        {
            if self.items[i].same_as(path) {
                assert(self@[i as int] == path@);
                return true;
            }
            i += 1;
        }
        false
    }

    /// Takes in one path; says whether it was new.
    pub fn insert(&mut self, path: WatchPath) -> (added: bool)
        requires
            old(self).wf(),
        ensures
            final(self).wf(),
            final(self)@ == with_path(old(self)@, path@),
            added == !old(self)@.contains(path@),
    {
        if self.contains(&path) {
            false
        } else {
            self.items.push(path);
            assert(self@ =~= old(self)@.push(path@));
            true
        }
    }

    /// Takes in a batch, first to last, and hands back copies of the paths that were
    /// new, each once, in order of first appearance.
    pub fn extend(&mut self, batch: &Vec<WatchPath>) -> (added: Vec<WatchPath>)
        requires
            old(self).wf(),
        ensures
            final(self).wf(),
            final(self)@ == merged(old(self)@, texts(batch@)),
            texts(added@) == fresh(old(self)@, texts(batch@)),
    {
        let ghost start = self@;
        let ghost incoming = texts(batch@);
        let mut added: Vec<WatchPath> = Vec::new();
        let mut i: usize = 0;
        proof {
            assert(incoming.take(0) =~= Seq::<Seq<char>>::empty());
            assert(texts(added@) =~= start.skip(start.len() as int));
        }
        while i < batch.len()
            invariant
                i <= batch.len(),
                incoming == texts(batch@),
                self@ == merged(start, incoming.take(i as int)),
                self.wf(),
                start.len() <= self@.len(),
                texts(added@) == self@.skip(start.len() as int),
            decreases batch.len() - i,
        {
            let ghost before = self@;
            let ghost listed = texts(added@);
            let path = batch[i].clone();
            let is_new = !self.contains(&path);
            if is_new {
                added.push(path.clone());
            }
            self.insert(path);
            proof {
                assert(incoming.take(i + 1).drop_last() =~= incoming.take(i as int));
                assert(incoming.take(i + 1).last() == batch[i as int]@);
                if is_new {
                    assert(texts(added@) =~= listed.push(batch[i as int]@));
                    assert(self@.skip(start.len() as int) =~= before.skip(start.len() as int).push(
                        batch[i as int]@,
                    ));
                }
            }
            i += 1;
        }
        assert(incoming.take(batch.len() as int) =~= incoming);
        added
    }

    /// Copies of the held paths, in order.
    pub fn to_vec(&self) -> (paths: Vec<WatchPath>)
        ensures
            texts(paths@) == self@,
    {
        copy_paths(&self.items)
    }

    /// Empties the collection and hands back what it held, in order.
    pub fn take_all(&mut self) -> (paths: Vec<WatchPath>)
        ensures
            final(self).wf(),
            texts(paths@) == old(self)@,
            final(self)@ == Seq::<Seq<char>>::empty(),
    {
        let mut paths: Vec<WatchPath> = Vec::new();
        std::mem::swap(&mut self.items, &mut paths);
        assert(self@ =~= Seq::<Seq<char>>::empty());
        paths
    }
}

} // verus!
