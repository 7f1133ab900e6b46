//! Caches for package manifests: the manifests that were loaded, by path, and the
//! paths at which none was found.
//!
//! Each worker owns its caches and hands them to whoever loads a manifest. Reading
//! and parsing the file is the caller's part; what is consulted first and what is
//! remembered afterwards is decided here.

use crate::path::{texts, with_path, PathSet, WatchPath};
use vstd::prelude::*;

verus! {

/// The manifests of one worker that were loaded, by path.
pub struct PackageJsonThreadLocalCache<T> {
    paths: Vec<WatchPath>,
    manifests: Vec<T>,
}

impl<T> View for PackageJsonThreadLocalCache<T> {
    type V = Map<Seq<char>, T>;

    closed spec fn view(&self) -> Map<Seq<char>, T> {
        Map::new(
            |path: Seq<char>| texts(self.paths@).contains(path),
            |path: Seq<char>| self.manifests@[texts(self.paths@).index_of(path)],
        )
    }
}

impl<T> PackageJsonThreadLocalCache<T> {
    /// Each path has one manifest.
    pub closed spec fn wf(&self) -> bool {
        &&& self.paths@.len() == self.manifests@.len()
        &&& texts(self.paths@).no_duplicates()
    }

    pub fn new() -> (cache: Self)
        ensures
            cache.wf(),
            cache@ == Map::<Seq<char>, T>::empty(),
    {
        let cache = PackageJsonThreadLocalCache { paths: Vec::new(), manifests: Vec::new() };
        assert(cache@ =~= Map::<Seq<char>, T>::empty());
        cache
    }

    /// Forgets every manifest, as for a worker that is put to new use.
    pub fn clear(&mut self)
        ensures
            final(self).wf(),
            final(self)@ == Map::<Seq<char>, T>::empty(),
    {
        self.paths.clear();
        self.manifests.clear();
        assert(self@ =~= Map::<Seq<char>, T>::empty());
    }

    /// How many manifests are held.
    pub fn len(&self) -> (n: usize)
        requires
            self.wf(),
        ensures
            n == self@.dom().len(),
            self@.dom().finite(),
    {
        proof {
            let keys = texts(self.paths@);
            keys.unique_seq_to_set();
            assert(self@.dom() =~= keys.to_set());
        }
        self.paths.len()
    }

    /// Where `path` stands among the paths, if it does.
    fn position(&self, path: &WatchPath) -> (at: Option<usize>)
        requires
            self.wf(),
        ensures
            match at {
                Some(i) => i < self.paths@.len() && texts(self.paths@)[i as int] == path@,
                None => !texts(self.paths@).contains(path@),
            },
    {
        let mut i: usize = 0;
        while i < self.paths.len()
            invariant
                i <= self.paths.len(),
                forall|k: int| 0 <= k < i ==> texts(self.paths@)[k] != path@,
            decreases self.paths.len() - i,
        {
            if self.paths[i].same_as(path) {
                return Some(i);
            }
            i += 1;
        }
        None
    }

    /// The manifest that was loaded from `path`, if one is held.
    pub fn get(&self, path: &WatchPath) -> (found: Option<&T>)
        requires
            self.wf(),
        ensures
            match found {
                Some(manifest) => self@.contains_key(path@) && *manifest == self@[path@],
                None => !self@.contains_key(path@),
            },
    {
        match self.position(path) {
            Some(i) => {
                proof {
                    lemma_place(texts(self.paths@), i as int);
                }
                Some(&self.manifests[i])
            },
            None => None,
        }
    }

    /// Holds `manifest` as what was loaded from `path`, in place of what was held
    /// for that path before.
    pub fn set(&mut self, path: WatchPath, manifest: T)
        requires
            old(self).wf(),
        ensures
            final(self).wf(),
            final(self)@ == old(self)@.insert(path@, manifest),
    {
        let ghost keys = texts(self.paths@);
        match self.position(&path) {
            Some(i) => {
                self.manifests.set(i, manifest);
                proof {
                    assert forall|key: Seq<char>| #[trigger] keys.contains(key) implies (key
                        == path@) == (keys.index_of(key) == i) by {
                        lemma_place(keys, keys.index_of(key));
                        lemma_place(keys, i as int);
                    }
                    assert(self@ =~= old(self)@.insert(path@, manifest));
                }
            },
            None => {
                self.paths.push(path);
                self.manifests.push(manifest);
                proof {
                    let after = texts(self.paths@);
                    assert(after =~= keys.push(path@));
                    lemma_place(after, keys.len() as int);
                    assert forall|key: Seq<char>| #[trigger] keys.contains(key) implies after.contains(
                        key,
                    ) && after.index_of(key) == keys.index_of(key) by {
                        let at = keys.index_of(key);
                        assert(after[at] == key);
                        lemma_place(after, at);
                    }
                    assert forall|key: Seq<char>| #[trigger]
                        after.contains(key) && key != path@ implies keys.contains(key) by {
                        let at = after.index_of(key);
                        assert(keys[at] == key);
                    }
                    assert(self@ =~= old(self)@.insert(path@, manifest));
                }
            },
        }
    }
}

/// In a sequence without duplicates, each item is found where it stands.
proof fn lemma_place(keys: Seq<Seq<char>>, at: int)
    requires
        keys.no_duplicates(),
        0 <= at < keys.len(),
    ensures
        keys.contains(keys[at]),
        keys.index_of(keys[at]) == at,
{
}

/// Why a manifest could not be loaded.
#[derive(Debug, PartialEq, Eq)]
pub enum LoadError<E> {
    /// There is no file at the path.
    NotFound,
    /// The file could not be read, or what it holds is no manifest.
    Failed(E),
}

/// What the caller gets for an attempt to load a manifest: a manifest is handed on,
/// a missing file counts as no manifest, any other failure is passed on.
pub open spec fn load_result<T, E>(loaded: Result<T, LoadError<E>>) -> Result<Option<T>, E> {
    match loaded {
        Ok(manifest) => Ok(Some(manifest)),
        Err(LoadError::NotFound) => Ok(None),
        Err(LoadError::Failed(error)) => Err(error),
    }
}

/// The paths known to have no manifest after an attempt to load the one at `path`:
/// a missing file is remembered, nothing else is.
pub open spec fn missing_after<T, E>(
    missing: Seq<Seq<char>>,
    path: Seq<char>,
    loaded: Result<T, LoadError<E>>,
) -> Seq<Seq<char>> {
    match loaded {
        Err(LoadError::NotFound) => with_path(missing, path),
        _ => missing,
    }
}

/// Settles an attempt to load the manifest at `path`.
pub fn settle_load<T, E>(
    missing: &mut PathSet,
    path: &WatchPath,
    loaded: Result<T, LoadError<E>>,
) -> (result: Result<Option<T>, E>)
    requires
        old(missing).wf(),
    ensures
        final(missing).wf(),
        result == load_result(loaded),
        final(missing)@ == missing_after(old(missing)@, path@, loaded),
{
    match loaded {
        Ok(manifest) => Ok(Some(manifest)),
        Err(LoadError::NotFound) => {
            missing.insert(path.clone());
            Ok(None)
        },
        Err(LoadError::Failed(error)) => Err(error),
    }
}

/// Loads the manifest at `path` with `load`, unless the path is known to have none:
/// then nothing is loaded and the answer is no manifest. Whatever `load` comes back
/// with is settled as [`settle_load`] does.
pub fn load_pkg_json<T, E, F: FnOnce() -> Result<T, LoadError<E>>>(
    missing: &mut PathSet,
    path: &WatchPath,
    load: F,
) -> (result: Result<Option<T>, E>)
    requires
        old(missing).wf(),
        !old(missing)@.contains(path@) ==> load.requires(()),
    ensures
        final(missing).wf(),
        old(missing)@.contains(path@) ==> result == Ok::<Option<T>, E>(None) && final(missing)@
            == old(missing)@,
        !old(missing)@.contains(path@) ==> exists|loaded: Result<T, LoadError<E>>|
            {
                &&& load.ensures((), loaded)
                &&& result == load_result(loaded)
                &&& final(missing)@ == missing_after(old(missing)@, path@, loaded)
            },
{
    if missing.contains(path) {
        return Ok(None);
    }
    let loaded = load();
    settle_load(missing, path, loaded)
}

} // verus!
