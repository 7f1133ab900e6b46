//! From raw file-system notifications to batches of changed paths.
//!
//! A notification names a kind of change and the paths it concerns. Only the creation,
//! modification and removal of files make a batch. The driver resolves each path to
//! its canonical form; a path that cannot be resolved is left out.

use crate::path::{texts, WatchPath};
use vstd::prelude::*;

verus! {

/// What a raw notification is about.
#[derive(Clone, Copy, Debug, PartialEq, Eq, Structural)]
pub enum ChangeKind {
    /// Unknown to the source.
    Any,
    /// A file was opened, read or closed.
    Access,
    /// A file or directory came into being.
    Create,
    /// Contents or name changed.
    Modify,
    /// Only metadata changed: permissions, ownership, timestamps.
    Metadata,
    /// A file or directory was removed.
    Remove,
    /// Anything else.
    Other,
}

/// The kinds of change that make a batch.
pub open spec fn relevant(kind: ChangeKind) -> bool {
    kind is Create || kind is Modify || kind is Remove
}

pub fn is_relevant(kind: ChangeKind) -> (yes: bool)
    ensures
        yes == relevant(kind),
{
    match kind {
        ChangeKind::Create | ChangeKind::Modify | ChangeKind::Remove => true,
        _ => false,
    }
}

/// The texts of the paths that were resolved, in order.
pub open spec fn resolved(paths: Seq<Option<WatchPath>>) -> Seq<Seq<char>>
    decreases paths.len(),
{
    if paths.len() == 0 {
        Seq::empty()
    } else {
        match paths.last() {
            Some(path) => resolved(paths.drop_last()).push(path@),
            None => resolved(paths.drop_last()),
        }
    }
}

/// The paths that were resolved, in order; the others are dropped without a word.
pub fn surviving_paths(paths: Vec<Option<WatchPath>>) -> (batch: Vec<WatchPath>)
    ensures
        texts(batch@) == resolved(paths@),
{
    let mut batch: Vec<WatchPath> = Vec::new();
    let mut i: usize = 0;
    assert(paths@.take(0) =~= Seq::<Option<WatchPath>>::empty());
    assert(texts(batch@) =~= Seq::<Seq<char>>::empty());
    while i < paths.len()
        invariant
            i <= paths.len(),
            texts(batch@) == resolved(paths@.take(i as int)),
        decreases paths.len() - i,
    {
        let ghost before = texts(batch@);
        assert(paths@.take(i + 1).drop_last() =~= paths@.take(i as int));
        match &paths[i] {
            Some(path) => {
                batch.push(path.clone());
                assert(texts(batch@) =~= before.push(path@));
            },
            None => {},
        }
        i += 1;
    }
    assert(paths@.take(paths.len() as int) =~= paths@);
    batch
}

/// The batch that a notification of this kind makes, given each of its paths as
/// resolved or not: none for a kind that is ignored, else the resolved paths, be
/// they few or none.
pub fn event_batch(kind: ChangeKind, paths: Vec<Option<WatchPath>>) -> (batch: Option<
    Vec<WatchPath>,
>)
    ensures
        batch is Some == relevant(kind),
        batch matches Some(found) ==> texts(found@) == resolved(paths@),
{
    if is_relevant(kind) {
        Some(surviving_paths(paths))
    } else {
        None
    }
}

} // verus!
