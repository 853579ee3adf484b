//! The changes that the file watcher reports, and the ones that count.

use vstd::prelude::*;
use crate::text::texts;

verus! {

/// What the file watcher says happened, by its broad kind.
#[derive(Clone, Copy, Debug, PartialEq, Eq, Structural)]
pub enum SourceKind {
    /// The watcher could not tell.
    Any,
    /// A file was opened, read or closed.
    Access,
    /// A file or directory appeared.
    Create,
    /// A file's content, name or metadata changed.
    Modify,
    /// A file or directory went away.
    Remove,
    /// Something the watcher has no kind for.
    Other,
}

/// A change that the index has to follow.
#[derive(Clone, Copy, Debug, PartialEq, Eq, Structural)]
pub enum ChangeKind {
    Create,
    Modify,
    Remove,
}

/// One change to one path.
#[derive(Debug)]
pub struct Change {
    pub kind: ChangeKind,
    pub path: String,
}

/// The change that a report of the given kind stands for, if any: creations,
/// modifications and removals count, nothing else does.
pub open spec fn change_of(kind: SourceKind) -> Option<ChangeKind> {
    match kind {
        SourceKind::Create => Some(ChangeKind::Create),
        SourceKind::Modify => Some(ChangeKind::Modify),
        SourceKind::Remove => Some(ChangeKind::Remove),
        _ => None,
    }
}

/// The changes that one report about `paths` stands for, as kind and path.
pub open spec fn changes_of(kind: SourceKind, paths: Seq<Seq<char>>) -> Seq<
    (ChangeKind, Seq<char>),
> {
    match change_of(kind) {
        Some(change) => paths.map_values(|p: Seq<char>| (change, p)),
        None => Seq::empty(),
    }
}

/// A list of changes as kinds and path texts.
pub open spec fn change_views(changes: Seq<Change>) -> Seq<(ChangeKind, Seq<char>)> {
    changes.map_values(|c: Change| (c.kind, c.path@))
}

impl ChangeKind {
    /// The change that a report of the given kind stands for, if any.
    pub fn of(kind: SourceKind) -> (r: Option<ChangeKind>)
        ensures
            r == change_of(kind),
    {
        match kind {
            SourceKind::Create => Some(ChangeKind::Create),
            SourceKind::Modify => Some(ChangeKind::Modify),
            SourceKind::Remove => Some(ChangeKind::Remove),
            _ => None,
        }
    }
}

/// The changes to pass on for one report of the watcher: one for each path
/// it names, in order, where its kind counts, and none where it does not.
pub fn relevant_changes(kind: SourceKind, paths: &Vec<String>) -> (r: Vec<Change>)
    ensures
        change_views(r@) == changes_of(kind, texts(paths@)),
{
    let mut out: Vec<Change> = Vec::new();
    match ChangeKind::of(kind) {
        Some(change) => {
            let mut i: usize = 0;
            while i < paths.len()
                invariant
                    i <= paths@.len(),
                    out@.len() == i,
                    forall|j: int|
                        0 <= j < i ==> (#[trigger] out@[j]).kind == change && out@[j].path@
                            == paths@[j]@,
                decreases paths@.len() - i,
            {
                out.push(Change { kind: change, path: paths[i].clone() });
                i += 1;
            }
            assert(change_views(out@) =~= changes_of(kind, texts(paths@)));
        },
        None => {
            assert(change_views(out@) =~= changes_of(kind, texts(paths@)));
        },
    }
    out
}

} // verus!
