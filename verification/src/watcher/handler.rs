//! What a settled change asks of the note store and of the index.
//!
//! Handling a change is a short exchange. The handler names the next request
//! (is the path indexed, open the note, put it in, take it out); the caller
//! carries it out and hands back the reply; the handler names the next
//! request or says how the change ended. No request of one path waits on
//! another path.

use vstd::prelude::*;
use vstd::string::*;
use crate::domain::{has_note_extension, is_note_path, opened, LocalNote, NoteError, NoteView};
use crate::error::OraError;
use crate::paths::{file_name, file_name_of};
use crate::watcher::event::{Change, ChangeKind};
use crate::watcher::index::{entry_at, is_indexed, with_note, without_note};

verus! {

/// How handling a change ended.
#[derive(Debug)]
pub enum Outcome {
    /// The path is no note file: nothing was asked.
    Ignored,
    /// A created file was indexed already: nothing was changed.
    AlreadyIndexed,
    /// A created file could not be opened any more: nothing was changed.
    Vanished,
    /// The note in the file was put into the index.
    Indexed,
    /// The entry of the path was taken out; `existed` tells whether there
    /// was one.
    Removed { existed: bool },
    /// The index failed.
    Failed { error: OraError },
}

/// The request that is out, or the end of the exchange.
#[derive(Debug)]
pub enum Dispatch {
    /// Is there an entry for `path`?
    CheckIndexed { path: String },
    /// Open the note in the file at `path`. `heal` tells what a failure
    /// means: take the entry out (`true`), or leave the index alone.
    OpenNote { path: String, heal: bool },
    /// Put `note` into the index.
    IndexNote { note: LocalNote },
    /// Take the entry for `path` out of the index.
    RemoveNote { path: String },
    /// Nothing more to ask.
    Done { outcome: Outcome },
}

/// What came back for a request.
#[derive(Debug)]
pub enum Reply {
    /// Whether the index has an entry for the path.
    Known(bool),
    /// The note that was opened.
    Opened(LocalNote),
    /// The file could not be opened.
    Unreadable(NoteError),
    /// The note was put into the index.
    Stored,
    /// The entry was taken out, if there was one: `true` if there was.
    Removed(bool),
    /// The index failed.
    Failed(OraError),
}

/// Handles the changes that settle, one exchange per change.
#[derive(Clone, Copy, Debug)]
pub struct FileIndexHandler {}

/// A request as plain text values.
pub enum DispatchView {
    CheckIndexed { path: Seq<char> },
    OpenNote { path: Seq<char>, heal: bool },
    IndexNote { note: NoteView },
    RemoveNote { path: Seq<char> },
    Done { outcome: Outcome },
}

/// A reply as plain text values. Why a file could not be opened plays no
/// part.
pub enum ReplyView {
    Known(bool),
    Opened(NoteView),
    Unreadable,
    Stored,
    Removed(bool),
    Failed(OraError),
}

impl View for Dispatch {
    type V = DispatchView;

    open spec fn view(&self) -> DispatchView {
        match self {
            Dispatch::CheckIndexed { path } => DispatchView::CheckIndexed { path: path@ },
            Dispatch::OpenNote { path, heal } => DispatchView::OpenNote { path: path@, heal: *heal },
            Dispatch::IndexNote { note } => DispatchView::IndexNote { note: note@ },
            Dispatch::RemoveNote { path } => DispatchView::RemoveNote { path: path@ },
            Dispatch::Done { outcome } => DispatchView::Done { outcome: *outcome },
        }
    }
}

impl View for Reply {
    type V = ReplyView;

    open spec fn view(&self) -> ReplyView {
        match self {
            Reply::Known(known) => ReplyView::Known(*known),
            Reply::Opened(note) => ReplyView::Opened(note@),
            Reply::Unreadable(_) => ReplyView::Unreadable,
            Reply::Stored => ReplyView::Stored,
            Reply::Removed(existed) => ReplyView::Removed(*existed),
            Reply::Failed(error) => ReplyView::Failed(*error),
        }
    }
}

// The exchange.

/// Whether `path` names a note file that the index follows: its extension is
/// `md`, and its file name does not start with a dot.
pub open spec fn is_markdown(path: Seq<char>) -> bool {
    &&& is_note_path(path)
    &&& file_name_of(path) is Some
    &&& file_name_of(path)->Some_0.len() > 0
    &&& file_name_of(path)->Some_0[0] != '.'
}

/// The first request for a change of the given kind to `path`. A path that is
/// no note file asks nothing. A creation asks whether the path is indexed, a
/// modification opens the note, a removal takes the entry out.
pub open spec fn start(kind: ChangeKind, path: Seq<char>) -> DispatchView {
    if !is_markdown(path) {
        DispatchView::Done { outcome: Outcome::Ignored }
    } else {
        match kind {
            ChangeKind::Create => DispatchView::CheckIndexed { path },
            ChangeKind::Modify => DispatchView::OpenNote { path, heal: true },
            ChangeKind::Remove => DispatchView::RemoveNote { path },
        }
    }
}

/// What follows the request `d` once `reply` came back.
///
/// A created file that is indexed already is left alone; otherwise it is
/// opened and put in, and if it cannot be opened any more nothing happens. A
/// modified file is opened and put in; if it cannot be opened its entry is
/// taken out. A failure of the index ends the exchange. A reply that does not
/// answer the request leaves the request standing.
pub open spec fn next(d: DispatchView, reply: ReplyView) -> DispatchView {
    match (d, reply) {
        (DispatchView::CheckIndexed { path }, ReplyView::Known(true)) => DispatchView::Done {
            outcome: Outcome::AlreadyIndexed,
        },
        (DispatchView::CheckIndexed { path }, ReplyView::Known(false)) => DispatchView::OpenNote {
            path,
            heal: false,
        },
        (DispatchView::OpenNote { path, heal }, ReplyView::Opened(note)) => DispatchView::IndexNote {
            note,
        },
        (DispatchView::OpenNote { path, heal }, ReplyView::Unreadable) => if heal {
            DispatchView::RemoveNote { path }
        } else {
            DispatchView::Done { outcome: Outcome::Vanished }
        },
        (DispatchView::IndexNote { note }, ReplyView::Stored) => DispatchView::Done {
            outcome: Outcome::Indexed,
        },
        (DispatchView::RemoveNote { path }, ReplyView::Removed(existed)) => DispatchView::Done {
            outcome: Outcome::Removed { existed },
        },
        (DispatchView::CheckIndexed { path }, ReplyView::Failed(error)) => DispatchView::Done {
            outcome: Outcome::Failed { error },
        },
        (DispatchView::IndexNote { note }, ReplyView::Failed(error)) => DispatchView::Done {
            outcome: Outcome::Failed { error },
        },
        (DispatchView::RemoveNote { path }, ReplyView::Failed(error)) => DispatchView::Done {
            outcome: Outcome::Failed { error },
        },
        _ => d,
    }
}

// A note store and an index that answer faithfully.

/// The files of a shelf by path, and the entries of its index by path.
pub struct World {
    pub files: Map<Seq<char>, Seq<char>>,
    pub index: Map<Seq<char>, NoteView>,
}

/// The world after a faithful note store and index carried out the request
/// `d`.
pub open spec fn world_after(w: World, d: DispatchView) -> World {
    match d {
        DispatchView::IndexNote { note } => World { files: w.files, index: with_note(w.index, note) },
        DispatchView::RemoveNote { path } => World {
            files: w.files,
            index: without_note(w.index, path),
        },
        _ => w,
    }
}

/// What a faithful note store and index reply to the request `d`.
pub open spec fn reply_to(w: World, d: DispatchView) -> ReplyView {
    match d {
        DispatchView::CheckIndexed { path } => ReplyView::Known(is_indexed(w.index, path)),
        DispatchView::OpenNote { path, heal } => if w.files.dom().contains(path) {
            ReplyView::Opened(opened(path, w.files[path]))
        } else {
            ReplyView::Unreadable
        },
        DispatchView::IndexNote { note } => ReplyView::Stored,
        DispatchView::RemoveNote { path } => ReplyView::Removed(is_indexed(w.index, path)),
        DispatchView::Done { outcome } => ReplyView::Stored,
    }
}

/// The world after the exchange that starts at `d` has run for at most
/// `steps` requests against a faithful note store and index.
pub open spec fn run(d: DispatchView, w: World, steps: nat) -> (DispatchView, World)
    decreases steps,
{
    if steps == 0 || d is Done {
        (d, w)
    } else {
        run(next(d, reply_to(w, d)), world_after(w, d), (steps - 1) as nat)
    }
}

/// The end of handling a change of the given kind to `path` in the world
/// `w`: no exchange takes more than three requests.
pub open spec fn settled(kind: ChangeKind, path: Seq<char>, w: World) -> (DispatchView, World) {
    run(start(kind, path), w, 3)
}

// The operations.

/// Whether `path` names a note file that the index follows: its extension is
/// `md`, and its file name does not start with a dot.
pub fn is_markdown_file(path: &str) -> (r: bool)
    ensures
        r == is_markdown(path@),
{
    if !has_note_extension(path) {
        return false;
    }
    match file_name(path) {
        Some(name) => {
            let n: usize = name.as_str().unicode_len();
            n > 0 && name.as_str().get_char(0) != '.'
        },
        None => false,
    }
}

impl FileIndexHandler {
    /// A handler.
    pub fn new() -> (r: Self)
        ensures
            r == (FileIndexHandler {  }),
    {
        FileIndexHandler {  }
    }

    /// The first request for a file that was created: whether it is indexed
    /// already. A path that is no note file asks nothing.
    pub fn handle_create(&self, path: &str) -> (r: Dispatch)
        ensures
            r@ == start(ChangeKind::Create, path@),
    {
        if !is_markdown_file(path) {
            return Dispatch::Done { outcome: Outcome::Ignored };
        }
        Dispatch::CheckIndexed { path: path.to_string() }
    }

    /// The first request for a file that was modified: open it, and take its
    /// entry out if that fails. A path that is no note file asks nothing.
    pub fn handle_modify(&self, path: &str) -> (r: Dispatch)
        ensures
            r@ == start(ChangeKind::Modify, path@),
    {
        if !is_markdown_file(path) {
            return Dispatch::Done { outcome: Outcome::Ignored };
        }
        Dispatch::OpenNote { path: path.to_string(), heal: true }
    }

    /// The first request for a file that was removed: take its entry out. A
    /// path that is no note file asks nothing.
    pub fn handle_remove(&self, path: &str) -> (r: Dispatch)
        ensures
            r@ == start(ChangeKind::Remove, path@),
    {
        if !is_markdown_file(path) {
            return Dispatch::Done { outcome: Outcome::Ignored };
        }
        Dispatch::RemoveNote { path: path.to_string() }
    }

    /// The first request for a settled change, by its kind.
    pub fn dispatch(&self, change: &Change) -> (r: Dispatch)
        ensures
            r@ == start(change.kind, change.path@),
    {
        match change.kind {
            ChangeKind::Create => self.handle_create(change.path.as_str()),
            ChangeKind::Modify => self.handle_modify(change.path.as_str()),
            ChangeKind::Remove => self.handle_remove(change.path.as_str()),
        }
    }
}

impl Dispatch {
    /// What follows this request once `reply` came back: the next request, or
    /// the end.
    pub fn resume(self, reply: Reply) -> (r: Dispatch)
        ensures
            r@ == next(self@, reply@),
    {
        match (self, reply) {
            (Dispatch::CheckIndexed { path }, Reply::Known(known)) => {
                if known {
                    Dispatch::Done { outcome: Outcome::AlreadyIndexed }
                } else {
                    Dispatch::OpenNote { path, heal: false }
                }
            },
            (Dispatch::OpenNote { path, heal }, Reply::Opened(note)) => Dispatch::IndexNote { note },
            (Dispatch::OpenNote { path, heal }, Reply::Unreadable(_)) => {
                if heal {
                    Dispatch::RemoveNote { path }
                } else {
                    Dispatch::Done { outcome: Outcome::Vanished }
                }
            },
            (Dispatch::IndexNote { note }, Reply::Stored) => Dispatch::Done {
                outcome: Outcome::Indexed,
            },
            (Dispatch::RemoveNote { path }, Reply::Removed(existed)) => Dispatch::Done {
                outcome: Outcome::Removed { existed },
            },
            (Dispatch::CheckIndexed { path }, Reply::Failed(error)) => Dispatch::Done {
                outcome: Outcome::Failed { error },
            },
            (Dispatch::IndexNote { note }, Reply::Failed(error)) => Dispatch::Done {
                outcome: Outcome::Failed { error },
            },
            (Dispatch::RemoveNote { path }, Reply::Failed(error)) => Dispatch::Done {
                outcome: Outcome::Failed { error },
            },
            (unanswered, _) => unanswered,
        }
    }

    /// Whether the exchange is over.
    pub fn is_done(&self) -> (r: bool)
        ensures
            r == (self@ is Done),
    {
        match self {
            Dispatch::Done { .. } => true,
            _ => false,
        }
    }
}

// Laws.

/// Every exchange ends within three requests, and never touches a file.
pub proof fn law_exchange_ends(kind: ChangeKind, path: Seq<char>, w: World)
    ensures
        settled(kind, path, w).0 is Done,
        settled(kind, path, w).1.files == w.files,
{
    reveal_with_fuel(run, 4);
}

/// A change to a path that is no note file is ignored: nothing is asked and
/// nothing changes.
pub proof fn law_other_files_are_ignored(kind: ChangeKind, path: Seq<char>, w: World)
    requires
        !is_markdown(path),
    ensures
        settled(kind, path, w) == (DispatchView::Done { outcome: Outcome::Ignored }, w),
{
    reveal_with_fuel(run, 4);
}

/// A creation reported for a path that is indexed already changes nothing:
/// the entry that was there is the one entry still there.
pub proof fn law_duplicate_create_changes_nothing(path: Seq<char>, w: World)
    requires
        is_indexed(w.index, path),
    ensures
        settled(ChangeKind::Create, path, w).1 == w,
        is_markdown(path) ==> settled(ChangeKind::Create, path, w).0 == (DispatchView::Done {
            outcome: Outcome::AlreadyIndexed,
        }),
{
    reveal_with_fuel(run, 4);
}

/// A creation reported for a note file that is not indexed puts the note in
/// the file into the index, under the file's path; if the file cannot be
/// opened any more, nothing changes.
pub proof fn law_create_indexes_the_file(path: Seq<char>, w: World)
    requires
        is_markdown(path),
        !is_indexed(w.index, path),
    ensures
        w.files.dom().contains(path) ==> settled(ChangeKind::Create, path, w) == (
            DispatchView::Done { outcome: Outcome::Indexed },
            World { files: w.files, index: with_note(w.index, opened(path, w.files[path])) },
        ),
        !w.files.dom().contains(path) ==> settled(ChangeKind::Create, path, w) == (
            DispatchView::Done { outcome: Outcome::Vanished },
            w,
        ),
{
    reveal_with_fuel(run, 4);
}

/// Reporting a creation twice comes to the same as reporting it once.
pub proof fn law_create_is_idempotent(path: Seq<char>, w: World)
    ensures
        settled(ChangeKind::Create, path, settled(ChangeKind::Create, path, w).1).1 == settled(
            ChangeKind::Create,
            path,
            w,
        ).1,
{
    reveal_with_fuel(run, 4);
    let once = settled(ChangeKind::Create, path, w).1;
    if !is_markdown(path) {
        law_other_files_are_ignored(ChangeKind::Create, path, w);
        law_other_files_are_ignored(ChangeKind::Create, path, once);
    } else if is_indexed(w.index, path) {
        law_duplicate_create_changes_nothing(path, w);
    } else {
        law_create_indexes_the_file(path, w);
        if w.files.dom().contains(path) {
            law_duplicate_create_changes_nothing(path, once);
        }
    }
}

/// A modification reported for a note file brings the index in step with
/// the file: the entry at the path is the note in the file, or there is none
/// if the file cannot be opened.
pub proof fn law_modify_follows_the_file(path: Seq<char>, w: World)
    requires
        is_markdown(path),
    ensures
        w.files.dom().contains(path) ==> settled(ChangeKind::Modify, path, w) == (
            DispatchView::Done { outcome: Outcome::Indexed },
            World { files: w.files, index: with_note(w.index, opened(path, w.files[path])) },
        ),
        !w.files.dom().contains(path) ==> settled(ChangeKind::Modify, path, w) == (
            DispatchView::Done { outcome: Outcome::Removed { existed: is_indexed(w.index, path) } },
            World { files: w.files, index: without_note(w.index, path) },
        ),
{
    reveal_with_fuel(run, 4);
}

/// A removal reported for a note file takes the path's entry out, whether or
/// not there was one.
pub proof fn law_remove_forgets_the_file(path: Seq<char>, w: World)
    requires
        is_markdown(path),
    ensures
        settled(ChangeKind::Remove, path, w) == (
            DispatchView::Done { outcome: Outcome::Removed { existed: is_indexed(w.index, path) } },
            World { files: w.files, index: without_note(w.index, path) },
        ),
{
    reveal_with_fuel(run, 4);
}

/// A note file that is written and reported comes to stand in the index with
/// the text that was written; once it is deleted and that is reported, the
/// index has no entry for it.
pub proof fn law_index_follows_a_note(path: Seq<char>, content: Seq<char>, w: World)
    requires
        is_markdown(path),
        !is_indexed(w.index, path),
    ensures
        ({
            let written = World { files: w.files.insert(path, content), index: w.index };
            let indexed = settled(ChangeKind::Create, path, written).1;
            let deleted = World { files: indexed.files.remove(path), index: indexed.index };
            let forgotten = settled(ChangeKind::Remove, path, deleted).1;
            &&& entry_at(indexed.index, path) == Some(opened(path, content))
            &&& opened(path, content).content == content
            &&& entry_at(forgotten.index, path) is None
        }),
{
    let written = World { files: w.files.insert(path, content), index: w.index };
    law_create_indexes_the_file(path, written);
    let indexed = settled(ChangeKind::Create, path, written).1;
    let deleted = World { files: indexed.files.remove(path), index: indexed.index };
    law_remove_forgets_the_file(path, deleted);
}

} // verus!
