//! The index as the library sees it: one entry per path, a copy of the note
//! in the file there. The index itself is kept elsewhere; here is what an
//! entry holds, what each request does to the entries, and which files of a
//! directory are to be indexed when watching starts.

use vstd::prelude::*;
use crate::domain::{LocalNote, NoteView};
use crate::error::OraError;
use crate::paths::{paths_of, Found, Listed};
use crate::text::texts;
use crate::watcher::handler::{is_markdown, is_markdown_file};

verus! {

/// A note as the index holds it.
#[derive(Debug, Clone)]
pub struct IndexedNote {
    /// The title of the note.
    pub title: String,
    /// The text of the note.
    pub content: String,
    /// The path of the note's file, by which the entry is found.
    pub path: String,
}

impl View for IndexedNote {
    type V = NoteView;

    open spec fn view(&self) -> NoteView {
        NoteView { title: self.title@, content: self.content@, path: self.path@ }
    }
}

/// What a directory asks for when it is first indexed.
#[derive(Debug)]
pub struct Backfill {
    /// The directories to go through next.
    pub descend: Vec<String>,
    /// The files to bring into the index as if each had just been created.
    pub sync: Vec<String>,
}

/// The walk through the directories of a shelf for its first indexing:
/// depth first, each directory's own directories in the order they are
/// listed in.
pub struct Scan {
    waiting: Vec<String>,
}

// The entries of an index.

/// The index after `note` was put in: the entry at the note's path is the
/// note, whatever stood there before.
pub open spec fn with_note(index: Map<Seq<char>, NoteView>, note: NoteView) -> Map<
    Seq<char>,
    NoteView,
> {
    index.insert(note.path, note)
}

/// The index after the entry at `path` was taken out.
pub open spec fn without_note(index: Map<Seq<char>, NoteView>, path: Seq<char>) -> Map<
    Seq<char>,
    NoteView,
> {
    index.remove(path)
}

/// Whether the index has an entry at `path`.
pub open spec fn is_indexed(index: Map<Seq<char>, NoteView>, path: Seq<char>) -> bool {
    index.dom().contains(path)
}

/// The entry at `path`, if the index has one.
pub open spec fn entry_at(index: Map<Seq<char>, NoteView>, path: Seq<char>) -> Option<NoteView> {
    if index.dom().contains(path) {
        Some(index[path])
    } else {
        None
    }
}

/// Every entry stands at the path of its own note.
pub open spec fn keyed_by_path(index: Map<Seq<char>, NoteView>) -> bool {
    forall|p: Seq<char>| index.dom().contains(p) ==> (#[trigger] index[p]).path == p
}

// The first indexing of a shelf.

/// Whether an entry is a directory.
pub open spec fn is_directory() -> spec_fn(Listed) -> bool {
    |e: Listed| e.found == Found::Directory
}

/// Whether an entry is a note file: no directory, ending in `.md`, not hidden.
pub open spec fn is_note_file() -> spec_fn(Listed) -> bool {
    |e: Listed| e.found != Found::Directory && is_markdown(e.path@)
}

/// The paths of the directories among `entries`, in order.
pub open spec fn directories_of(entries: Seq<Listed>) -> Seq<Seq<char>> {
    paths_of(entries.filter(is_directory()))
}

/// The paths of the note files among `entries`, in order: what is no
/// directory, ends in `.md` and is not hidden.
pub open spec fn note_files_of(entries: Seq<Listed>) -> Seq<Seq<char>> {
    paths_of(entries.filter(is_note_file()))
}

// The operations.

impl IndexedNote {
    /// The entry that stands for `note`.
    pub fn of(note: &LocalNote) -> (r: IndexedNote)
        ensures
            r@ == note@,
    {
        IndexedNote {
            title: note.title.clone(),
            content: note.content.clone(),
            path: note.path.clone(),
        }
    }
}

/// What a query for an entry's row that failed comes to: no entry where the
/// query found no row, the failure `Other` with the database's message for
/// any other error.
pub open spec fn without_row(no_rows: bool, message: String) -> Result<
    Option<IndexedNote>,
    OraError,
> {
    if no_rows {
        Ok(None)
    } else {
        Err(OraError::Other(message))
    }
}

/// What a query for an entry's row that failed comes to, given whether the
/// error says that no row was found, and the error's message.
pub fn missing_row(no_rows: bool, message: String) -> (r: Result<Option<IndexedNote>, OraError>)
    ensures
        r == without_row(no_rows, message),
{
    if no_rows {
        Ok(None)
    } else {
        Err(OraError::Other(message))
    }
}

/// What looking an entry up by its path comes to, given what the query for
/// its row gave: the entry, or what `missing_row` makes of the error.
pub fn get_by_path(row: Result<IndexedNote, rusqlite::Error>) -> (r: Result<
    Option<IndexedNote>,
    OraError,
>)
    ensures
        match row {
            Ok(entry) => r == Ok::<Option<IndexedNote>, OraError>(Some(entry)),
            Err(_) => exists|no_rows: bool, message: String| r == without_row(no_rows, message),
        },
{
    match row {
        Ok(entry) => Ok(Some(entry)),
        Err(error) => missing_row(is_no_rows(&error), message_of(&error)),
    }
}

/// Sorts what a directory holds for the first indexing of a shelf: the
/// directories to go through next, and the note files to bring into the index
/// as if each had just been created. Everything else is passed over.
pub fn index_existing_files(entries: &Vec<Listed>) -> (r: Backfill)
    ensures
        texts(r.descend@) == directories_of(entries@),
        texts(r.sync@) == note_files_of(entries@),
{
    let mut descend: Vec<String> = Vec::new();
    let mut sync: Vec<String> = Vec::new();
    let mut i: usize = 0;
    proof {
        reveal(Seq::filter);
        assert(entries@.take(0) =~= Seq::<Listed>::empty());
        assert(texts(descend@) =~= directories_of(entries@.take(0)));
        assert(texts(sync@) =~= note_files_of(entries@.take(0)));
    }
    while i < entries.len()
        invariant
            i <= entries@.len(),
            texts(descend@) == directories_of(entries@.take(i as int)),
            texts(sync@) == note_files_of(entries@.take(i as int)),
        decreases entries@.len() - i,
    {
        let ghost seen = entries@.take(i as int);
        let ghost grown = entries@.take(i + 1);
        let ghost dirs = descend@;
        let ghost files = sync@;
        let entry = &entries[i];
        proof {
            assert(grown =~= seen.push(*entry));
            seen.lemma_filter_push(*entry, is_directory());
            seen.lemma_filter_push(*entry, is_note_file());
        }
        if entry.found == Found::Directory {
            descend.push(entry.path.clone());
            proof {
                assert(texts(descend@) =~= texts(dirs).push(entry.path@));
                assert(paths_of(seen.filter(is_directory()).push(*entry)) =~= paths_of(
                    seen.filter(is_directory()),
                ).push(entry.path@));
            }
        } else if is_markdown_file(entry.path.as_str()) {
            sync.push(entry.path.clone());
            proof {
                assert(texts(sync@) =~= texts(files).push(entry.path@));
                assert(paths_of(seen.filter(is_note_file()).push(*entry)) =~= paths_of(
                    seen.filter(is_note_file()),
                ).push(entry.path@));
            }
        }
        i += 1;
    }
    assert(entries@.take(entries@.len() as int) =~= entries@);
    Backfill { descend, sync }
}

impl Scan {
    /// The directories still to go through; the last one is the next.
    pub closed spec fn waiting(&self) -> Seq<Seq<char>> {
        texts(self.waiting@)
    }

    /// A walk that starts at `root`.
    pub fn start(root: &str) -> (r: Scan)
        ensures
            r.waiting() == seq![root@],
    {
        let mut waiting: Vec<String> = Vec::new();
        waiting.push(root.to_string());
        assert(texts(waiting@) =~= seq![root@]);
        Scan { waiting }
    }

    /// The directory to list next, `None` when the walk is over.
    pub fn next(&mut self) -> (r: Option<String>)
        ensures
            old(self).waiting().len() == 0 ==> r is None && final(self).waiting() == old(
                self,
            ).waiting(),
            old(self).waiting().len() > 0 ==> r is Some && r->Some_0@ == old(self).waiting().last()
                && final(self).waiting() == old(self).waiting().drop_last(),
    {
        let ghost before = self.waiting@;
        let next = self.waiting.pop();
        proof {
            if before.len() > 0 {
                assert(texts(self.waiting@) =~= texts(before).drop_last());
            }
        }
        next
    }

    /// Takes in what the directory that `next` gave holds. The note files
    /// among it come back, in order, to be brought into the index as if each
    /// had just been created; its directories are gone through before any
    /// that was waiting, in the order they are listed in.
    pub fn listed(&mut self, entries: &Vec<Listed>) -> (r: Vec<String>)
        ensures
            texts(r@) == note_files_of(entries@),
            final(self).waiting() == old(self).waiting() + directories_of(entries@).reverse(),
    {
        let plan = index_existing_files(entries);
        let ghost before = self.waiting@;
        let ghost dirs = texts(plan.descend@);
        let count: usize = plan.descend.len();
        let mut i: usize = count;
        assert(texts(self.waiting@) =~= texts(before) + dirs.reverse().take(0));
        while i > 0
            invariant
                i <= count,
                count == plan.descend@.len(),
                dirs == texts(plan.descend@),
                texts(self.waiting@) == texts(before) + dirs.reverse().take(count - i),
            decreases i,
        {
            let ghost stacked = self.waiting@;
            i -= 1;
            self.waiting.push(plan.descend[i].clone());
            proof {
                assert(dirs.reverse()[count - i - 1] == dirs[i as int]);
                assert(dirs.reverse().take(count - i) =~= dirs.reverse().take(count - i - 1).push(
                    dirs[i as int],
                ));
                assert(texts(self.waiting@) =~= texts(stacked).push(dirs[i as int]));
            }
        }
        assert(dirs.reverse().take(count as int) =~= dirs.reverse());
        plan.sync
    }

    /// Whether the walk is over.
    pub fn is_over(&self) -> (r: bool)
        ensures
            r == (self.waiting().len() == 0),
    {
        self.waiting.len() == 0
    }
}

/// `rusqlite::Error`: whether the error is `QueryReturnedNoRows`, which a
/// query for one row gives where no row matches. Nothing is claimed of the
/// answer.
#[verifier::external_body]
fn is_no_rows(error: &rusqlite::Error) -> (r: bool) {
    match error {
        rusqlite::Error::QueryReturnedNoRows => true,
        _ => false,
    }
}

/// `rusqlite::Error`'s `Display`: the error's message. Nothing is claimed of
/// the text.
#[verifier::external_body]
fn message_of(error: &rusqlite::Error) -> (r: String) {
    error.to_string()
}

// Laws.

/// Of two notes put in at one path, the later one is the entry.
pub proof fn law_last_writer_wins(index: Map<Seq<char>, NoteView>, first: NoteView, second: NoteView)
    requires
        first.path == second.path,
    ensures
        with_note(with_note(index, first), second) == with_note(index, second),
        entry_at(with_note(with_note(index, first), second), second.path) == Some(second),
{
    assert(with_note(with_note(index, first), second) =~= with_note(index, second));
}

/// Putting a note in and taking an entry out both keep every entry at the
/// path of its own note, and neither touches another path's entry.
pub proof fn law_entries_stay_keyed(index: Map<Seq<char>, NoteView>, note: NoteView, path: Seq<char>)
    requires
        keyed_by_path(index),
    ensures
        keyed_by_path(with_note(index, note)),
        keyed_by_path(without_note(index, path)),
        !is_indexed(without_note(index, path), path),
        forall|other: Seq<char>|
            other != note.path ==> entry_at(with_note(index, note), other) == entry_at(index, other),
        forall|other: Seq<char>|
            other != path ==> entry_at(without_note(index, path), other) == entry_at(index, other),
{
}

} // verus!
