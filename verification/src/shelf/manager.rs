//! Notes by title within one shelf.
//!
//! A note's file is named after its title. The manager works out which file
//! a title stands for and what an update comes to; the caller reads and
//! writes the files.

use vstd::prelude::*;
use crate::domain::{
    created, file_name_for, has_note_extension, is_note_path, note_file_name, opened, save_as_plan,
    save_plan, LocalNote, NoteError, NoteView, SavePlan, SavePlanView,
};
use crate::error::{from_note_error, OraError};
use crate::paths::{join, joined, paths_of, Found, Listed};
use crate::shelf::storage::Shelf;
use crate::text::texts;

verus! {

/// The notes of one shelf, by title.
pub struct ShelfManager<'a> {
    shelf: &'a Shelf,
}

// What each operation comes to.

/// The path of the file that holds the note called `title` in the shelf at
/// `root`: `title.md` in that directory.
pub open spec fn note_path_in(root: Seq<char>, title: Seq<char>) -> Seq<char> {
    joined(root, note_file_name(title, 0))
}

/// Whether an entry of a directory is a note: a regular file whose name has
/// the extension of a note file.
pub open spec fn is_note() -> spec_fn(Listed) -> bool {
    |e: Listed| e.found == Found::File && is_note_path(e.path@)
}

/// What updating the note read as `content` from `path` comes to: the text is
/// replaced where a new one is given, and the note is saved, under the new
/// title where one is given. The file is known to hold `content`.
pub open spec fn update_plan(
    path: Seq<char>,
    content: Seq<char>,
    new_title: Option<Seq<char>>,
    new_content: Option<Seq<char>>,
    taken: Seq<Seq<char>>,
) -> Result<SavePlanView, NoteError> {
    let found = opened(path, content);
    let edited = match new_content {
        Some(text) => NoteView { content: text, ..found },
        None => found,
    };
    match new_title {
        Some(title) => save_as_plan(edited, title, Some(content), taken),
        None => save_plan(edited, Some(content)),
    }
}

// Results and arguments as plain text values.

/// The text of a string that may be absent.
pub open spec fn given(o: Option<&str>) -> Option<Seq<char>> {
    match o {
        Some(s) => Some(s@),
        None => None,
    }
}

/// A note error's place among the library's errors, within a result.
pub open spec fn lifted<T>(r: Result<T, NoteError>) -> Result<T, OraError> {
    match r {
        Ok(value) => Ok(value),
        Err(e) => Err(from_note_error(e)),
    }
}

/// A note's result among the library's errors, as plain text values.
pub open spec fn lifted_note(r: Result<LocalNote, OraError>) -> Result<NoteView, OraError> {
    match r {
        Ok(note) => Ok(note@),
        Err(e) => Err(e),
    }
}

/// A plan's result among the library's errors, as plain text values.
pub open spec fn lifted_plan(r: Result<SavePlan, OraError>) -> Result<SavePlanView, OraError> {
    match r {
        Ok(plan) => Ok(plan@),
        Err(e) => Err(e),
    }
}

// The operations.

impl<'a> ShelfManager<'a> {
    /// A manager for the notes of `shelf`.
    pub fn new(shelf: &'a Shelf) -> (r: Self)
        ensures
            r.shelf() == shelf,
    {
        ShelfManager { shelf }
    }

    /// The shelf whose notes this manager handles.
    pub closed spec fn shelf(&self) -> &Shelf {
        self.shelf
    }

    /// The name of the shelf.
    pub fn shelf_name(&self) -> (r: &str)
        ensures
            r@ == self.shelf()@.name,
    {
        self.shelf.name.as_str()
    }

    /// The path of the file that holds the note called `title`.
    pub fn note_path(&self, title: &str) -> (r: String)
        ensures
            r@ == note_path_in(self.shelf()@.root, title@),
    {
        let name = file_name_for(title, 0);
        join(self.shelf.root.as_str(), name.as_str())
    }

    /// The note called `title`, given what reading the file at its path gave.
    /// A failed read comes back as the note error `Io`.
    pub fn get_note(&self, title: &str, read: Result<String, std::io::Error>) -> (r: Result<
        LocalNote,
        OraError,
    >)
        ensures
            match read {
                Ok(content) => lifted_note(r) == Ok::<NoteView, OraError>(
                    opened(note_path_in(self.shelf()@.root, title@), content@),
                ),
                Err(e) => r == Err::<LocalNote, OraError>(OraError::Note(NoteError::Io(e))),
            },
    {
        let path = self.note_path(title);
        match LocalNote::open(path.as_str(), read) {
            Ok(note) => Ok(note),
            Err(e) => Err(OraError::from(e)),
        }
    }

    /// The paths of the notes among what the shelf's directory holds, in
    /// order; the caller opens each.
    pub fn list_notes(&self, entries: &Vec<Listed>) -> (r: Vec<String>)
        ensures
            texts(r@) == paths_of(entries@.filter(is_note())),
    {
        let mut notes: Vec<String> = Vec::new();
        let mut i: usize = 0;
        proof {
            reveal(Seq::filter);
            assert(entries@.take(0) =~= Seq::<Listed>::empty());
            assert(texts(notes@) =~= paths_of(entries@.take(0).filter(is_note())));
        }
        while i < entries.len()
            invariant
                i <= entries@.len(),
                texts(notes@) == paths_of(entries@.take(i as int).filter(is_note())),
            decreases entries@.len() - i,
        {
            let ghost seen = entries@.take(i as int);
            let ghost listed = notes@;
            let entry = &entries[i];
            proof {
                assert(entries@.take(i + 1) =~= seen.push(*entry));
                seen.lemma_filter_push(*entry, is_note());
            }
            if entry.found == Found::File && has_note_extension(entry.path.as_str()) {
                notes.push(entry.path.clone());
                proof {
                    assert(texts(notes@) =~= texts(listed).push(entry.path@));
                    assert(paths_of(seen.filter(is_note()).push(*entry)) =~= paths_of(
                        seen.filter(is_note()),
                    ).push(entry.path@));
                }
            }
            i += 1;
        }
        assert(entries@.take(entries@.len() as int) =~= entries@);
        notes
    }

    /// A new note in the shelf, at a path that is not among `taken`; the
    /// caller writes its text there.
    pub fn create_note(&self, title: &str, content: &str, taken: &Vec<String>) -> (r: LocalNote)
        ensures
            r@ == created(title@, content@, self.shelf()@.root, texts(taken@)),
            !texts(taken@).contains(r@.path),
    {
        LocalNote::create(title, content, self.shelf.root.as_str(), taken)
    }

    /// The note to delete for `title`: its path is the file that the caller
    /// removes, its title and text are empty.
    pub fn delete_note(&self, title: &str) -> (r: LocalNote)
        ensures
            r@ == (NoteView {
                title: Seq::empty(),
                content: Seq::empty(),
                path: note_path_in(self.shelf()@.root, title@),
            }),
    {
        LocalNote { title: String::new(), content: String::new(), path: self.note_path(title) }
    }

    /// What updating the note called `title` comes to, given what reading its
    /// file gave and the paths in use. A new text replaces the old one; a
    /// new title moves the note as `save_as` does. The plan's note is the
    /// note as it stands once the plan is carried out.
    ///
    /// Fails with the note error `Io` where the read failed, with `NoChanges`
    /// where the file is to keep its name and already holds the text, and
    /// with the note error `InvalidPath` where the path has no directory.
    pub fn update_note(
        &self,
        title: &str,
        new_title: Option<&str>,
        new_content: Option<&str>,
        read: Result<String, std::io::Error>,
        taken: &Vec<String>,
    ) -> (r: Result<SavePlan, OraError>)
        ensures
            match read {
                Ok(content) => lifted_plan(r) == lifted(
                    update_plan(
                        note_path_in(self.shelf()@.root, title@),
                        content@,
                        given(new_title),
                        given(new_content),
                        texts(taken@),
                    ),
                ),
                Err(e) => r == Err::<SavePlan, OraError>(OraError::Note(NoteError::Io(e))),
            },
    {
        let found = match self.get_note(title, read) {
            Ok(note) => note,
            Err(e) => {
                return Err(e);
            },
        };
        let edited = match new_content {
            Some(text) => found.with_content(text),
            None => found.with_content(found.content.as_str()),
        };
        let saved = match new_title {
            Some(t) => edited.save_as(t, Some(&found.content), taken),
            None => edited.save(Some(&found.content)),
        };
        match saved {
            Ok(plan) => Ok(plan),
            Err(e) => Err(OraError::from(e)),
        }
    }
}

} // verus!
