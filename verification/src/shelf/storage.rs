//! A shelf and the rules for naming and finding one.
//!
//! Shelves live side by side in the directory `shelves` of the user's
//! documents directory. The caller looks at the disk; what it found at a
//! shelf's place comes in as a `Found`.

use vstd::prelude::*;
use vstd::string::*;
use crate::paths::{file_name, file_name_of, join, joined, Found, Listed};
use crate::text::{chars_of, texts, trim, trimmed};

verus! {

/// Why a shelf operation did not go through.
#[derive(Debug)]
pub enum ShelfError {
    /// No shelf, or no place for shelves, was found under the name given.
    NotFound(String),
    /// A shelf of that name is there already.
    AlreadyExists(String),
    /// The name is empty or holds a character that no file name may hold, or
    /// what stands at the shelf's place is no directory.
    InvalidInput,
    /// The shelf may not be touched.
    PermissionDenied,
    /// Reading or changing the directory failed.
    Io(std::io::Error),
}

/// A directory of notes, with the name it goes by.
#[derive(Debug)]
pub struct Shelf {
    pub root: String,
    pub name: String,
}

/// A shelf as plain text values.
pub struct ShelfView {
    pub root: Seq<char>,
    pub name: Seq<char>,
}

impl View for Shelf {
    type V = ShelfView;

    open spec fn view(&self) -> ShelfView {
        ShelfView { root: self.root@, name: self.name@ }
    }
}

/// What preparing a shelf asks of the caller.
#[derive(Debug)]
pub struct Ensured {
    /// The shelf.
    pub shelf: Shelf,
    /// Whether its directory has yet to be made.
    pub create: bool,
}

// Names and places.

/// Whether `c` may not stand in a shelf name.
pub open spec fn is_forbidden(c: char) -> bool {
    c == '/' || c == '\\' || c == ':' || c == '"' || c == '*' || c == '?' || c == '<' || c == '>'
        || c == '|'
}

/// Whether `name`, once trimmed, can name a shelf: it is not empty and holds
/// no forbidden character.
pub open spec fn is_valid_name(name: Seq<char>) -> bool {
    &&& trimmed(name).len() > 0
    &&& forall|i: int| 0 <= i < trimmed(name).len() ==> !is_forbidden(#[trigger] trimmed(name)[i])
}

/// The name of the directory that holds the shelves.
pub open spec fn shelves_name() -> Seq<char> {
    seq!['s', 'h', 'e', 'l', 'v', 'e', 's']
}

/// What the missing documents directory is called in an error.
pub open spec fn documents_label() -> Seq<char> {
    seq![
        'd',
        'o',
        'c',
        'u',
        'm',
        'e',
        'n',
        't',
        's',
        ' ',
        'd',
        'i',
        'r',
        'e',
        'c',
        't',
        'o',
        'r',
        'y',
    ]
}

/// The place of the shelf `name` under the documents directory `docs`; with
/// no name, the place of all shelves.
pub open spec fn shelf_root(docs: Seq<char>, name: Option<Seq<char>>) -> Seq<char> {
    match name {
        Some(n) => joined(joined(docs, shelves_name()), n),
        None => joined(docs, shelves_name()),
    }
}

/// The names of the shelves among what the place of all shelves holds, in
/// order: the file name of each directory.
pub open spec fn shelf_names(entries: Seq<Listed>) -> Seq<Seq<char>>
    decreases entries.len(),
{
    if entries.len() == 0 {
        Seq::empty()
    } else if entries.last().found == Found::Directory && file_name_of(entries.last().path@)
        is Some {
        shelf_names(entries.drop_last()).push(file_name_of(entries.last().path@)->Some_0)
    } else {
        shelf_names(entries.drop_last())
    }
}

// Results and arguments as plain text values.

/// The text of a string that may be absent.
pub open spec fn name_text(o: Option<&str>) -> Option<Seq<char>> {
    match o {
        Some(s) => Some(s@),
        None => None,
    }
}

/// A shelf's result with the shelf as plain text values.
pub open spec fn shelf_view(r: Result<Shelf, ShelfError>) -> Result<ShelfView, ShelfError> {
    match r {
        Ok(shelf) => Ok(shelf@),
        Err(e) => Err(e),
    }
}

/// Whether a shelf error is `NotFound` with the given text.
pub open spec fn is_not_found(e: ShelfError, what: Seq<char>) -> bool {
    match e {
        ShelfError::NotFound(s) => s@ == what,
        _ => false,
    }
}

/// Whether a shelf error is `AlreadyExists` with the given text.
pub open spec fn is_already_exists(e: ShelfError, what: Seq<char>) -> bool {
    match e {
        ShelfError::AlreadyExists(s) => s@ == what,
        _ => false,
    }
}

// The operations.

impl Shelf {
    /// The shelf called `name` at `root`, to be made by the caller, who found
    /// `found` there.
    ///
    /// Fails with `InvalidInput` where the name is not valid, and with
    /// `AlreadyExists` where anything stands at `root`. The shelf carries
    /// the trimmed name.
    pub fn new(name: &str, root: String, found: Found) -> (r: Result<Shelf, ShelfError>)
        ensures
            !is_valid_name(name@) ==> r == Err::<Shelf, ShelfError>(ShelfError::InvalidInput),
            is_valid_name(name@) && found != Found::Nothing ==> r is Err && is_already_exists(
                r->Err_0,
                trimmed(name@),
            ),
            is_valid_name(name@) && found == Found::Nothing ==> shelf_view(r) == Ok::<
                ShelfView,
                ShelfError,
            >(ShelfView { root: root@, name: trimmed(name@) }),
    {
        let shelf_name = match Shelf::valid_shelf(name) {
            Ok(valid) => valid,
            Err(e) => {
                return Err(e);
            },
        };
        match found {
            Found::Nothing => Ok(Shelf { root, name: shelf_name }),
            _ => Err(ShelfError::AlreadyExists(shelf_name)),
        }
    }

    /// The shelf called `name` at `root`, where the caller found `found`.
    ///
    /// Fails with `NotFound` where nothing stands at `root`, and with
    /// `InvalidInput` where what stands there is no directory.
    pub fn open(name: &str, root: String, found: Found) -> (r: Result<Shelf, ShelfError>)
        ensures
            found == Found::Nothing ==> r is Err && is_not_found(r->Err_0, name@),
            found == Found::File || found == Found::Other ==> r == Err::<Shelf, ShelfError>(
                ShelfError::InvalidInput,
            ),
            found == Found::Directory ==> shelf_view(r) == Ok::<ShelfView, ShelfError>(
                ShelfView { root: root@, name: name@ },
            ),
    {
        match found {
            Found::Nothing => Err(ShelfError::NotFound(name.to_string())),
            Found::Directory => Ok(Shelf { root, name: name.to_string() }),
            _ => Err(ShelfError::InvalidInput),
        }
    }

    /// The shelf called `name` at `root`, whether or not it is there yet:
    /// where the caller found nothing, the shelf comes with the request to
    /// make its directory.
    ///
    /// Fails with `InvalidInput` where what stands at `root` is no directory.
    pub fn ensure_exists(name: &str, root: String, found: Found) -> (r: Result<
        Ensured,
        ShelfError,
    >)
        ensures
            found == Found::File || found == Found::Other ==> r == Err::<Ensured, ShelfError>(
                ShelfError::InvalidInput,
            ),
            found == Found::Nothing || found == Found::Directory ==> r is Ok && r->Ok_0.shelf@ == (ShelfView {
                root: root@,
                name: name@,
            }) && r->Ok_0.create == (found == Found::Nothing),
    {
        match found {
            Found::Nothing => Ok(
                Ensured { shelf: Shelf { root, name: name.to_string() }, create: true },
            ),
            Found::Directory => Ok(
                Ensured { shelf: Shelf { root, name: name.to_string() }, create: false },
            ),
            _ => Err(ShelfError::InvalidInput),
        }
    }

    /// This shelf under the name `new_name` at `new_root`, where the caller
    /// found `found`; the caller moves the directory there.
    ///
    /// Fails with `InvalidInput` where the new name is not valid, and with
    /// `AlreadyExists` where anything stands at `new_root`.
    pub fn rename(&self, new_name: &str, new_root: String, found: Found) -> (r: Result<
        Shelf,
        ShelfError,
    >)
        ensures
            !is_valid_name(new_name@) ==> r == Err::<Shelf, ShelfError>(ShelfError::InvalidInput),
            is_valid_name(new_name@) && found != Found::Nothing ==> r is Err && is_already_exists(
                r->Err_0,
                trimmed(new_name@),
            ),
            is_valid_name(new_name@) && found == Found::Nothing ==> shelf_view(r) == Ok::<
                ShelfView,
                ShelfError,
            >(ShelfView { root: new_root@, name: trimmed(new_name@) }),
    {
        Shelf::new(new_name, new_root, found)
    }

    /// The names of the shelves among what the place of all shelves holds, in
    /// order: the file name of each directory.
    pub fn list_shelves(entries: &Vec<Listed>) -> (r: Vec<String>)
        ensures
            texts(r@) == shelf_names(entries@),
    {
        let mut names: Vec<String> = Vec::new();
        let mut i: usize = 0;
        assert(entries@.take(0) =~= Seq::<Listed>::empty());
        assert(texts(names@) =~= shelf_names(entries@.take(0)));
        while i < entries.len()
            invariant
                i <= entries@.len(),
                texts(names@) == shelf_names(entries@.take(i as int)),
            decreases entries@.len() - i,
        {
            let ghost listed = names@;
            let entry = &entries[i];
            proof {
                assert(entries@.take(i + 1).drop_last() =~= entries@.take(i as int));
                assert(entries@.take(i + 1).last() == *entry);
            }
            if entry.found == Found::Directory {
                match file_name(entry.path.as_str()) {
                    Some(name) => {
                        let ghost text = name@;
                        names.push(name);
                        assert(texts(names@) =~= texts(listed).push(text));
                    },
                    None => {},
                }
            }
            i += 1;
        }
        assert(entries@.take(entries@.len() as int) =~= entries@);
        names
    }

    /// The place of the shelf `name` under the documents directory `docs`;
    /// with no name, the place of all shelves. Fails with `NotFound` where
    /// there is no documents directory.
    pub fn shelf_path_under(docs: Option<&str>, name: Option<&str>) -> (r: Result<
        String,
        ShelfError,
    >)
        ensures
            match docs {
                Some(d) => r is Ok && r->Ok_0@ == shelf_root(d@, name_text(name)),
                None => r is Err && is_not_found(r->Err_0, documents_label()),
            },
    {
        proof {
            reveal_strlit("shelves");
            reveal_strlit("documents directory");
        }
        match docs {
            Some(d) => {
                assert("shelves"@ =~= shelves_name());
                let shelves = join(d, "shelves");
                match name {
                    Some(n) => Ok(join(shelves.as_str(), n)),
                    None => Ok(shelves),
                }
            },
            None => {
                let what = String::from_str("documents directory");
                assert(what@ =~= documents_label());
                Err(ShelfError::NotFound(what))
            },
        }
    }

    /// The place of the shelf `name` under the user's documents directory;
    /// with no name, the place of all shelves. Fails with `NotFound` where
    /// the system names no documents directory.
    pub fn shelf_path(name: Option<&str>) -> (r: Result<String, ShelfError>)
        ensures
            match r {
                Ok(path) => exists|docs: Seq<char>| path@ == shelf_root(docs, name_text(name)),
                Err(e) => is_not_found(e, documents_label()),
            },
    {
        let docs = document_dir();
        match &docs {
            Some(d) => Shelf::shelf_path_under(Some(d.as_str()), name),
            None => Shelf::shelf_path_under(None, name),
        }
    }

    /// The name of a shelf as it is kept: `shelf` without the white space
    /// around it. Fails with `InvalidInput` where that is empty or holds one
    /// of `/ \ : " * ? < > |`.
    pub fn valid_shelf(shelf: &str) -> (r: Result<String, ShelfError>)
        ensures
            is_valid_name(shelf@) ==> r is Ok && r->Ok_0@ == trimmed(shelf@),
            !is_valid_name(shelf@) ==> r == Err::<String, ShelfError>(ShelfError::InvalidInput),
    {
        let name = trim(shelf);
        let chars = chars_of(name);
        if chars.len() == 0 {
            return Err(ShelfError::InvalidInput);
        }
        let mut i: usize = 0;
        while i < chars.len()
            invariant
                i <= chars@.len(),
                chars@ == trimmed(shelf@),
                forall|j: int| 0 <= j < i ==> !is_forbidden(#[trigger] chars@[j]),
            decreases chars@.len() - i,
        {
            if forbidden(chars[i]) {
                return Err(ShelfError::InvalidInput);
            }
            i += 1;
        }
        Ok(name.to_string())
    }
}

/// Whether `c` may not stand in a shelf name.
fn forbidden(c: char) -> (r: bool)
    ensures
        r == is_forbidden(c),
{
    c == '/' || c == '\\' || c == ':' || c == '"' || c == '*' || c == '?' || c == '<' || c == '>'
        || c == '|'
}

/// `dirs::document_dir`: the user's documents directory as text, `None`
/// where the system names none. A path that is not valid Unicode comes with
/// replacement characters. What the call returns depends on the user's
/// environment, so nothing is claimed of it.
#[verifier::external_body]
fn document_dir() -> (r: Option<String>) {
    match dirs::document_dir() {
        Some(path) => Some(path.to_string_lossy().into_owned()),
        None => None,
    }
}

} // verus!
