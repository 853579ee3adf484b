//! A note and what becomes of its file: how a title turns into a file name,
//! which name is free, and what a save, a rename or an open amounts to.
//!
//! The functions here decide; the caller reads and writes. Each takes what
//! was found on disk as an argument and returns what is to be written.

use vstd::prelude::*;
use vstd::string::*;
use crate::paths::{
    components, dot, dot_dot, extension, file_stem, file_stem_of, is_plain_name, join, joined,
    last_segment, lemma_file_name_of_joined, lemma_last_component, lemma_last_dot,
    lemma_parent_of_joined, lemma_segment_start_append, lemma_segment_start_bounds, parent, parent_of, path_extension_of, same_path, same_place,
    segment_start, stem_of,
};
use crate::text::{
    decimal, is_white_space, lemma_decimal_digits, lemma_decimal_injective,
    lemma_tight_is_trimmed, lemma_trimmed_is_tight, push_decimal, texts, trim, trimmed,
};

verus! {

// Notes, and what is to be written for them.

/// Why a note operation did not go through.
#[derive(Debug)]
pub enum NoteError {
    /// The path has no directory that a file could be written in.
    InvalidPath,
    /// The file already holds what was to be saved.
    NoChanges,
    /// Reading, writing, renaming or removing the file failed.
    Io(std::io::Error),
}

/// A note: a title, a text, and the path of the file that holds the text.
#[derive(Clone, Debug)]
pub struct LocalNote {
    pub title: String,
    pub content: String,
    pub path: String,
}

/// A note as plain text values.
pub struct NoteView {
    pub title: Seq<char>,
    pub content: Seq<char>,
    pub path: Seq<char>,
}

impl View for LocalNote {
    type V = NoteView;

    open spec fn view(&self) -> NoteView {
        NoteView { title: self.title@, content: self.content@, path: self.path@ }
    }
}

/// A file to be replaced in one step: `content` is written to a temporary
/// file in `dir`, which is renamed onto `target`.
#[derive(Clone, Debug)]
pub struct AtomicWrite {
    pub dir: String,
    pub target: String,
    pub content: String,
}

/// An atomic write as plain text values.
pub struct WriteView {
    pub dir: Seq<char>,
    pub target: Seq<char>,
    pub content: Seq<char>,
}

impl View for AtomicWrite {
    type V = WriteView;

    open spec fn view(&self) -> WriteView {
        WriteView { dir: self.dir@, target: self.target@, content: self.content@ }
    }
}

/// What a save comes to.
#[derive(Clone, Debug)]
pub struct SavePlan {
    /// The write to make.
    pub write: AtomicWrite,
    /// The old file to remove once the write has gone through, if the note
    /// moved.
    pub remove: Option<String>,
    /// The note as it stands once the plan is carried out.
    pub note: LocalNote,
    /// Whether the target of the write was picked as a path that is not in
    /// use. If a file is found there all the same, the plan is not to be
    /// carried out: the caller asks again, with the target among the paths
    /// taken.
    pub fresh: bool,
}

/// A save plan as plain text values.
pub struct SavePlanView {
    pub write: WriteView,
    pub remove: Option<Seq<char>>,
    pub note: NoteView,
    pub fresh: bool,
}

impl View for SavePlan {
    type V = SavePlanView;

    open spec fn view(&self) -> SavePlanView {
        SavePlanView {
            write: self.write@,
            remove: match self.remove {
                Some(p) => Some(p@),
                None => None,
            },
            note: self.note@,
            fresh: self.fresh,
        }
    }
}

// Titles and file names.

/// The title of a note that was given none.
pub open spec fn untitled() -> Seq<char> {
    seq!['U', 'n', 't', 'i', 't', 'l', 'e', 'd']
}

/// What every note file name ends with.
pub open spec fn md_suffix() -> Seq<char> {
    seq!['.', 'm', 'd']
}

/// The extension of a note file, without the dot.
pub open spec fn md() -> Seq<char> {
    seq!['m', 'd']
}

/// The title that a note gets from the text `raw`: `raw` without the white
/// space around it, or `Untitled` where nothing is left.
pub open spec fn note_title(raw: Seq<char>) -> Seq<char> {
    if trimmed(raw).len() == 0 {
        untitled()
    } else {
        trimmed(raw)
    }
}

/// The file name tried at the given count: `title.md` first, `title 1.md`,
/// `title 2.md` and so on after it.
pub open spec fn note_file_name(title: Seq<char>, count: nat) -> Seq<char> {
    if count == 0 {
        title + md_suffix()
    } else {
        title + seq![' '] + decimal(count) + md_suffix()
    }
}

/// The path tried at the given count.
pub open spec fn candidate(title: Seq<char>, dir: Seq<char>, count: nat) -> Seq<char> {
    joined(dir, note_file_name(title, count))
}

/// `count` is the first whose candidate is not among `taken`.
pub open spec fn is_first_free(
    title: Seq<char>,
    dir: Seq<char>,
    taken: Seq<Seq<char>>,
    count: nat,
) -> bool {
    &&& !taken.contains(candidate(title, dir, count))
    &&& forall|k: nat| k < count ==> taken.contains(#[trigger] candidate(title, dir, k))
}

/// The first count whose candidate is not among `taken`.
pub open spec fn first_free(title: Seq<char>, dir: Seq<char>, taken: Seq<Seq<char>>) -> nat {
    choose|count: nat| is_first_free(title, dir, taken, count)
}

/// The title of the note in the file at `path`: the stem of the file name,
/// trimmed, or `Untitled` where that leaves nothing.
pub open spec fn title_of_path(path: Seq<char>) -> Seq<char> {
    match file_stem_of(path) {
        Some(stem) => note_title(stem),
        None => untitled(),
    }
}

/// Whether the file name of `path` has the extension of a note file.
pub open spec fn is_note_path(path: Seq<char>) -> bool {
    path_extension_of(path) == Some(md())
}

/// Whether a note is as every note of a shelf is: its title is not empty,
/// and its path ends in `.md`.
pub open spec fn is_well_formed(note: NoteView) -> bool {
    &&& note.title.len() > 0
    &&& note.path.len() >= 3
    &&& note.path.subrange(note.path.len() - 3, note.path.len() as int) == md_suffix()
}

// What each operation comes to.

/// The note that reading `content` from the file at `path` gives.
pub open spec fn opened(path: Seq<char>, content: Seq<char>) -> NoteView {
    NoteView { title: title_of_path(path), content, path }
}

/// The note that creating one with the given title and text in `dir` gives,
/// when the paths in `taken` are in use.
pub open spec fn created(
    title: Seq<char>,
    content: Seq<char>,
    dir: Seq<char>,
    taken: Seq<Seq<char>>,
) -> NoteView {
    NoteView {
        title: note_title(title),
        content,
        path: candidate(note_title(title), dir, first_free(note_title(title), dir, taken)),
    }
}

/// The note whose title is replaced by the title that `raw` gives, at the
/// first file name for that title in the note's directory.
pub open spec fn retitled(note: NoteView, raw: Seq<char>) -> Result<NoteView, NoteError> {
    match parent_of(note.path) {
        Some(dir) => Ok(
            NoteView {
                title: note_title(raw),
                content: note.content,
                path: candidate(note_title(raw), dir, 0),
            },
        ),
        None => Err(NoteError::InvalidPath),
    }
}

/// The atomic write that puts `content` at `path`, if `path` has a directory.
pub open spec fn write_plan(path: Seq<char>, content: Seq<char>) -> Result<WriteView, NoteError> {
    match parent_of(path) {
        Some(dir) => Ok(WriteView { dir, target: path, content }),
        None => Err(NoteError::InvalidPath),
    }
}

/// What saving `note` comes to when the file holds `on_disk` (`None`: no
/// readable file): nothing to do where it holds the note's text already, a
/// write of the whole text otherwise.
pub open spec fn save_plan(note: NoteView, on_disk: Option<Seq<char>>) -> Result<
    SavePlanView,
    NoteError,
> {
    if on_disk == Some(note.content) {
        Err(NoteError::NoChanges)
    } else {
        match write_plan(note.path, note.content) {
            Ok(write) => Ok(SavePlanView { write, remove: None, note, fresh: false }),
            Err(e) => Err(e),
        }
    }
}

/// The path that a note at `own` moves to under the new title `title`: the
/// first candidate in `dir` that is not among `taken`. Where the note's file
/// is there, the place of `own` is in use as well: a candidate that names it
/// is passed over.
pub open spec fn rename_target(
    title: Seq<char>,
    dir: Seq<char>,
    taken: Seq<Seq<char>>,
    own: Seq<char>,
    own_is_there: bool,
) -> Seq<char> {
    let first = candidate(title, dir, first_free(title, dir, taken));
    if own_is_there && same_place(first, own) {
        candidate(title, dir, first_free(title, dir, taken.push(first)))
    } else {
        first
    }
}

/// What saving `note` under the title `raw` comes to. With the title
/// unchanged it is a plain save. Otherwise the note moves, within its
/// directory, to the first free file name for the new title, its own file
/// counting as in use if it is there; the old file is removed unless the new
/// path names the place of the old one.
pub open spec fn save_as_plan(
    note: NoteView,
    raw: Seq<char>,
    on_disk: Option<Seq<char>>,
    taken: Seq<Seq<char>>,
) -> Result<SavePlanView, NoteError> {
    let title = note_title(raw);
    if title == note.title {
        save_plan(note, on_disk)
    } else {
        match parent_of(note.path) {
            None => Err(NoteError::InvalidPath),
            Some(dir) => {
                let path = rename_target(title, dir, taken, note.path, on_disk is Some);
                match write_plan(path, note.content) {
                    Err(e) => Err(e),
                    Ok(write) => Ok(
                        SavePlanView {
                            write,
                            remove: if same_place(path, note.path) {
                                None
                            } else {
                                Some(note.path)
                            },
                            note: NoteView { title, content: note.content, path },
                            fresh: true,
                        },
                    ),
                }
            },
        }
    }
}

// The disk, as far as the laws need it.

/// The file that `disk` holds at `path`, if any. A disk is the texts of its
/// files by path.
pub open spec fn file_at(disk: Map<Seq<char>, Seq<char>>, path: Seq<char>) -> Option<Seq<char>> {
    if disk.dom().contains(path) {
        Some(disk[path])
    } else {
        None
    }
}

/// The disk while an atomic write is under way: the temporary file at `temp`
/// holds what was written of the text so far, and nothing else has changed.
pub open spec fn while_writing(
    disk: Map<Seq<char>, Seq<char>>,
    temp: Seq<char>,
    so_far: Seq<char>,
) -> Map<Seq<char>, Seq<char>> {
    disk.insert(temp, so_far)
}

/// The disk once the temporary file at `temp` was renamed onto the target of
/// the write: the temporary file is gone, and the target holds the text.
pub open spec fn once_renamed(
    disk: Map<Seq<char>, Seq<char>>,
    write: WriteView,
    temp: Seq<char>,
) -> Map<Seq<char>, Seq<char>> {
    disk.remove(temp).insert(write.target, write.content)
}

/// The disk after a save plan was carried out in full: the text written, the
/// old file gone.
pub open spec fn carried_out(disk: Map<Seq<char>, Seq<char>>, plan: SavePlanView) -> Map<
    Seq<char>,
    Seq<char>,
> {
    let after_write = disk.insert(plan.write.target, plan.write.content);
    match plan.remove {
        Some(old) => after_write.remove(old),
        None => after_write,
    }
}

// Results and arguments as plain text values.

/// The text of a string that may be absent.
pub open spec fn string_of(o: Option<&String>) -> Option<Seq<char>> {
    match o {
        Some(s) => Some(s@),
        None => None,
    }
}

/// A note's result with the note as plain text values.
pub open spec fn note_view(r: Result<LocalNote, NoteError>) -> Result<NoteView, NoteError> {
    match r {
        Ok(note) => Ok(note@),
        Err(e) => Err(e),
    }
}

/// A write's result with the write as plain text values.
pub open spec fn write_view(r: Result<AtomicWrite, NoteError>) -> Result<WriteView, NoteError> {
    match r {
        Ok(write) => Ok(write@),
        Err(e) => Err(e),
    }
}

/// A save's result with the plan as plain text values.
pub open spec fn plan_view(r: Result<SavePlan, NoteError>) -> Result<SavePlanView, NoteError> {
    match r {
        Ok(plan) => Ok(plan@),
        Err(e) => Err(e),
    }
}

// The operations.

/// The title that a note gets from the text `raw`: `raw` without the white
/// space around it, or `Untitled` where nothing is left.
pub fn normalize_title(raw: &str) -> (r: String)
    ensures
        r@ == note_title(raw@),
{
    let t = trim(raw);
    if t.unicode_len() == 0 {
        proof {
            reveal_strlit("Untitled");
        }
        let r = String::from_str("Untitled");
        assert(r@ =~= untitled());
        r
    } else {
        t.to_string()
    }
}

/// The file name tried at the given count: `title.md` first, `title 1.md`,
/// `title 2.md` and so on after it.
pub fn file_name_for(title: &str, count: u64) -> (r: String)
    ensures
        r@ == note_file_name(title@, count as nat),
{
    proof {
        reveal_strlit(" ");
        reveal_strlit(".md");
    }
    let mut out = title.to_string();
    if count != 0 {
        out.append(" ");
        push_decimal(&mut out, count);
    }
    out.append(".md");
    proof {
        assert(" "@ =~= seq![' ']);
        assert(".md"@ =~= md_suffix());
        assert(out@ =~= note_file_name(title@, count as nat));
    }
    out
}

/// A copy of a list of strings.
fn copy_of(list: &Vec<String>) -> (r: Vec<String>)
    ensures
        texts(r@) == texts(list@),
{
    let mut out: Vec<String> = Vec::new();
    let mut i: usize = 0;
    while i < list.len()
        invariant
            i <= list@.len(),
            out@.len() == i,
            forall|j: int| 0 <= j < i ==> (#[trigger] out@[j])@ == list@[j]@,
        decreases list@.len() - i,
    {
        out.push(list[i].clone());
        i += 1;
    }
    assert(texts(out@) =~= texts(list@));
    out
}

/// Whether `path` is one of `taken`.
fn is_taken(taken: &Vec<String>, path: &String) -> (r: bool)
    ensures
        r == texts(taken@).contains(path@),
{
    let mut i: usize = 0;
    while i < taken.len()
        invariant
            i <= taken@.len(),
            forall|j: int| 0 <= j < i ==> (#[trigger] texts(taken@)[j]) != path@,
        decreases taken@.len() - i,
    {
        if taken[i] == *path {
            assert(texts(taken@)[i as int] == path@);
            return true;
        }
        i += 1;
    }
    false
}

/// The first count whose candidate path for `title` in `dir` is not among
/// `taken`.
pub fn first_free_count(title: &str, dir: &str, taken: &Vec<String>) -> (count: usize)
    ensures
        count <= taken@.len(),
        is_first_free(title@, dir@, texts(taken@), count as nat),
        count == first_free(title@, dir@, texts(taken@)),
{
    let ghost goal = first_free(title@, dir@, texts(taken@));
    let limit: usize = taken.len();
    let mut count: usize = 0;
    proof {
        lemma_first_free_exists(title@, dir@, texts(taken@));
    }
    loop
        invariant
            limit == taken@.len(),
            goal == first_free(title@, dir@, texts(taken@)),
            is_first_free(title@, dir@, texts(taken@), goal),
            count <= goal <= limit,
        ensures
            count == goal,
        decreases goal - count,
    {
        let name = file_name_for(title, count as u64);
        let path = join(dir, name.as_str());
        if !is_taken(taken, &path) {
            proof {
                if count < goal {
                    assert(texts(taken@).contains(candidate(title@, dir@, count as nat)));
                }
            }
            break ;
        }
        count += 1;
    }
    count
}

/// A path for a new note with the given title in `dir` that is not among
/// `taken`: `title.md`, or the first of `title 1.md`, `title 2.md`, ... that
/// is free.
///
/// A caller that probes the disk starts with `taken` empty, and calls again
/// with the returned path added for as long as a file is found there.
pub fn create_unique_filename(title: &str, dir: &str, taken: &Vec<String>) -> (r: String)
    ensures
        r@ == candidate(title@, dir@, first_free(title@, dir@, texts(taken@))),
        !texts(taken@).contains(r@),
{
    let count = first_free_count(title, dir, taken);
    let name = file_name_for(title, count as u64);
    join(dir, name.as_str())
}

/// The title of the note in the file at `path`: the stem of the file name,
/// trimmed, or `Untitled` where that leaves nothing.
pub fn extract_title_from_path(path: &str) -> (r: String)
    ensures
        r@ == title_of_path(path@),
{
    match file_stem(path) {
        Some(stem) => normalize_title(stem.as_str()),
        None => {
            proof {
                reveal_strlit("Untitled");
            }
            let r = String::from_str("Untitled");
            assert(r@ =~= untitled());
            r
        },
    }
}

/// Whether the file name of `path` has the extension of a note file.
pub fn has_note_extension(path: &str) -> (r: bool)
    ensures
        r == is_note_path(path@),
{
    proof {
        reveal_strlit("md");
    }
    match extension(path) {
        Some(ext) => {
            let md_text = String::from_str("md");
            assert(md_text@ =~= md());
            ext == md_text
        },
        None => false,
    }
}

/// The atomic write that puts `content` at `path`: the temporary file goes to
/// the directory of `path`, so that the rename stays on one volume. Fails
/// with `InvalidPath` where `path` has no directory.
pub fn write_atomic(path: &str, content: &str) -> (r: Result<AtomicWrite, NoteError>)
    ensures
        write_view(r) == write_plan(path@, content@),
{
    match parent(path) {
        Some(dir) => Ok(
            AtomicWrite { dir, target: path.to_string(), content: content.to_string() },
        ),
        None => Err(NoteError::InvalidPath),
    }
}

impl LocalNote {
    /// A new note with the given title and text in the directory `dir`, at a
    /// path that is not among `taken`. The caller writes `content` to the
    /// note's path.
    ///
    /// A blank title becomes `Untitled`. Where `title.md` is taken the name
    /// gets a number: `title 1.md`, `title 2.md`, ...
    pub fn create(title: &str, content: &str, dir: &str, taken: &Vec<String>) -> (r: LocalNote)
        ensures
            r@ == created(title@, content@, dir@, texts(taken@)),
            !texts(taken@).contains(r@.path),
    {
        let note_title = normalize_title(title);
        let path = create_unique_filename(note_title.as_str(), dir, taken);
        LocalNote { title: note_title, content: content.to_string(), path }
    }

    /// The note in the file at `path`, given what reading that file gave. The
    /// title comes from the file name.
    pub fn open(path: &str, read: Result<String, std::io::Error>) -> (r: Result<
        LocalNote,
        NoteError,
    >)
        ensures
            match read {
                Ok(content) => note_view(r) == Ok::<NoteView, NoteError>(
                    opened(path@, content@),
                ),
                Err(e) => r == Err::<LocalNote, NoteError>(NoteError::Io(e)),
            },
    {
        match read {
            Ok(content) => Ok(
                LocalNote { title: extract_title_from_path(path), content, path: path.to_string() },
            ),
            Err(e) => Err(NoteError::Io(e)),
        }
    }

    /// This note as its file holds it now, given what reading the file at
    /// the note's path gave. The note itself stays as it is.
    pub fn reload(&self, read: Result<String, std::io::Error>) -> (r: Result<
        LocalNote,
        NoteError,
    >)
        ensures
            match read {
                Ok(content) => note_view(r) == Ok::<NoteView, NoteError>(
                    opened(self@.path, content@),
                ),
                Err(e) => r == Err::<LocalNote, NoteError>(NoteError::Io(e)),
            },
    {
        LocalNote::open(self.path.as_str(), read)
    }

    /// A copy of this note with another text. Nothing is written.
    pub fn with_content(&self, new_content: &str) -> (r: LocalNote)
        ensures
            r@ == (NoteView { content: new_content@, ..self@ }),
    {
        LocalNote {
            title: self.title.clone(),
            content: new_content.to_string(),
            path: self.path.clone(),
        }
    }

    /// A copy of this note with another title, at the file name that the
    /// title gives in the note's directory. Nothing is written, and no name
    /// is probed. Fails with `InvalidPath` where the note's path has no
    /// directory.
    pub fn with_title(&self, new_title: &str) -> (r: Result<LocalNote, NoteError>)
        ensures
            note_view(r) == retitled(self@, new_title@),
    {
        match parent(self.path.as_str()) {
            Some(dir) => {
                let title = normalize_title(new_title);
                let name = file_name_for(title.as_str(), 0);
                let path = join(dir.as_str(), name.as_str());
                Ok(LocalNote { title, content: self.content.clone(), path })
            },
            None => Err(NoteError::InvalidPath),
        }
    }

    /// What deleting this note comes to, given what removing the file at the
    /// note's path gave: a removal that failed comes back as `Io`.
    pub fn delete(&self, removed: Result<(), std::io::Error>) -> (r: Result<(), NoteError>)
        ensures
            match removed {
                Ok(_) => r == Ok::<(), NoteError>(()),
                Err(e) => r == Err::<(), NoteError>(NoteError::Io(e)),
            },
    {
        match removed {
            Ok(_) => Ok(()),
            Err(e) => Err(NoteError::Io(e)),
        }
    }

    /// What saving this note comes to. `on_disk` is the text that the file at
    /// the note's path holds, `None` where there is no file or it cannot be
    /// read.
    ///
    /// Fails with `NoChanges` where the file holds the note's text already,
    /// and with `InvalidPath` where the path has no directory. Otherwise the
    /// plan is one atomic write of the whole text to the note's path.
    pub fn save(&self, on_disk: Option<&String>) -> (r: Result<SavePlan, NoteError>)
        ensures
            plan_view(r) == save_plan(self@, string_of(on_disk)),
    {
        match on_disk {
            Some(existing) => {
                if *existing == self.content {
                    return Err(NoteError::NoChanges);
                }
            },
            None => {},
        }
        match write_atomic(self.path.as_str(), self.content.as_str()) {
            Ok(write) => Ok(
                SavePlan {
                    write,
                    remove: None,
                    note: LocalNote {
                        title: self.title.clone(),
                        content: self.content.clone(),
                        path: self.path.clone(),
                    },
                    fresh: false,
                },
            ),
            Err(e) => Err(e),
        }
    }

    /// What saving this note under a new title comes to. `on_disk` is the
    /// text that the file at the note's path holds, `None` where there is no
    /// file or it cannot be read; `taken` holds the paths in use.
    ///
    /// With the title unchanged this is `save`. Otherwise the note goes to the
    /// first free file name for the new title in its own directory, its own
    /// file counting as in use if it is there: the plan writes the text
    /// there, removes the old file unless the new path names the place of
    /// the old one, and holds the note with its new title and path. A caller
    /// that probes the disk starts with `taken` empty, and calls again with
    /// the plan's target added for as long as the plan is `fresh` and a file
    /// is found at the target. Fails with `InvalidPath` where the note's
    /// path has no directory, and with `NoChanges` where the title is the
    /// note's own and the file holds its text.
    pub fn save_as(&self, title: &str, on_disk: Option<&String>, taken: &Vec<String>) -> (r:
        Result<SavePlan, NoteError>)
        ensures
            plan_view(r) == save_as_plan(self@, title@, string_of(on_disk), texts(taken@)),
    {
        let new_title = normalize_title(title);
        if new_title == self.title {
            return self.save(on_disk);
        }
        let dir = match parent(self.path.as_str()) {
            Some(dir) => dir,
            None => {
                return Err(NoteError::InvalidPath);
            },
        };
        let first = create_unique_filename(new_title.as_str(), dir.as_str(), taken);
        let own_is_there = on_disk.is_some();
        let path = if own_is_there && same_path(first.as_str(), self.path.as_str()) {
            let mut more = copy_of(taken);
            assert(texts(more@.push(first)) =~= texts(taken@).push(first@));
            more.push(first);
            create_unique_filename(new_title.as_str(), dir.as_str(), &more)
        } else {
            first
        };
        let same_file = same_path(path.as_str(), self.path.as_str());
        match write_atomic(path.as_str(), self.content.as_str()) {
            Ok(write) => Ok(
                SavePlan {
                    write,
                    remove: if same_file {
                        None
                    } else {
                        Some(self.path.clone())
                    },
                    note: LocalNote { title: new_title, content: self.content.clone(), path },
                    fresh: true,
                },
            ),
            Err(e) => Err(e),
        }
    }
}

// Lemmas.

/// Two counts that give the same file name for one title are the same count.
pub proof fn lemma_file_name_injective(title: Seq<char>, a: nat, b: nat)
    requires
        note_file_name(title, a) == note_file_name(title, b),
    ensures
        a == b,
{
    lemma_decimal_digits(a);
    lemma_decimal_digits(b);
    let na = note_file_name(title, a);
    let nb = note_file_name(title, b);
    if a == 0 && b != 0 {
        assert(na.len() == title.len() + 3);
        assert(nb.len() == title.len() + 1 + decimal(b).len() + 3);
    } else if a != 0 && b == 0 {
        assert(nb.len() == title.len() + 3);
        assert(na.len() == title.len() + 1 + decimal(a).len() + 3);
    } else if a != 0 && b != 0 {
        assert(na.len() == title.len() + 1 + decimal(a).len() + 3);
        assert(nb.len() == title.len() + 1 + decimal(b).len() + 3);
        assert(decimal(a).len() == decimal(b).len());
        assert forall|i: int| 0 <= i < decimal(a).len() implies decimal(a)[i] == decimal(b)[i] by {
            assert(na[title.len() + 1 + i] == decimal(a)[i]);
            assert(nb[title.len() + 1 + i] == decimal(b)[i]);
        }
        assert(decimal(a) =~= decimal(b));
        lemma_decimal_injective(a, b);
    }
}

/// Two counts that give the same candidate path are the same count.
pub proof fn lemma_candidate_injective(title: Seq<char>, dir: Seq<char>, a: nat, b: nat)
    requires
        candidate(title, dir, a) == candidate(title, dir, b),
    ensures
        a == b,
{
    let na = note_file_name(title, a);
    let nb = note_file_name(title, b);
    let pa = joined(dir, na);
    let pb = joined(dir, nb);
    lemma_decimal_digits(a);
    lemma_decimal_digits(b);
    // Both names start alike: with the title, or with `.` or a blank.
    assert(na.len() > 0 && nb.len() > 0);
    assert(na[0] == '/' <==> nb[0] == '/') by {
        if title.len() > 0 {
            assert(na[0] == title[0]);
            assert(nb[0] == title[0]);
        } else {
            assert(na[0] == '.' || na[0] == ' ');
            assert(nb[0] == '.' || nb[0] == ' ');
        }
    }
    if na[0] != '/' {
        let k = pa.len() - na.len();
        assert(pb.len() - nb.len() == k);
        assert(na.len() == nb.len());
        assert forall|i: int| 0 <= i < na.len() implies na[i] == nb[i] by {
            assert(pa[k + i] == na[i]);
            assert(pb[k + i] == nb[i]);
        }
        assert(na =~= nb);
    }
    lemma_file_name_injective(title, a, b);
}

/// Only one count can be the first free one.
pub proof fn lemma_first_free_unique(
    title: Seq<char>,
    dir: Seq<char>,
    taken: Seq<Seq<char>>,
    a: nat,
    b: nat,
)
    requires
        is_first_free(title, dir, taken, a),
        is_first_free(title, dir, taken, b),
    ensures
        a == b,
{
    if a < b {
        assert(taken.contains(candidate(title, dir, a)));
    } else if b < a {
        assert(taken.contains(candidate(title, dir, b)));
    }
}

/// Searching on from `count`, with the candidates below it all taken and
/// collected in `seen`, ends at the first free count.
proof fn lemma_first_free_from(
    title: Seq<char>,
    dir: Seq<char>,
    taken: Seq<Seq<char>>,
    count: nat,
    seen: Set<Seq<char>>,
) -> (found: nat)
    requires
        seen.finite(),
        seen.len() == count,
        seen.subset_of(taken.to_set()),
        forall|k: nat| k < count ==> seen.contains(#[trigger] candidate(title, dir, k)),
        forall|p: Seq<char>| #[trigger]
            seen.contains(p) ==> exists|k: nat| k < count && p == candidate(title, dir, k),
    ensures
        is_first_free(title, dir, taken, found),
        found <= taken.len(),
    decreases taken.len() - count,
{
    taken.lemma_cardinality_of_set();
    vstd::seq_lib::seq_to_set_is_finite(taken);
    vstd::set_lib::lemma_len_subset(seen, taken.to_set());
    let c = candidate(title, dir, count);
    if !taken.contains(c) {
        count
    } else {
        if seen.contains(c) {
            let k = choose|k: nat| k < count && c == candidate(title, dir, k);
            lemma_candidate_injective(title, dir, k, count);
        }
        let grown = seen.insert(c);
        assert(taken.to_set().contains(c));
        assert(grown.subset_of(taken.to_set()));
        vstd::set_lib::lemma_len_subset(grown, taken.to_set());
        assert(grown.len() == seen.len() + 1);
        assert forall|p: Seq<char>| #[trigger] grown.contains(p) implies exists|k: nat|
            k < count + 1 && p == candidate(title, dir, k) by {
            if p == c {
                assert(count < count + 1 && p == candidate(title, dir, count));
            } else {
                let k = choose|k: nat| k < count && p == candidate(title, dir, k);
                assert(k < count + 1 && p == candidate(title, dir, k));
            }
        }
        lemma_first_free_from(title, dir, taken, count + 1, grown)
    }
}

/// Some count is the first free one: the candidates are all different, and
/// only so many paths are taken.
pub proof fn lemma_first_free_exists(title: Seq<char>, dir: Seq<char>, taken: Seq<Seq<char>>)
    ensures
        is_first_free(title, dir, taken, first_free(title, dir, taken)),
        first_free(title, dir, taken) <= taken.len(),
{
    let n = lemma_first_free_from(title, dir, taken, 0, Set::empty());
    lemma_first_free_unique(title, dir, taken, n, first_free(title, dir, taken));
}

/// A title is never empty, and neither starts nor ends with white space.
pub proof fn lemma_note_title_is_tight(raw: Seq<char>)
    ensures
        note_title(raw).len() > 0,
        !is_white_space(note_title(raw)[0]),
        !is_white_space(note_title(raw).last()),
        note_title(note_title(raw)) == note_title(raw),
{
    lemma_trimmed_is_tight(raw);
    let t = note_title(raw);
    if trimmed(raw).len() == 0 {
        assert(t[0] == 'U');
        assert(t.last() == 'd');
    }
    lemma_tight_is_trimmed(t);
}

/// The file name for a title without `/` is a single plain component, and
/// its stem is the title, followed by a blank and the count where the count
/// is not zero.
pub proof fn lemma_stem_of_file_name(title: Seq<char>, count: nat)
    requires
        title.len() > 0,
        forall|i: int| 0 <= i < title.len() ==> #[trigger] title[i] != '/',
    ensures
        is_plain_name(note_file_name(title, count)),
        count == 0 ==> stem_of(note_file_name(title, count)) == title,
        count > 0 ==> stem_of(note_file_name(title, count)) == title + seq![' '] + decimal(count),
{
    lemma_decimal_digits(count);
    let name = note_file_name(title, count);
    let stem = if count == 0 {
        title
    } else {
        title + seq![' '] + decimal(count)
    };
    assert(name =~= stem + md_suffix());
    let d = stem.len() as int;
    assert(name[d] == '.');
    assert(name[d + 1] == 'm');
    assert(name[d + 2] == 'd');
    assert forall|i: int| 0 <= i < name.len() implies #[trigger] name[i] != '/' by {
        if i < title.len() {
            assert(name[i] == title[i]);
        } else if i < d {
            if i == title.len() {
                assert(name[i] == ' ');
            } else {
                assert(name[i] == decimal(count)[i - title.len() - 1]);
            }
        }
    }
    assert(name.last() == 'd');
    assert(dot().last() == '.');
    assert(dot_dot().last() == '.');
    lemma_last_dot(name, d);
    assert(name.subrange(0, d) =~= stem);
}

/// Opened from the path that it was created at, a note whose title holds no
/// `/` has that title, followed by a blank and the count where its file name
/// carries one.
pub proof fn lemma_title_of_candidate(raw: Seq<char>, dir: Seq<char>, count: nat)
    requires
        forall|i: int| 0 <= i < note_title(raw).len() ==> #[trigger] note_title(raw)[i] != '/',
    ensures
        count == 0 ==> title_of_path(candidate(note_title(raw), dir, count)) == note_title(raw),
        count > 0 ==> title_of_path(candidate(note_title(raw), dir, count)) == note_title(raw)
            + seq![' '] + decimal(count),
{
    let title = note_title(raw);
    lemma_note_title_is_tight(raw);
    lemma_stem_of_file_name(title, count);
    lemma_file_name_of_joined(dir, note_file_name(title, count));
    lemma_decimal_digits(count);
    let stem = stem_of(note_file_name(title, count));
    assert(stem[0] == title[0]);
    if count > 0 {
        let last = decimal(count).last();
        assert(stem.last() == last);
        assert('0' <= last <= '9');
        assert(!is_white_space(last));
    }
    lemma_tight_is_trimmed(stem);
}

/// What a candidate path starts with, whatever its count: the directory and
/// the title.
pub open spec fn candidate_head(title: Seq<char>, dir: Seq<char>) -> Seq<char> {
    joined(dir, title + seq!['x']).drop_last()
}

/// What a file name ends with at the given count, behind the title.
pub open spec fn name_tail(count: nat) -> Seq<char> {
    note_file_name(Seq::empty(), count)
}

/// A candidate path is its head and the tail of its count, and the tail
/// holds no `/`.
pub proof fn lemma_candidate_parts(title: Seq<char>, dir: Seq<char>, count: nat)
    ensures
        candidate(title, dir, count) == candidate_head(title, dir) + name_tail(count),
        name_tail(count).len() >= 3,
        name_tail(count).last() == 'd',
        forall|i: int| 0 <= i < name_tail(count).len() ==> #[trigger] name_tail(count)[i] != '/',
{
    lemma_decimal_digits(count);
    let tail = name_tail(count);
    let name = note_file_name(title, count);
    let probe = title + seq!['x'];
    assert(name =~= title + tail);
    assert(forall|i: int| 0 <= i < tail.len() ==> #[trigger] tail[i] != '/') by {
        assert forall|i: int| 0 <= i < tail.len() implies #[trigger] tail[i] != '/' by {
            if count > 0 && 1 <= i < 1 + decimal(count).len() {
                assert(tail[i] == decimal(count)[i - 1]);
            }
        }
    }
    assert(name[0] == '/' <==> probe[0] == '/') by {
        if title.len() > 0 {
            assert(name[0] == title[0]);
            assert(probe[0] == title[0]);
        } else {
            assert(name[0] == tail[0]);
        }
    }
    assert(candidate(title, dir, count) =~= candidate_head(title, dir) + tail);
}

/// Two candidate paths with different counts name different places.
pub proof fn lemma_candidates_name_different_places(
    title: Seq<char>,
    dir: Seq<char>,
    a: nat,
    b: nat,
)
    requires
        a != b,
    ensures
        !same_place(candidate(title, dir, a), candidate(title, dir, b)),
{
    let head = candidate_head(title, dir);
    let pa = candidate(title, dir, a);
    let pb = candidate(title, dir, b);
    lemma_candidate_parts(title, dir, a);
    lemma_candidate_parts(title, dir, b);
    lemma_segment_start_append(head, name_tail(a));
    lemma_segment_start_append(head, name_tail(b));
    lemma_segment_start_bounds(head);
    let k = segment_start(head);
    assert(segment_start(pa) == k && segment_start(pb) == k);
    assert(k <= head.len() < pa.len() && head.len() < pb.len());
    assert(pa.last() == name_tail(a).last());
    assert(pb.last() == name_tail(b).last());
    assert(last_segment(pa).len() > 0 && last_segment(pb).len() > 0);
    assert(last_segment(pa).last() == pa.last());
    assert(last_segment(pb).last() == pb.last());
    assert(dot().last() == '.');
    lemma_last_component(pa);
    lemma_last_component(pb);
    if last_segment(pa) == last_segment(pb) {
        assert(pa.len() == pb.len());
        assert(pa =~= pb) by {
            assert forall|i: int| 0 <= i < pa.len() implies pa[i] == pb[i] by {
                if i < k {
                    assert(pa[i] == head[i]);
                    assert(pb[i] == head[i]);
                } else {
                    assert(pa[i] == last_segment(pa)[i - k]);
                    assert(pb[i] == last_segment(pb)[i - k]);
                }
            }
        }
        lemma_candidate_injective(title, dir, a, b);
    }
}

/// Where the note's file is there, the path that the note moves to names
/// another place than the note's own.
pub proof fn lemma_rename_target_is_elsewhere(
    title: Seq<char>,
    dir: Seq<char>,
    taken: Seq<Seq<char>>,
    own: Seq<char>,
)
    ensures
        !same_place(rename_target(title, dir, taken, own, true), own),
{
    let c0 = first_free(title, dir, taken);
    let first = candidate(title, dir, c0);
    if same_place(first, own) {
        let c1 = first_free(title, dir, taken.push(first));
        lemma_first_free_exists(title, dir, taken.push(first));
        assert(taken.push(first)[taken.len() as int] == first);
        assert(candidate(title, dir, c1) != first);
        lemma_candidates_name_different_places(title, dir, c0, c1);
    }
}

/// The path that a note moves to ends in `.md`.
pub proof fn lemma_rename_target_ends_in_md(
    title: Seq<char>,
    dir: Seq<char>,
    taken: Seq<Seq<char>>,
    own: Seq<char>,
    own_is_there: bool,
)
    ensures
        rename_target(title, dir, taken, own, own_is_there).len() >= 3,
        rename_target(title, dir, taken, own, own_is_there).subrange(
            rename_target(title, dir, taken, own, own_is_there).len() - 3,
            rename_target(title, dir, taken, own, own_is_there).len() as int,
        ) == md_suffix(),
{
    let first = candidate(title, dir, first_free(title, dir, taken));
    lemma_candidate_ends_in_md(title, dir, first_free(title, dir, taken));
    lemma_candidate_ends_in_md(title, dir, first_free(title, dir, taken.push(first)));
}

/// Every candidate path ends in `.md`.
pub proof fn lemma_candidate_ends_in_md(title: Seq<char>, dir: Seq<char>, count: nat)
    ensures
        candidate(title, dir, count).len() >= 3,
        candidate(title, dir, count).subrange(
            candidate(title, dir, count).len() - 3,
            candidate(title, dir, count).len() as int,
        ) == md_suffix(),
{
    let name = note_file_name(title, count);
    let path = candidate(title, dir, count);
    assert(name.subrange(name.len() - 3, name.len() as int) =~= md_suffix());
    assert(path.subrange(path.len() - 3, path.len() as int) =~= name.subrange(
        name.len() - 3,
        name.len() as int,
    ));
}

// Laws.

/// A created note is well formed.
pub proof fn law_created_notes_are_well_formed(
    raw: Seq<char>,
    content: Seq<char>,
    dir: Seq<char>,
    taken: Seq<Seq<char>>,
)
    ensures
        is_well_formed(created(raw, content, dir, taken)),
{
    lemma_note_title_is_tight(raw);
    lemma_candidate_ends_in_md(note_title(raw), dir, first_free(note_title(raw), dir, taken));
}

/// An opened note has a title that is not empty, whatever its path.
pub proof fn law_opened_notes_have_titles(path: Seq<char>, content: Seq<char>)
    ensures
        opened(path, content).title.len() > 0,
{
    match file_stem_of(path) {
        Some(stem) => {
            lemma_note_title_is_tight(stem);
        },
        None => {},
    }
}

/// A note under a new title is well formed, and keeps its text.
pub proof fn law_retitled_notes_are_well_formed(note: NoteView, raw: Seq<char>)
    requires
        retitled(note, raw) is Ok,
    ensures
        is_well_formed(retitled(note, raw)->Ok_0),
        retitled(note, raw)->Ok_0.content == note.content,
{
    lemma_note_title_is_tight(raw);
    lemma_candidate_ends_in_md(note_title(raw), parent_of(note.path)->Some_0, 0);
}

/// A save leaves the note as it is: the plan writes the note's whole text to
/// the note's path, through the directory of that path, and removes nothing.
pub proof fn law_save_keeps_the_note(note: NoteView, on_disk: Option<Seq<char>>)
    requires
        save_plan(note, on_disk) is Ok,
    ensures
        ({
            let plan = save_plan(note, on_disk)->Ok_0;
            &&& plan.note == note
            &&& plan.write.target == note.path
            &&& plan.write.content == note.content
            &&& parent_of(note.path) == Some(plan.write.dir)
            &&& plan.remove is None
            &&& !plan.fresh
        }),
{
}

/// The note of a save under a new title is well formed.
pub proof fn law_saved_as_notes_are_well_formed(
    note: NoteView,
    raw: Seq<char>,
    on_disk: Option<Seq<char>>,
    taken: Seq<Seq<char>>,
)
    requires
        note_title(raw) != note.title,
        save_as_plan(note, raw, on_disk, taken) is Ok,
    ensures
        is_well_formed(save_as_plan(note, raw, on_disk, taken)->Ok_0.note),
{
    let dir = parent_of(note.path)->Some_0;
    lemma_note_title_is_tight(raw);
    lemma_rename_target_ends_in_md(note_title(raw), dir, taken, note.path, on_disk is Some);
}

/// A created note whose title holds no `/` lies in the directory that it was
/// created in.
pub proof fn law_created_notes_lie_in_their_directory(
    raw: Seq<char>,
    content: Seq<char>,
    dir: Seq<char>,
    taken: Seq<Seq<char>>,
)
    requires
        forall|i: int| 0 <= i < note_title(raw).len() ==> #[trigger] note_title(raw)[i] != '/',
    ensures
        parent_of(created(raw, content, dir, taken).path) is Some,
        same_place(parent_of(created(raw, content, dir, taken).path)->Some_0, dir),
{
    let title = note_title(raw);
    let count = first_free(title, dir, taken);
    lemma_note_title_is_tight(raw);
    lemma_stem_of_file_name(title, count);
    lemma_parent_of_joined(dir, note_file_name(title, count));
}

/// A note that is saved under a new title without a `/` stays in the
/// directory of its old path.
pub proof fn law_renamed_notes_stay_in_their_directory(
    note: NoteView,
    raw: Seq<char>,
    on_disk: Option<Seq<char>>,
    taken: Seq<Seq<char>>,
)
    requires
        note_title(raw) != note.title,
        forall|i: int| 0 <= i < note_title(raw).len() ==> #[trigger] note_title(raw)[i] != '/',
        save_as_plan(note, raw, on_disk, taken) is Ok,
    ensures
        parent_of(save_as_plan(note, raw, on_disk, taken)->Ok_0.note.path) is Some,
        same_place(
            parent_of(save_as_plan(note, raw, on_disk, taken)->Ok_0.note.path)->Some_0,
            parent_of(note.path)->Some_0,
        ),
{
    let title = note_title(raw);
    let dir = parent_of(note.path)->Some_0;
    let first_count = first_free(title, dir, taken);
    let first = candidate(title, dir, first_count);
    let second_count = first_free(title, dir, taken.push(first));
    lemma_note_title_is_tight(raw);
    lemma_stem_of_file_name(title, first_count);
    lemma_stem_of_file_name(title, second_count);
    lemma_parent_of_joined(dir, note_file_name(title, first_count));
    lemma_parent_of_joined(dir, note_file_name(title, second_count));
}

/// A note that was created, written and opened again from its path has the
/// text and the path it was created with, and the title that its file name
/// gives. Where the title holds no `/`, that is the title it was created
/// with, followed by a blank and the count where its file name carries one.
pub proof fn law_open_after_create(
    title: Seq<char>,
    content: Seq<char>,
    dir: Seq<char>,
    taken: Seq<Seq<char>>,
    disk: Map<Seq<char>, Seq<char>>,
)
    ensures
        ({
            let note = created(title, content, dir, taken);
            let count = first_free(note.title, dir, taken);
            let after = disk.insert(note.path, note.content);
            let back = opened(note.path, file_at(after, note.path)->Some_0);
            &&& file_at(after, note.path) == Some(content)
            &&& back.content == content
            &&& back.path == note.path
            &&& back.title == title_of_path(note.path)
            &&& (forall|i: int| 0 <= i < note.title.len() ==> #[trigger] note.title[i] != '/')
                ==> back.title == if count == 0 {
                    note.title
                } else {
                    note.title + seq![' '] + decimal(count)
                }
        }),
{
    let note = created(title, content, dir, taken);
    let count = first_free(note.title, dir, taken);
    if forall|i: int| 0 <= i < note.title.len() ==> #[trigger] note.title[i] != '/' {
        lemma_title_of_candidate(title, dir, count);
    }
}

/// On a disk that takes the writing of a temporary file and its renaming as
/// `while_writing` and `once_renamed` say, the target of an atomic write
/// never holds part of the text. While the text goes to a temporary file
/// under another name, the target holds what it held, however much is
/// written, and so it does if the rename never comes. Once the temporary
/// file is renamed onto the target, the target holds the whole text.
pub proof fn law_atomic_write_shows_old_or_new(
    disk: Map<Seq<char>, Seq<char>>,
    write: WriteView,
    temp: Seq<char>,
    so_far: Seq<char>,
)
    requires
        temp != write.target,
    ensures
        file_at(while_writing(disk, temp, so_far), write.target) == file_at(disk, write.target),
        file_at(once_renamed(while_writing(disk, temp, so_far), write, temp), write.target)
            == Some(write.content),
        file_at(once_renamed(while_writing(disk, temp, so_far), write, temp), temp) is None,
{
}

/// Once a save has been carried out, saving the same note again is refused
/// with `NoChanges`: the second save plans no write. The same holds after a
/// save that was itself refused with `NoChanges`.
pub proof fn law_second_save_is_refused(note: NoteView, disk: Map<Seq<char>, Seq<char>>)
    ensures
        match save_plan(note, file_at(disk, note.path)) {
            Ok(plan) => save_plan(note, file_at(carried_out(disk, plan), note.path)) == Err::<
                SavePlanView,
                NoteError,
            >(NoteError::NoChanges),
            Err(NoteError::NoChanges) => save_plan(note, file_at(disk, note.path)) == Err::<
                SavePlanView,
                NoteError,
            >(NoteError::NoChanges),
            Err(_) => true,
        },
{
}

/// A save under a title that trims to the note's own title is a plain save.
pub proof fn law_save_as_same_title(
    note: NoteView,
    raw: Seq<char>,
    on_disk: Option<Seq<char>>,
    taken: Seq<Seq<char>>,
)
    requires
        note_title(raw) == note.title,
    ensures
        save_as_plan(note, raw, on_disk, taken) == save_plan(note, on_disk),
{
}

/// A save under a new title that goes through leaves the note's text in the
/// file at its new path, with the new title, and plans the temporary file in
/// the directory of that path. The old file is removed exactly if the new
/// path names another place, so the file that was written is never the one
/// removed; and if the old file was there, it is gone afterwards.
pub proof fn law_save_as_moves_the_note(
    note: NoteView,
    raw: Seq<char>,
    taken: Seq<Seq<char>>,
    disk: Map<Seq<char>, Seq<char>>,
)
    requires
        note_title(raw) != note.title,
        save_as_plan(note, raw, file_at(disk, note.path), taken) is Ok,
    ensures
        ({
            let plan = save_as_plan(note, raw, file_at(disk, note.path), taken)->Ok_0;
            &&& plan.note.title == note_title(raw)
            &&& plan.note.content == note.content
            &&& plan.write.target == plan.note.path
            &&& plan.write.content == note.content
            &&& parent_of(plan.note.path) == Some(plan.write.dir)
            &&& plan.fresh
            &&& !taken.contains(plan.note.path)
            &&& plan.note.path == rename_target(
                note_title(raw),
                parent_of(note.path)->Some_0,
                taken,
                note.path,
                file_at(disk, note.path) is Some,
            )
            &&& plan.remove == if same_place(plan.note.path, note.path) {
                None::<Seq<char>>
            } else {
                Some(note.path)
            }
            &&& file_at(carried_out(disk, plan), plan.note.path) == Some(note.content)
            &&& file_at(disk, note.path) is Some ==> plan.remove == Some(note.path) && file_at(
                carried_out(disk, plan),
                note.path,
            ) is None
        }),
{
    let title = note_title(raw);
    let dir = parent_of(note.path)->Some_0;
    let first = candidate(title, dir, first_free(title, dir, taken));
    lemma_first_free_exists(title, dir, taken);
    lemma_first_free_exists(title, dir, taken.push(first));
    let second = candidate(title, dir, first_free(title, dir, taken.push(first)));
    if taken.contains(second) {
        let i = choose|i: int| 0 <= i < taken.len() && taken[i] == second;
        assert(taken.push(first)[i] == second);
    }
    if file_at(disk, note.path) is Some {
        lemma_rename_target_is_elsewhere(title, dir, taken, note.path);
    }
}

} // verus!
