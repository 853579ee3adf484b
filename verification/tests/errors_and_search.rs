use ora_core::domain::NoteError;
use ora_core::error::OraError;
use ora_core::search::{content_query, suggestion_limit, title_query, SearchOptions};
use ora_core::shelf::storage::ShelfError;
use ora_core::watcher::index::{get_by_path, missing_row, IndexedNote};
use std::io::{Error, ErrorKind};

#[test]
fn an_unchanged_save_keeps_its_own_variant() {
    assert!(matches!(OraError::from(NoteError::NoChanges), OraError::NoChanges));
}

#[test]
fn other_note_errors_are_wrapped() {
    assert!(matches!(
        OraError::from(NoteError::InvalidPath),
        OraError::Note(NoteError::InvalidPath)
    ));
    match OraError::from(NoteError::Io(Error::new(ErrorKind::PermissionDenied, "no"))) {
        OraError::Note(NoteError::Io(e)) => assert_eq!(e.kind(), ErrorKind::PermissionDenied),
        _ => panic!("an Io note error must stay an Io note error"),
    }
}

#[test]
fn shelf_errors_are_wrapped() {
    assert!(matches!(
        OraError::from(ShelfError::InvalidInput),
        OraError::Shelf(ShelfError::InvalidInput)
    ));
    match OraError::from(ShelfError::NotFound("work".to_string())) {
        OraError::Shelf(ShelfError::NotFound(name)) => assert_eq!(name, "work"),
        _ => panic!("a shelf error must stay a shelf error"),
    }
}

#[test]
fn question_mark_converts_note_errors() {
    fn failing() -> Result<(), OraError> {
        Err(NoteError::NoChanges)?;
        Ok(())
    }
    assert!(matches!(failing(), Err(OraError::NoChanges)));
}

#[test]
fn default_options_ask_for_fifty_results_with_excerpts() {
    let options = SearchOptions::default();
    assert_eq!(options.limit, Some(50));
    assert_eq!(options.offset, Some(0));
    assert!(options.include_snippets);
    assert_eq!(options.snippet_length, 100);
    assert_eq!(options.effective_limit(), 50);
    assert_eq!(options.effective_offset(), 0);
}

#[test]
fn unset_options_fall_back() {
    let open = SearchOptions { limit: None, offset: None, include_snippets: false, snippet_length: 5 };
    assert_eq!(open.effective_limit(), 50);
    assert_eq!(open.effective_offset(), 0);
    let page = SearchOptions { limit: Some(10), offset: Some(20), ..SearchOptions::default() };
    assert_eq!(page.effective_limit(), 10);
    assert_eq!(page.effective_offset(), 20);
    assert_eq!(suggestion_limit(None), 10);
    assert_eq!(suggestion_limit(Some(3)), 3);
    assert_eq!(suggestion_limit(Some(0)), 0);
}

#[test]
fn queries_are_kept_to_one_field() {
    assert_eq!(title_query("Guide"), "title:Guide");
    assert_eq!(content_query("comprehensive"), "content:comprehensive");
    assert_eq!(title_query(""), "title:");
    assert_eq!(content_query("a AND b"), "content:a AND b");
}

#[test]
fn outside_errors_keep_their_own_variants() {
    match OraError::from(Error::new(ErrorKind::NotFound, "gone")) {
        OraError::Io(e) => assert_eq!(e.kind(), ErrorKind::NotFound),
        _ => panic!("an I/O error must come back as Io"),
    }
    match OraError::from(rusqlite::Error::InvalidQuery) {
        OraError::Db(e) => assert_eq!(e, rusqlite::Error::InvalidQuery),
        _ => panic!("a database error must come back as Db"),
    }
    match OraError::from(notify::Error::path_not_found()) {
        OraError::Watcher(e) => assert!(matches!(e.kind, notify::ErrorKind::PathNotFound)),
        _ => panic!("a watcher error must come back as Watcher"),
    }
}

#[test]
fn a_query_without_a_row_is_no_entry() {
    let entry = IndexedNote {
        title: "T".to_string(),
        content: "text".to_string(),
        path: "/D/T.md".to_string(),
    };
    let found = get_by_path(Ok(entry)).unwrap().unwrap();
    assert_eq!(found.title, "T");
    assert_eq!(found.content, "text");
    assert_eq!(found.path, "/D/T.md");

    assert!(get_by_path(Err(rusqlite::Error::QueryReturnedNoRows)).unwrap().is_none());

    match get_by_path(Err(rusqlite::Error::InvalidQuery)) {
        Err(OraError::Other(text)) => assert_eq!(text, rusqlite::Error::InvalidQuery.to_string()),
        _ => panic!("any other database error must come back as Other"),
    }
    assert!(missing_row(true, "ignored".to_string()).unwrap().is_none());
    match missing_row(false, "disk I/O error".to_string()) {
        Err(OraError::Other(text)) => assert_eq!(text, "disk I/O error"),
        _ => panic!("any other database error must come back as Other"),
    }
    match get_by_path(Err(rusqlite::Error::InvalidColumnIndex(7))) {
        Err(OraError::Other(text)) => assert!(text.contains('7')),
        _ => panic!("any other database error must come back as Other"),
    }
}

#[test]
fn the_search_statement_carries_the_excerpt_length() {
    let with = SearchOptions { limit: Some(10), offset: None, include_snippets: true, snippet_length: 50 };
    assert_eq!(
        with.statement(),
        format!(
            "SELECT n.title, n.content, n.path, bm25(contents) AS rank, \
             snippet(contents, 0, '<mark>', '</mark>', '...', {}) AS title_snippet, \
             snippet(contents, 1, '<mark>', '</mark>', '...', {}) AS content_snippet \
             FROM contents JOIN notes n ON n.id = contents.rowid \
             WHERE contents MATCH ? ORDER BY rank LIMIT ? OFFSET ?",
            50, 50
        )
    );
    let without = SearchOptions { include_snippets: false, ..with.clone() };
    assert_eq!(
        without.statement(),
        "SELECT n.title, n.content, n.path, bm25(contents) AS rank \
         FROM contents JOIN notes n ON n.id = contents.rowid \
         WHERE contents MATCH ? ORDER BY rank LIMIT ? OFFSET ?"
    );
    let zero = SearchOptions { snippet_length: 0, ..SearchOptions::default() };
    assert!(zero.statement().contains("'...', 0) AS title_snippet"));
    let wide = SearchOptions { snippet_length: 4294967295, ..SearchOptions::default() };
    assert!(wide.statement().contains("'...', 4294967295) AS content_snippet"));
}

#[test]
fn the_search_statement_runs_on_a_database() {
    let conn = rusqlite::Connection::open_in_memory().unwrap();
    conn.execute_batch(
        "CREATE TABLE notes (id INTEGER PRIMARY KEY AUTOINCREMENT, title TEXT NOT NULL, \
         content TEXT NOT NULL DEFAULT '', path TEXT UNIQUE NOT NULL);
         CREATE VIRTUAL TABLE contents USING fts5(title, content, content='notes', content_rowid='id');
         CREATE TRIGGER notes_ai AFTER INSERT ON notes BEGIN
           INSERT INTO contents(rowid, title, content) VALUES (new.id, new.title, new.content);
         END;
         INSERT INTO notes (title, content, path) VALUES
           ('Rust Programming', 'Rust is a systems programming language that runs blazingly fast', '/D/a.md'),
           ('Python Guide', 'Python programming tutorial', '/D/b.md'),
           ('JavaScript Tips', 'Advanced JavaScript techniques', '/D/c.md');",
    )
    .unwrap();

    let options = SearchOptions { limit: Some(10), offset: Some(0), include_snippets: true, snippet_length: 50 };
    let mut statement = conn.prepare(&options.statement()).unwrap();
    let rows: Vec<(String, Option<String>)> = statement
        .query_map(
            ("blazingly", options.effective_limit(), options.effective_offset()),
            |row| Ok((row.get(0)?, row.get(5)?)),
        )
        .unwrap()
        .map(|row| row.unwrap())
        .collect();
    assert_eq!(rows.len(), 1);
    assert_eq!(rows[0].0, "Rust Programming");
    assert!(rows[0].1.as_ref().unwrap().contains("<mark>blazingly</mark>"));

    let plain = SearchOptions { include_snippets: false, ..SearchOptions::default() };
    let mut statement = conn.prepare(&plain.statement()).unwrap();
    let titles: Vec<String> = statement
        .query_map(
            (title_query("Guide"), plain.effective_limit(), plain.effective_offset()),
            |row| row.get(0),
        )
        .unwrap()
        .map(|row| row.unwrap())
        .collect();
    assert_eq!(titles, vec!["Python Guide"]);

    let mut statement = conn.prepare(&plain.statement()).unwrap();
    let count = statement
        .query_map(("programming", 50, 0), |row| row.get::<_, String>(0))
        .unwrap()
        .count();
    assert_eq!(count, 2);
}
