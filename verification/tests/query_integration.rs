use ora_core::domain::LocalNote;
use ora_core::error::OraError;
use ora_core::search::{content_query, suggestion_limit, title_query, SearchOptions};
use ora_core::watcher::index::IndexedNote;
use rusqlite::Connection;

/// One match of a search.
struct Match {
    note: IndexedNote,
    snippet_content: Option<String>,
}

/// An index with its full-text table in an SQLite database in memory, and
/// the searches that are put to it.
struct Searchable {
    conn: Connection,
}

impl Searchable {
    fn new() -> Result<Searchable, OraError> {
        let conn = Connection::open_in_memory()?;
        conn.execute_batch(
            "CREATE TABLE IF NOT EXISTS notes (
                id INTEGER PRIMARY KEY AUTOINCREMENT,
                title TEXT NOT NULL,
                content TEXT NOT NULL DEFAULT '',
                path TEXT UNIQUE NOT NULL,
                created_at DATETIME DEFAULT CURRENT_TIMESTAMP,
                updated_at DATETIME DEFAULT CURRENT_TIMESTAMP
            );
            CREATE VIRTUAL TABLE IF NOT EXISTS contents
                USING fts5(title, content, content='notes', content_rowid='id');
            CREATE TRIGGER IF NOT EXISTS notes_ai AFTER INSERT ON notes BEGIN
                INSERT INTO contents(rowid, title, content)
                VALUES (new.id, new.title, new.content);
            END;
            CREATE TRIGGER IF NOT EXISTS notes_ad AFTER DELETE ON notes BEGIN
                INSERT INTO contents(contents, rowid, title, content)
                VALUES('delete', old.id, old.title, old.content);
            END;
            CREATE TRIGGER IF NOT EXISTS notes_au AFTER UPDATE ON notes BEGIN
                INSERT INTO contents(contents, rowid, title, content)
                VALUES('delete', old.id, old.title, old.content);
                INSERT INTO contents(rowid, title, content)
                VALUES (new.id, new.title, new.content);
            END;",
        )?;
        Ok(Searchable { conn })
    }

    /// Makes a note and puts it into the index.
    fn add(&self, title: &str, content: &str) -> Result<LocalNote, OraError> {
        let note = LocalNote::create(title, content, "/shelf", &Vec::new());
        let entry = IndexedNote::of(&note);
        self.conn.execute(
            "INSERT OR REPLACE INTO notes (title, content, path, updated_at)
             VALUES (?, ?, ?, CURRENT_TIMESTAMP)",
            (&entry.title, &entry.content, &entry.path),
        )?;
        Ok(note)
    }

    fn search(&self, query: &str) -> Result<Vec<Match>, OraError> {
        self.search_with_options(query, &SearchOptions::default())
    }

    fn search_with_options(
        &self,
        query: &str,
        options: &SearchOptions,
    ) -> Result<Vec<Match>, OraError> {
        let mut statement = self.conn.prepare(&options.statement())?;
        let rows = statement.query_map(
            (query, options.effective_limit(), options.effective_offset()),
            |row| {
                let snippet_content: Option<String> =
                    if options.include_snippets { row.get(5).ok() } else { None };
                Ok(Match {
                    note: IndexedNote {
                        title: row.get(0)?,
                        content: row.get(1)?,
                        path: row.get(2)?,
                    },
                    snippet_content,
                })
            },
        )?;
        let mut results = Vec::new();
        for row in rows {
            results.push(row?);
        }
        Ok(results)
    }

    fn search_title(&self, query: &str) -> Result<Vec<Match>, OraError> {
        self.search_with_options(&title_query(query), &SearchOptions::default())
    }

    fn search_content(&self, query: &str) -> Result<Vec<Match>, OraError> {
        self.search_with_options(&content_query(query), &SearchOptions::default())
    }

    fn count_results(&self, query: &str) -> Result<u64, OraError> {
        let count: i64 = self.conn.query_row(
            "SELECT COUNT(*) as count FROM contents WHERE contents MATCH ?",
            (query,),
            |row| row.get(0),
        )?;
        Ok(count as u64)
    }

    fn suggest(&self, prefix: &str, limit: Option<u32>) -> Result<Vec<String>, OraError> {
        let mut statement = self.conn.prepare(
            "SELECT DISTINCT title FROM notes WHERE title LIKE ? || '%' ORDER BY title LIMIT ?",
        )?;
        let rows = statement.query_map((prefix, suggestion_limit(limit)), |row| row.get(0))?;
        let mut suggestions = Vec::new();
        for row in rows {
            suggestions.push(row?);
        }
        Ok(suggestions)
    }
}

#[test]
fn basic_search_returns_matching_notes() -> Result<(), OraError> {
    let query = Searchable::new()?;

    // Create and index test notes
    query.add("Rust Programming", "Learn about Rust language features")?;
    query.add("Python Guide", "Python programming tutorial")?;
    query.add("JavaScript Tips", "Advanced JavaScript techniques")?;

    // Search for "Rust"
    let results = query.search("Rust")?;
    assert_eq!(results.len(), 1);
    assert_eq!(results[0].note.title, "Rust Programming");
    assert!(results[0].note.content.contains("Rust"));

    // Search for "programming"
    let results = query.search("programming")?;
    assert_eq!(results.len(), 2); // Should match Rust and Python notes

    Ok(())
}

#[test]
fn title_only_search() -> Result<(), OraError> {
    let query = Searchable::new()?;

    // Create notes with "Guide" in content but not title
    query.add("Rust Book", "This is a comprehensive guide to Rust")?;
    query.add("Python Guide", "Learn Python programming")?;

    // Search titles for "Guide"
    let results = query.search_title("Guide")?;
    assert_eq!(results.len(), 1);
    assert_eq!(results[0].note.title, "Python Guide");

    Ok(())
}

#[test]
fn content_only_search() -> Result<(), OraError> {
    let query = Searchable::new()?;

    // Create notes
    query.add("Rust", "This is about comprehensive learning")?;
    query.add("Python", "Python programming tutorial")?;

    // Search content for "comprehensive"
    let results = query.search_content("comprehensive")?;
    assert_eq!(results.len(), 1);
    assert_eq!(results[0].note.title, "Rust");

    Ok(())
}

#[test]
fn search_with_pagination() -> Result<(), OraError> {
    let query = Searchable::new()?;

    // Create multiple notes
    for i in 1..=10 {
        query.add(&format!("Note {}", i), &format!("Content for note number {}", i))?;
    }

    // Get first page
    let options = SearchOptions {
        limit: Some(3),
        offset: Some(0),
        include_snippets: false,
        snippet_length: 100,
    };
    let page1 = query.search_with_options("Note", &options)?;
    assert_eq!(page1.len(), 3);

    // Get second page
    let options = SearchOptions {
        limit: Some(3),
        offset: Some(3),
        include_snippets: false,
        snippet_length: 100,
    };
    let page2 = query.search_with_options("Note", &options)?;
    assert_eq!(page2.len(), 3);

    // Ensure different results
    let page1_titles: Vec<_> = page1.iter().map(|r| &r.note.title).collect();
    let page2_titles: Vec<_> = page2.iter().map(|r| &r.note.title).collect();
    assert!(!page1_titles.iter().any(|t| page2_titles.contains(t)));

    Ok(())
}

#[test]
fn search_with_snippets() -> Result<(), OraError> {
    let query = Searchable::new()?;

    query.add(
        "Rust Programming",
        "Rust is a systems programming language that runs blazingly fast",
    )?;

    // Search with snippets
    let options = SearchOptions {
        limit: Some(10),
        offset: Some(0),
        include_snippets: true,
        snippet_length: 50,
    };
    let results = query.search_with_options("blazingly", &options)?;
    assert_eq!(results.len(), 1);

    let result = &results[0];
    assert!(result.snippet_content.is_some());
    assert!(result.snippet_content.as_ref().unwrap().contains("<mark>blazingly</mark>"));

    Ok(())
}

#[test]
fn count_search_results() -> Result<(), OraError> {
    let query = Searchable::new()?;

    // Create notes with "programming" in them
    query.add("Rust Programming", "Learn Rust programming")?;
    query.add("Python Programming", "Python programming guide")?;
    query.add("JavaScript", "Web development")?;

    let count = query.count_results("programming")?;
    assert_eq!(count, 2);

    let count = query.count_results("JavaScript")?;
    assert_eq!(count, 1);

    let count = query.count_results("nonexistent")?;
    assert_eq!(count, 0);

    Ok(())
}

#[test]
fn suggest_titles() -> Result<(), OraError> {
    let query = Searchable::new()?;

    // Create notes with similar titles
    query.add("Rust Programming", "Learn Rust")?;
    query.add("Rust Guide", "Rust tutorial")?;
    query.add("Python Programming", "Learn Python")?;

    let suggestions = query.suggest("Rust", Some(10))?;
    assert_eq!(suggestions.len(), 2);
    assert!(suggestions.contains(&"Rust Programming".to_string()));
    assert!(suggestions.contains(&"Rust Guide".to_string()));

    let suggestions = query.suggest("Py", Some(10))?;
    assert_eq!(suggestions.len(), 1);
    assert_eq!(suggestions[0], "Python Programming");

    Ok(())
}

#[test]
fn advanced_fts5_queries() -> Result<(), OraError> {
    let query = Searchable::new()?;

    // Create test notes
    query.add("Rust Programming", "Learn about Rust and memory safety")?;
    query.add("Python Guide", "Python programming and data science")?;
    query.add("Systems Programming", "Low-level programming in C and Rust")?;

    // Boolean AND query
    let results = query.search("Rust AND programming")?;
    assert!(results.len() >= 1);

    // OR query
    let results = query.search("Rust OR Python")?;
    assert!(results.len() >= 2); // Should find at least Rust and Python notes

    // NOT query
    let results = query.search("programming NOT Python")?;
    assert!(results.len() >= 1); // Should find at least Rust Programming, possibly others

    Ok(())
}

#[test]
fn empty_search_returns_no_results() -> Result<(), OraError> {
    let query = Searchable::new()?;

    // Create a note
    query.add("Test Note", "Some content")?;

    // Search for non-existent term
    let results = query.search("nonexistentterm12345")?;
    assert_eq!(results.len(), 0);

    let count = query.count_results("nonexistentterm12345")?;
    assert_eq!(count, 0);

    Ok(())
}

#[test]
fn an_unset_limit_asks_for_fifty() {
    let query = Searchable::new().unwrap();
    for i in 1..=60 {
        query.add(&format!("Entry {}", i), "same words everywhere").unwrap();
    }
    let open = SearchOptions { limit: None, offset: None, include_snippets: false, snippet_length: 10 };
    assert_eq!(query.search_with_options("words", &open).unwrap().len(), 50);
    assert_eq!(query.search("words").unwrap().len(), 50);
    let rest = SearchOptions { limit: None, offset: Some(50), ..open.clone() };
    assert_eq!(query.search_with_options("words", &rest).unwrap().len(), 10);
    assert_eq!(query.suggest("Entry", None).unwrap().len(), 10);
    assert_eq!(query.suggest("Entry 6", Some(50)).unwrap(), vec!["Entry 6", "Entry 60"]);
}
