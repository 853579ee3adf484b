//! What a search asks of the index before the index is asked: how many
//! results, from where on, and in which field.

use vstd::prelude::*;
use vstd::string::*;
use crate::text::{decimal, push_decimal};

verus! {

/// How a search is to be answered.
#[derive(Debug, Clone)]
pub struct SearchOptions {
    /// At most this many results; `None` stands for 50.
    pub limit: Option<u32>,
    /// This many results are passed over first; `None` stands for 0.
    pub offset: Option<u32>,
    /// Whether each result comes with marked excerpts of its title and text.
    pub include_snippets: bool,
    /// How long an excerpt may be.
    pub snippet_length: u32,
}

// The statement of a search.

/// The search statement up to the length of the title excerpt.
pub const SNIPPET_HEAD: &'static str =
    "SELECT n.title, n.content, n.path, bm25(contents) AS rank, snippet(contents, 0, '<mark>', '</mark>', '...', ";

/// The search statement between the lengths of the two excerpts.
pub const SNIPPET_MIDDLE: &'static str =
    ") AS title_snippet, snippet(contents, 1, '<mark>', '</mark>', '...', ";

/// The search statement behind the length of the text excerpt.
pub const SNIPPET_TAIL: &'static str =
    ") AS content_snippet FROM contents JOIN notes n ON n.id = contents.rowid WHERE contents MATCH ? ORDER BY rank LIMIT ? OFFSET ?";

/// The search statement that asks for no excerpts.
pub const PLAIN_SEARCH: &'static str =
    "SELECT n.title, n.content, n.path, bm25(contents) AS rank FROM contents JOIN notes n ON n.id = contents.rowid WHERE contents MATCH ? ORDER BY rank LIMIT ? OFFSET ?";

/// The statement that a search with the given options puts to the index: it
/// takes the query, the limit and the offset, in this order, and gives the
/// best matches first. With excerpts, the excerpt length stands in it twice.
pub open spec fn search_statement(options: SearchOptions) -> Seq<char> {
    if options.include_snippets {
        SNIPPET_HEAD@ + decimal(options.snippet_length as nat) + SNIPPET_MIDDLE@ + decimal(
            options.snippet_length as nat,
        ) + SNIPPET_TAIL@
    } else {
        PLAIN_SEARCH@
    }
}

/// The field prefix that keeps a query to the titles.
pub open spec fn title_prefix() -> Seq<char> {
    seq!['t', 'i', 't', 'l', 'e', ':']
}

/// The field prefix that keeps a query to the texts.
pub open spec fn content_prefix() -> Seq<char> {
    seq!['c', 'o', 'n', 't', 'e', 'n', 't', ':']
}

// The operations.

impl Default for SearchOptions {
    /// Fifty results from the first on, with excerpts of up to 100.
    fn default() -> (r: Self)
        ensures
            r == (SearchOptions {
                limit: Some(50u32),
                offset: Some(0u32),
                include_snippets: true,
                snippet_length: 100,
            }),
    {
        SearchOptions { limit: Some(50), offset: Some(0), include_snippets: true, snippet_length: 100 }
    }
}

impl SearchOptions {
    /// The number of results asked for: `limit`, or 50 where none is set.
    pub fn effective_limit(&self) -> (r: u32)
        ensures
            r == match self.limit {
                Some(n) => n,
                None => 50u32,
            },
    {
        match self.limit {
            Some(n) => n,
            None => 50,
        }
    }

    /// The statement that a search with these options puts to the index.
    pub fn statement(&self) -> (r: String)
        ensures
            r@ == search_statement(*self),
    {
        if self.include_snippets {
            let mut out = String::from_str(SNIPPET_HEAD);
            push_decimal(&mut out, self.snippet_length as u64);
            out.append(SNIPPET_MIDDLE);
            push_decimal(&mut out, self.snippet_length as u64);
            out.append(SNIPPET_TAIL);
            out
        } else {
            String::from_str(PLAIN_SEARCH)
        }
    }

    /// The number of results passed over: `offset`, or 0 where none is set.
    pub fn effective_offset(&self) -> (r: u32)
        ensures
            r == match self.offset {
                Some(n) => n,
                None => 0u32,
            },
    {
        match self.offset {
            Some(n) => n,
            None => 0,
        }
    }
}

/// The number of title suggestions asked for: `limit`, or 10 where none is
/// given.
pub fn suggestion_limit(limit: Option<u32>) -> (r: u32)
    ensures
        r == match limit {
            Some(n) => n,
            None => 10u32,
        },
{
    match limit {
        Some(n) => n,
        None => 10,
    }
}

/// `query` kept to the titles of the notes.
pub fn title_query(query: &str) -> (r: String)
    ensures
        r@ == title_prefix() + query@,
{
    proof {
        reveal_strlit("title:");
    }
    let mut out = String::from_str("title:");
    assert(out@ =~= title_prefix());
    out.append(query);
    out
}

/// `query` kept to the texts of the notes.
pub fn content_query(query: &str) -> (r: String)
    ensures
        r@ == content_prefix() + query@,
{
    proof {
        reveal_strlit("content:");
    }
    let mut out = String::from_str("content:");
    assert(out@ =~= content_prefix());
    out.append(query);
    out
}

} // verus!
