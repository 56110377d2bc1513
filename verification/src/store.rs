//! The rows of the conversation store as the rest of the crate sees them,
//! and the cutting of a list of messages into pages.

use vstd::prelude::*;

verus! {

/// A file as the store holds it.
#[derive(Debug, Clone, PartialEq, Eq)]
pub struct FileRow {
    pub id: String,
    pub name: Option<String>,
    pub path: String,
    pub thumb_path: Option<String>,
    pub created_at: String,
}

impl FileRow {
    /// The name under which the file is listed: its own name where it has
    /// one, else `fallback`.
    pub fn display_name(&self, fallback: &str) -> (name: String)
        ensures
            name@ == match self.name {
                Some(n) => n@,
                None => fallback@,
            },
    {
        match &self.name {
            Some(n) => n.clone(),
            None => fallback.to_owned(),
        }
    }

    /// Whether a thumbnail is still to be made for the file: it has none,
    /// and the file itself is there.
    pub fn needs_thumbnail(&self, source_exists: bool) -> (r: bool)
        ensures
            r == (self.thumb_path is None && source_exists),
    {
        self.thumb_path.is_none() && source_exists
    }
}

/// A message of a conversation as the store holds it.
#[derive(Debug, Clone, PartialEq, Eq)]
pub struct MessageRow {
    pub id: String,
    pub text: String,
    pub is_user_message: bool,
    pub created_at: String,
}

/// One page of messages and, where more messages follow, the mark from
/// which the next page goes on.
#[derive(Debug, Clone, PartialEq, Eq)]
pub struct Page {
    pub messages: Vec<MessageRow>,
    pub next_cursor: Option<String>,
}

/// There are rows, and more of them than a page of `limit` messages holds.
pub open spec fn overfull(rows: Seq<MessageRow>, limit: int) -> bool {
    rows.len() > 0 && rows.len() > limit
}

/// The number of rows to fetch for a page of `limit` messages: one more,
/// which shows whether another page follows.
pub fn fetch_limit(limit: i64) -> (n: i64)
    ensures
        limit < i64::MAX ==> n == limit + 1,
        limit == i64::MAX ==> n == i64::MAX,
{
    if limit < i64::MAX {
        limit + 1
    } else {
        limit
    }
}

/// Makes a page of the fetched rows. Where there are more rows than
/// `limit`, the last one is taken off and the time of its creation is the
/// mark for the next page; otherwise all rows are the page and no page
/// follows. With at most one row more than `limit`, which is what
/// `fetch_limit` asks for, the page has at most `limit` messages.
pub fn paginate(rows: Vec<MessageRow>, limit: i64) -> (page: Page)
    ensures
        overfull(rows@, limit as int) ==> page.messages@ == rows@.drop_last() && page.next_cursor
            == Some(rows@.last().created_at),
        !overfull(rows@, limit as int) ==> page.messages@ == rows@ && page.next_cursor is None,
        0 <= limit && rows@.len() <= limit + 1 ==> page.messages@.len() <= limit,
{
    let mut rows = rows;
    let more = limit < 0 || rows.len() as u64 > limit as u64;
    if more {
        match rows.pop() {
            Some(last) => Page { messages: rows, next_cursor: Some(last.created_at) },
            None => Page { messages: rows, next_cursor: None },
        }
    } else {
        Page { messages: rows, next_cursor: None }
    }
}

} // verus!
