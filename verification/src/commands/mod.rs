//! What the commands of the desktop shell decide, apart from what they read
//! and write.

pub mod proxy;
pub mod request_logs;
pub mod video;

use vstd::prelude::*;

verus! {

/// One page of a list, with the length of the whole list.
#[derive(Debug, PartialEq, Eq)]
pub struct PaginatedResult<T> {
    pub items: Vec<T>,
    pub total: i64,
}

/// How many entries a page holds where the caller does not say.
pub const DEFAULT_LIMIT: i64 = 50;

/// Which part of a list a page shows.
#[derive(Clone, Copy, Debug, PartialEq, Eq, Structural)]
pub struct PageWindow {
    pub limit: i64,
    pub offset: i64,
}

/// The window that a caller asks for: 50 entries from the start, unless the
/// caller says otherwise.
pub open spec fn window_of(limit: Option<i64>, offset: Option<i64>) -> PageWindow {
    PageWindow {
        limit: match limit {
            Some(n) => n,
            None => DEFAULT_LIMIT,
        },
        offset: match offset {
            Some(n) => n,
            None => 0,
        },
    }
}

/// The window that a caller asks for.
pub fn page_window(limit: Option<i64>, offset: Option<i64>) -> (r: PageWindow)
    ensures
        r == window_of(limit, offset),
{
    PageWindow {
        limit: match limit {
            Some(n) => n,
            None => DEFAULT_LIMIT,
        },
        offset: match offset {
            Some(n) => n,
            None => 0,
        },
    }
}

/// A page of `items` out of a list of `total`.
pub fn page_of<T>(items: Vec<T>, total: i64) -> (r: PaginatedResult<T>)
    ensures
        r.items == items,
        r.total == total,
{
    PaginatedResult { items, total }
}

} // verus!
