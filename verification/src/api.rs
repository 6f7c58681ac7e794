//! Paging and filtering of album listings.
use vstd::prelude::*;

verus! {

/// Photos per page when the request names no limit.
pub const DEFAULT_ALBUM_PAGE_SIZE: usize = 60;

/// The most photos a page may hold.
pub const MAX_ALBUM_PAGE_SIZE: usize = 120;

/// The query of an album listing or album page.
#[derive(Debug, Clone, Default, PartialEq, Eq)]
pub struct AlbumListQuery {
    pub offset: usize,
    pub limit: Option<usize>,
    pub person: Option<String>,
    pub from: Option<String>,
    pub to: Option<String>,
}

/// What the timeline store filters albums by.
#[derive(Debug, Clone, Default, PartialEq, Eq)]
pub struct TimelineFilter {
    pub person: Option<String>,
    pub from: Option<String>,
    pub to: Option<String>,
}

/// The page size a query asks for, clamped to `1..=120`, 60 when it names none.
pub open spec fn page_limit_spec(limit: Option<usize>) -> nat {
    let l = match limit {
        Some(l) => l as nat,
        None => DEFAULT_ALBUM_PAGE_SIZE as nat,
    };
    if l < 1 {
        1
    } else if l > MAX_ALBUM_PAGE_SIZE {
        MAX_ALBUM_PAGE_SIZE as nat
    } else {
        l
    }
}

fn copy_opt(o: &Option<String>) -> (r: Option<String>)
    ensures
        r == *o,
{
    match o {
        Some(s) => Some(s.clone()),
        None => None,
    }
}

impl AlbumListQuery {
    /// The page size.
    pub fn limit(&self) -> (r: usize)
        ensures
            r == page_limit_spec(self.limit),
    {
        let l = match self.limit {
            Some(l) => l,
            None => DEFAULT_ALBUM_PAGE_SIZE,
        };
        if l < 1 {
            1
        } else if l > MAX_ALBUM_PAGE_SIZE {
            MAX_ALBUM_PAGE_SIZE
        } else {
            l
        }
    }

    /// The store filter the query carries.
    pub fn filter(&self) -> (r: TimelineFilter)
        ensures
            r.person == self.person,
            r.from == self.from,
            r.to == self.to,
    {
        TimelineFilter {
            person: copy_opt(&self.person),
            from: copy_opt(&self.from),
            to: copy_opt(&self.to),
        }
    }
}

/// The positions `start..end` of the page that skips `offset` of `len` items and takes
/// at most `limit`.
pub open spec fn page_bounds_spec(len: nat, offset: nat, limit: nat) -> (nat, nat) {
    let start = if offset < len {
        offset
    } else {
        len
    };
    let end = if start + limit < len {
        start + limit
    } else {
        len
    };
    (start, end)
}

/// The bounds of a page of `len` items (`skip(offset).take(limit)`).
pub fn page_bounds(len: usize, offset: usize, limit: usize) -> (r: (usize, usize))
    ensures
        (r.0 as nat, r.1 as nat) == page_bounds_spec(len as nat, offset as nat, limit as nat),
        r.0 <= r.1 <= len,
        r.1 - r.0 <= limit,
{
    let start = if offset < len {
        offset
    } else {
        len
    };
    let end = if limit < len - start {
        start + limit
    } else {
        len
    };
    (start, end)
}

} // verus!
