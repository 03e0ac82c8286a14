//! Reaching a session that lies on a page not loaded yet: the pages are read
//! one after another until the session's root turns up or the query ends.
//! The caller reads each page from the index and feeds it to `step`.
use vstd::prelude::*;
use crate::delegate::{
    count_as_i64, has_key, len_as_i64, max_i64, min_i64, saturating_add, spec_next_offset,
};
use crate::model::SessionMeta;

verus! {

/// Progress of a search through the pages of the session list.
pub struct SeekProgress {
    /// Offset of the next page to read.
    pub offset: i64,
    /// Number of root sessions the query matches, as last reported.
    pub total: i64,
    /// The wanted root session was on one of the pages read.
    pub found: bool,
    /// The sessions read so far, in page order.
    pub loaded: Vec<SessionMeta>,
}

/// Whether another page must be read.
pub open spec fn spec_seek_continues(p: SeekProgress) -> bool {
    !p.found && p.offset < p.total
}

/// The progress after a page of `page_len` sessions, holding `wanted` or
/// not, was read at the current offset with `page_total` reported: an empty
/// page ends the search at the total; otherwise the offset moves past the
/// page, never beyond the total.
pub open spec fn spec_seek_after(
    offset: i64,
    found: bool,
    page_len: int,
    page_has_wanted: bool,
    page_total: i64,
) -> (i64, i64, bool) {
    let total = max_i64(page_total, 0);
    if page_len == 0 {
        (total, total, found)
    } else {
        (
            min_i64(saturating_add(offset, count_as_i64(page_len)), total),
            total,
            found || page_has_wanted,
        )
    }
}

impl SeekProgress {
    /// A search starting at the list's next offset.
    pub fn start(offset: i64, total: i64) -> (res: Self)
        ensures
            res.offset == offset,
            res.total == total,
            !res.found,
            res.loaded@.len() == 0,
    {
        SeekProgress { offset, total, found: false, loaded: Vec::new() }
    }

    /// Whether another page must be read.
    pub fn continues(&self) -> (res: bool)
        ensures
            res == spec_seek_continues(*self),
    {
        !self.found && self.offset < self.total
    }

    /// Takes in the page read at the current offset, with the total the
    /// index reported for it; returns whether another page must be read.
    pub fn step(&mut self, wanted: &String, mut page: Vec<SessionMeta>, page_total: i64) -> (more: bool)
        ensures
            ({
                let (offset, total, found) = spec_seek_after(
                    old(self).offset,
                    old(self).found,
                    page@.len() as int,
                    has_key(page@, wanted@),
                    page_total,
                );
                &&& final(self).offset == offset
                &&& final(self).total == total
                &&& final(self).found == found
                &&& final(self).loaded@ == old(self).loaded@ + page@
            }),
            more == spec_seek_continues(*final(self)),
    {
        let total = if page_total >= 0 {
            page_total
        } else {
            0
        };
        self.total = total;
        let received = len_as_i64(page.len());
        if received == 0 {
            self.offset = total;
        } else {
            let mut hit = false;
            let mut i: usize = 0;
            while i < page.len()
                invariant
                    i <= page.len(),
                    hit == exists|j: int| 0 <= j < i && #[trigger] page@[j].key@ == wanted@,
                decreases page.len() - i,
            {
                if page[i].key == *wanted {
                    hit = true;
                }
                i += 1;
            }
            self.found = self.found || hit;
            let moved = match self.offset.checked_add(received) {
                Some(v) => v,
                None => i64::MAX,
            };
            self.offset = if moved < total {
                moved
            } else {
                total
            };
            self.loaded.append(&mut page);
        }
        !self.found && self.offset < self.total
    }
}

/// Paging only moves forward: after a page is applied the next offset is
/// no smaller than before (as far as the total allows) and never past the
/// total; an empty page ends paging at the total.
pub proof fn law_paging_moves_forward(current: i64, query_offset: i64, received: int, total: i64)
    requires
        received >= 0,
    ensures
        spec_next_offset(current, query_offset, received, total) <= max_i64(total, 0),
        spec_next_offset(current, query_offset, received, total) >= min_i64(
            current,
            max_i64(total, 0),
        ),
        received == 0 ==> spec_next_offset(current, query_offset, received, total) == max_i64(
            total,
            0,
        ),
{
}

/// A search ends: each page read either ends it or moves the offset
/// forward, and the offset never passes the total.
pub proof fn law_seek_moves_forward(
    offset: i64,
    found: bool,
    page_len: int,
    page_has_wanted: bool,
    page_total: i64,
)
    requires
        page_len >= 0,
        0 <= offset < page_total,
    ensures
        ({
            let (o, t, f) = spec_seek_after(offset, found, page_len, page_has_wanted, page_total);
            &&& o <= t
            &&& (page_len == 0 ==> o == t)
            &&& (page_len > 0 ==> o > offset || o == t)
            &&& (page_has_wanted && page_len > 0 ==> f)
        }),
{
}

} // verus!
