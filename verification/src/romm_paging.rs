//! Paging through a RomM console's games: one page request in flight at a
//! time, a restart from the first page that outdates whatever is in flight,
//! and where the next page starts.
use crate::app::{next_offset, next_romm_offset, page_is_current, romm_page_is_current};
use vstd::prelude::*;

verus! {

/// What a page of RomM results says about the paging.
#[derive(Clone, Copy, Debug, PartialEq, Eq, Structural)]
pub struct PageCount {
    /// How many records the page holds.
    pub items: u32,
    /// How many records (grouped) the scope holds in all.
    pub total: u64,
    /// Where the page starts.
    pub offset: u32,
}

/// The state of paging through the current console scope.
#[derive(Clone, Copy, Debug, PartialEq, Eq, Structural)]
pub struct RommPaging {
    /// The request whose pages count; a restart moves it on.
    pub generation: u64,
    /// A page request is in flight.
    pub loading: bool,
    /// Where the next page starts; `None` before the first page and after
    /// the last.
    pub next_offset: Option<u32>,
    /// The scope's grouped total, once a page has reported it.
    pub grouped_total: Option<u64>,
}

impl Default for RommPaging {
    fn default() -> (r: Self)
        ensures
            r == (RommPaging { generation: 0, loading: false, next_offset: None, grouped_total: None }),
    {
        RommPaging { generation: 0, loading: false, next_offset: None, grouped_total: None }
    }
}

/// The paging after a request for the page at `offset`: a later page waits
/// while one is in flight (unchanged); the first page is always asked for,
/// and starts a new generation with nothing known of the scope.
pub open spec fn requested(p: RommPaging, offset: u32) -> RommPaging {
    if offset > 0 && p.loading {
        p
    } else if offset == 0 {
        RommPaging { generation: (p.generation + 1) as u64, loading: true, next_offset: None, grouped_total: None }
    } else {
        RommPaging { loading: true, ..p }
    }
}

/// The paging after an answer from generation `generation` for
/// `platform`, with `current` the scope on screen: an outdated answer
/// changes nothing; a failure ends the request; a page records the total and
/// where the next page starts.
pub open spec fn answered(
    p: RommPaging,
    generation: u64,
    platform: Option<i64>,
    current: Option<Option<i64>>,
    result: Result<PageCount, String>,
) -> RommPaging {
    if !page_is_current(generation, p.generation, platform, current) {
        p
    } else {
        match result {
            Err(_) => RommPaging { loading: false, ..p },
            Ok(page) => RommPaging {
                loading: false,
                grouped_total: Some(page.total),
                next_offset: next_offset(page.offset, page.items, page.total),
                ..p
            },
        }
    }
}

impl RommPaging {
    /// Asks for the page at `offset`, as [`requested`] says. The generation
    /// to tag the request with comes back, or `None` when the request waits
    /// for the one in flight. On the first page the caller drops the pages
    /// it holds.
    pub fn request(&mut self, offset: u32) -> (r: Option<u64>)
        requires
            offset == 0 ==> old(self).generation < u64::MAX,
        ensures
            *final(self) == requested(*old(self), offset),
            offset > 0 && old(self).loading ==> r is None,
            !(offset > 0 && old(self).loading) ==> r == Some(final(self).generation),
    {
        if offset > 0 && self.loading {
            return None;
        }
        if offset == 0 {
            self.generation = self.generation + 1;
            self.next_offset = None;
            self.grouped_total = None;
        }
        self.loading = true;
        Some(self.generation)
    }

    /// Takes an answer to a page request, as [`answered`] says; `true` when
    /// it belongs to the screen as it is, so its records are to be shown.
    pub fn on_page(
        &mut self,
        generation: u64,
        platform: Option<i64>,
        current: Option<Option<i64>>,
        result: Result<PageCount, String>,
    ) -> (accepted: bool)
        ensures
            accepted == page_is_current(generation, old(self).generation, platform, current),
            *final(self) == answered(*old(self), generation, platform, current, result),
    {
        if !romm_page_is_current(generation, self.generation, platform, current) {
            return false;
        }
        self.loading = false;
        match result {
            Err(_) => {},
            Ok(page) => {
                self.grouped_total = Some(page.total);
                self.next_offset = next_romm_offset(page.offset, page.items, page.total);
            },
        }
        true
    }
}

/// One page request at a time: while one is in flight, asking for a later
/// page changes nothing and sends nothing.
pub proof fn one_page_request_in_flight(p: RommPaging, offset: u32)
    requires
        p.loading,
        offset > 0,
    ensures
        requested(p, offset) == p,
{
}

/// Restarting from the first page outdates the request in flight: its
/// answer, whatever it holds, is dropped.
pub proof fn a_restart_drops_the_page_in_flight(
    p: RommPaging,
    platform: Option<i64>,
    current: Option<Option<i64>>,
    result: Result<PageCount, String>,
)
    requires
        p.generation < u64::MAX,
    ensures
        ({
            let restarted = requested(p, 0);
            answered(restarted, p.generation, platform, current, result) == restarted
        }),
{
}

} // verus!
