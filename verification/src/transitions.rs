//! Page and tab changes as the screen animates them: a page change fades
//! from the page that was showing and is dropped once it has run its
//! course; a tab change slides toward the tab's side of the strip, puts the
//! tab in place under cover halfway, and is dropped at its end. Times are
//! milliseconds on a monotonic clock.
use crate::app::tab_position;
use crate::pages::Page;
use vstd::prelude::*;

verus! {

/// How long a page change fades, in milliseconds.
pub const PAGE_TRANSITION_MS: u64 = 320;

/// How long a tab change slides, in milliseconds.
pub const TAB_TRANSITION_MS: u64 = 240;

/// A page change in flight: the page it fades from, and when it started.
#[derive(Clone, Copy, Debug, PartialEq, Eq, Structural)]
pub struct PageAnimation {
    pub from: Page,
    pub started_at: u64,
}

/// The page showing, and the change into it while one is in flight.
#[derive(Clone, Copy, Debug, PartialEq, Eq, Structural)]
pub struct PageState {
    pub page: Page,
    pub animation: Option<PageAnimation>,
}

impl Default for PageState {
    /// The dashboard, still.
    fn default() -> (r: Self)
        ensures
            r == (PageState { page: Page::Dashboard, animation: None }),
    {
        PageState { page: Page::Dashboard, animation: None }
    }
}

/// `now - then`, or 0 when `then` is later.
pub open spec fn elapsed(then: u64, now: u64) -> int {
    if now >= then {
        now - then
    } else {
        0
    }
}

/// The pages after showing page `to` at `now`: a change of page fades from
/// the page that was showing; the page already showing snaps.
pub open spec fn switched(p: PageState, to: Page, now: u64) -> PageState {
    if p.page == to {
        PageState { page: to, animation: None }
    } else {
        PageState { page: to, animation: Some(PageAnimation { from: p.page, started_at: now }) }
    }
}

/// The pages after a frame at `now`, and whether the details screen is to
/// be dropped: a change that has run its course is dropped, and with it the
/// details screen unless the change ended on it.
pub open spec fn expired(p: PageState, now: u64) -> (PageState, bool) {
    match p.animation {
        Some(a) => if elapsed(a.started_at, now) < PAGE_TRANSITION_MS {
            (p, false)
        } else {
            (PageState { page: p.page, animation: None }, p.page != Page::Details)
        },
        None => (p, false),
    }
}

impl PageState {
    /// Shows page `to` at `now`: a change of page fades from the page that
    /// was showing; the page already showing snaps, dropping any fade.
    pub fn switch_page(&mut self, to: Page, now: u64)
        ensures
            *final(self) == switched(*old(self), to, now),
            old(self).page == to ==> *final(self) == (PageState { page: to, animation: None }),
            old(self).page != to ==> *final(self) == (PageState {
                page: to,
                animation: Some(PageAnimation { from: old(self).page, started_at: now }),
            }),
    {
        if self.page == to {
            self.animation = None;
            return;
        }
        let from = self.page;
        self.page = to;
        self.animation = Some(PageAnimation { from, started_at: now });
    }

    /// Drops a page change that has run its course at `now`, so none
    /// outlives [`PAGE_TRANSITION_MS`]. Says whether the details screen,
    /// kept alive under the fade, is to be dropped too: when the change ends
    /// anywhere but on it.
    pub fn expire(&mut self, now: u64) -> (drop_details: bool)
        ensures
            (*final(self), drop_details) == expired(*old(self), now),
            match old(self).animation {
                Some(a) => if elapsed(a.started_at, now) < PAGE_TRANSITION_MS {
                    *final(self) == *old(self) && !drop_details
                } else {
                    *final(self) == (PageState { page: old(self).page, animation: None }) && drop_details == (
                    old(self).page != Page::Details)
                },
                None => *final(self) == *old(self) && !drop_details,
            },
    {
        let started_at = match self.animation {
            Some(a) => a.started_at,
            None => {
                return false;
            },
        };
        let gone = if now >= started_at {
            now - started_at
        } else {
            0
        };
        if gone < PAGE_TRANSITION_MS {
            return false;
        }
        self.animation = None;
        self.page != Page::Details
    }
}

/// What selecting a tab does.
#[derive(Clone, Copy, Debug, PartialEq, Eq, Structural)]
pub enum TabChange {
    /// The tab already selected: refresh it, without a slide.
    Refresh(Option<usize>),
    /// Slide toward `target`: rightward (`1`) when it sits at or right of the
    /// tab selected, leftward (`-1`) otherwise.
    Slide { target: Option<usize>, direction: i8 },
}

/// A tab's place in the strip, the "all" tab first.
pub open spec fn strip_place(group: Option<usize>) -> int {
    match group {
        Some(i) => i + 1,
        None => 0,
    }
}

/// What selecting tab `target` does while `current` is selected: the tab
/// already selected refreshes; another slides toward its side of the strip.
pub open spec fn tab_change_of(current: Option<usize>, target: Option<usize>) -> TabChange {
    if current == target {
        TabChange::Refresh(target)
    } else {
        TabChange::Slide {
            target,
            direction: if strip_place(target) >= strip_place(current) {
                1i8
            } else {
                -1i8
            },
        }
    }
}

/// What selecting tab `target` does while `current` is selected.
pub fn select_tab(current: Option<usize>, target: Option<usize>) -> (r: TabChange)
    requires
        current matches Some(i) ==> i < i32::MAX,
        target matches Some(i) ==> i < i32::MAX,
    ensures
        r == tab_change_of(current, target),
        current == target ==> r == TabChange::Refresh(target),
        current != target ==> r == (TabChange::Slide {
            target,
            direction: if strip_place(target) >= strip_place(current) {
                1i8
            } else {
                -1i8
            },
        }),
{
    if current == target {
        return TabChange::Refresh(target);
    }
    let from = tab_position(current);
    let to = tab_position(target);
    TabChange::Slide {
        target,
        direction: if to >= from {
            1
        } else {
            -1
        },
    }
}

/// A tab change in flight: the tab it slides to, when it started, which way
/// it slides, and whether the tab has been put in place yet.
#[derive(Clone, Copy, Debug, PartialEq, Eq, Structural)]
pub struct TabSlide {
    pub target: Option<usize>,
    pub started_at: u64,
    pub direction: i8,
    pub swapped: bool,
}

impl TabSlide {
    /// A slide toward `target` in `direction`, starting at `now`.
    pub fn begin(target: Option<usize>, direction: i8, now: u64) -> (r: Self)
        ensures
            r == (TabSlide { target, started_at: now, direction, swapped: false }),
    {
        TabSlide { target, started_at: now, direction, swapped: false }
    }
}

/// What a frame of a tab slide does.
#[derive(Clone, Copy, Debug, PartialEq, Eq, Structural)]
pub enum SlideStep {
    Nothing,
    /// Put this tab in place: the cover is opaque.
    Swap(Option<usize>),
    /// The slide has run its course and is dropped.
    Clear,
}

/// A frame at `now` of `slide`: past its length it is dropped; from its
/// midpoint on (the eased progress passes one half exactly when half the
/// time has) its tab is put in place, once; otherwise nothing happens.
pub open spec fn slide_step(slide: Option<TabSlide>, now: u64) -> (Option<TabSlide>, SlideStep) {
    match slide {
        None => (None, SlideStep::Nothing),
        Some(a) => if elapsed(a.started_at, now) >= TAB_TRANSITION_MS {
            (None, SlideStep::Clear)
        } else if 2 * elapsed(a.started_at, now) >= TAB_TRANSITION_MS && !a.swapped {
            (Some(TabSlide { swapped: true, ..a }), SlideStep::Swap(a.target))
        } else {
            (slide, SlideStep::Nothing)
        },
    }
}

/// Drives `slide` at `now`, as [`slide_step`] says.
pub fn advance_tab_slide(slide: &mut Option<TabSlide>, now: u64) -> (r: SlideStep)
    ensures
        (*final(slide), r) == slide_step(*old(slide), now),
{
    let a = match *slide {
        Some(a) => a,
        None => {
            return SlideStep::Nothing;
        },
    };
    let gone = if now >= a.started_at {
        now - a.started_at
    } else {
        0
    };
    if gone >= TAB_TRANSITION_MS {
        *slide = None;
        return SlideStep::Clear;
    }
    if gone >= TAB_TRANSITION_MS - gone && !a.swapped {
        *slide = Some(TabSlide { swapped: true, ..a });
        return SlideStep::Swap(a.target);
    }
    SlideStep::Nothing
}

/// A slide puts its tab in place once: a slide that has done so never does
/// again, and none outlives its length.
pub proof fn a_slide_swaps_once_then_clears(a: TabSlide, now: u64)
    ensures
        a.swapped ==> !(slide_step(Some(a), now).1 is Swap),
        slide_step(Some(a), now).1 is Swap ==> slide_step(slide_step(Some(a), now).0, now).1 is Nothing,
        elapsed(a.started_at, now) >= TAB_TRANSITION_MS ==> slide_step(Some(a), now) == (
        None::<TabSlide>,
        SlideStep::Clear,
        ),
{
}

} // verus!
