//! What a launched app's window is expected to be called, so that the window
//! can be recognised when the compositor reports it and taken fullscreen.
//!
//! A Wayland window's app id is whatever the app sets: for a `.desktop` launch
//! usually the file's own name, or the entry's `StartupWMClass` where it declares
//! one. A web app handed to a browser reports the browser's id, and only its
//! title names the page, so the entry's name is a candidate too, when it is long
//! enough not to be a word inside unrelated titles.
use crate::app_group::strs;
use crate::text::{
    chars_equal, chars_of, contains_chars, contains_seq, lowercase, string_from_chars, to_lowercase,
    to_owned_string, trim_chars, trim_end_matches_chars, trim_end_matches_seq, trim_seq, trim_str,
};
use vstd::prelude::*;

verus! {

/// Shortest app name worth matching against a window title. Below this the
/// name is as likely to be a word inside an unrelated window's title as the
/// app's own name.
pub const MIN_TITLE_CANDIDATE: usize = 4;

/// `cs` with `c` added at the end, unless `c` is empty or already there.
pub open spec fn push_candidate(cs: Seq<Seq<char>>, c: Seq<char>) -> Seq<Seq<char>> {
    if c.len() == 0 || cs.contains(c) {
        cs
    } else {
        cs.push(c)
    }
}

/// The characters of an optional string.
pub open spec fn opt_chars(o: Option<&str>) -> Option<Seq<char>> {
    match o {
        Some(s) => Some(s@),
        None => None,
    }
}

/// The id candidate: the entry id without its `.desktop` suffixes, trimmed and
/// lowercased.
pub open spec fn id_candidate(id: Seq<char>) -> Seq<char> {
    lowercase(trim_seq(trim_end_matches_seq(id, ".desktop"@)))
}

/// The names a window of the entry `id`, `name`, `wm_class` may report, in the
/// order they are tried: the id, the trimmed window class when it is not
/// blank, and the trimmed name when it has at least `MIN_TITLE_CANDIDATE`
/// characters; each lowercased, none empty and none twice.
pub open spec fn hint_candidates(
    id: Seq<char>,
    name: Seq<char>,
    wm_class: Option<Seq<char>>,
) -> Seq<Seq<char>> {
    let from_id = push_candidate(seq![], id_candidate(id));
    let from_class = if wm_class is Some && trim_seq(wm_class->0).len() > 0 {
        push_candidate(from_id, lowercase(trim_seq(wm_class->0)))
    } else {
        from_id
    };
    let lowered_name = lowercase(trim_seq(name));
    if lowered_name.len() >= MIN_TITLE_CANDIDATE {
        push_candidate(from_class, lowered_name)
    } else {
        from_class
    }
}

/// A candidate fits a window whose app id or title is not empty and,
/// lowercased, equals or contains it.
pub open spec fn candidate_fits(c: Seq<char>, app_id: Seq<char>, title: Seq<char>) -> bool {
    ||| app_id.len() > 0 && (lowercase(app_id) == c || contains_seq(lowercase(app_id), c))
    ||| title.len() > 0 && (lowercase(title) == c || contains_seq(lowercase(title), c))
}

/// Some candidate fits the window with this app id and title, both compared
/// lowercased.
pub open spec fn window_matches(cs: Seq<Seq<char>>, app_id: Seq<char>, title: Seq<char>) -> bool {
    exists|k: int|
        0 <= k < cs.len() && #[trigger] candidate_fits(cs[k], app_id, title)
}

/// No candidate is empty and none occurs twice.
pub open spec fn distinct_nonempty(cs: Seq<Seq<char>>) -> bool {
    &&& forall|k: int| 0 <= k < cs.len() ==> #[trigger] cs[k].len() > 0
    &&& forall|j: int, k: int| 0 <= j < k < cs.len() ==> cs[j] != cs[k]
}

/// Adding a candidate keeps the candidates distinct and non-empty.
pub proof fn push_candidate_keeps_them_distinct(cs: Seq<Seq<char>>, c: Seq<char>)
    requires
        distinct_nonempty(cs),
    ensures
        distinct_nonempty(push_candidate(cs, c)),
{
    if !(c.len() == 0 || cs.contains(c)) {
        let r = cs.push(c);
        assert forall|j: int, k: int| 0 <= j < k < r.len() implies r[j] != r[k] by {
            if k == cs.len() {
                assert(cs[j] == r[j]);
                if r[j] == r[k] {
                    assert(cs.contains(c));
                }
            }
        }
    }
}

/// The window names a launch is expected to produce.
#[derive(Clone, Debug)]
pub struct WindowHint {
    /// Lowercased strings the window's app id or title may equal or contain.
    candidates: Vec<String>,
    /// What to call this in a log line.
    label: String,
}

/// Adds `c` to `cs` unless it is empty or already there.
fn push_candidate_to(cs: &mut Vec<String>, c: &Vec<char>)
    ensures
        strs(final(cs)@) == push_candidate(strs(old(cs)@), c@),
{
    if c.len() == 0 {
        return;
    }
    let mut i: usize = 0;
    while i < cs.len()
        invariant
            i <= cs@.len(),
            forall|k: int| 0 <= k < i ==> #[trigger] cs@[k]@ != c@,
        decreases cs@.len() - i,
    {
        if chars_equal(&chars_of(cs[i].as_str()), c) {
            assert(strs(cs@)[i as int] == c@);
            return;
        }
        i = i + 1;
    }
    assert(!strs(cs@).contains(c@)) by {
        if strs(cs@).contains(c@) {
            let k = choose|k: int| 0 <= k < strs(cs@).len() && strs(cs@)[k] == c@;
            assert(cs@[k]@ == c@);
        }
    }
    let ghost before = cs@;
    cs.push(string_from_chars(c));
    assert(strs(cs@) =~= strs(before).push(c@));
}

/// The lowercase of the characters `v`.
fn lowercase_chars(v: &Vec<char>) -> (r: Vec<char>)
    ensures
        r@ == lowercase(v@),
{
    chars_of(to_lowercase(string_from_chars(v).as_str()).as_str())
}

impl WindowHint {
    /// The candidates, in the order they were added.
    pub closed spec fn candidates(&self) -> Seq<Seq<char>> {
        strs(self.candidates@)
    }

    /// The name this hint goes by in the log.
    pub closed spec fn label(&self) -> Seq<char> {
        self.label@
    }

    /// Names a window from the entry that launched it.
    ///
    /// The entry id is the first candidate, the declared window class the
    /// second, and the entry's name the last, and the only one that works for a
    /// web app: that window belongs to the browser, and only its title says
    /// which page it is.
    pub fn for_entry(id: &str, name: &str, wm_class: Option<&str>) -> (r: Self)
        ensures
            r.candidates() == hint_candidates(id@, name@, opt_chars(wm_class)),
            distinct_nonempty(r.candidates()),
            r.label() == id@,
    {
        let mut candidates: Vec<String> = Vec::new();
        let suffix = chars_of(".desktop");
        let stem = trim_chars(&trim_end_matches_chars(&chars_of(id), &suffix));
        push_candidate_to(&mut candidates, &lowercase_chars(&stem));
        proof {
            assert(strs(Seq::<String>::empty()) =~= Seq::<Seq<char>>::empty());
            push_candidate_keeps_them_distinct(seq![], id_candidate(id@));
        }
        match wm_class {
            Some(w) => {
                let trimmed = trim_str(w);
                if trimmed.unicode_len() > 0 {
                    let ghost before = strs(candidates@);
                    push_candidate_to(&mut candidates, &lowercase_chars(&chars_of(trimmed.as_str())));
                    proof {
                        push_candidate_keeps_them_distinct(before, lowercase(trim_seq(w@)));
                    }
                }
            },
            None => {},
        }
        let lowered_name = lowercase_chars(&trim_chars(&chars_of(name)));
        if lowered_name.len() >= MIN_TITLE_CANDIDATE {
            let ghost before = strs(candidates@);
            push_candidate_to(&mut candidates, &lowered_name);
            proof {
                push_candidate_keeps_them_distinct(before, lowered_name@);
            }
        }
        WindowHint { candidates, label: to_owned_string(id) }
    }

    /// Whether the window with this app id and title belongs to the app the
    /// hint describes.
    pub fn matches(&self, app_id: &str, title: &str) -> (r: bool)
        ensures
            r == window_matches(self.candidates(), app_id@, title@),
    {
        let app = chars_of(to_lowercase(app_id).as_str());
        let heading = chars_of(to_lowercase(title).as_str());
        let mut i: usize = 0;
        while i < self.candidates.len()
            invariant
                i <= self.candidates@.len(),
                app@ == lowercase(app_id@),
                heading@ == lowercase(title@),
                app@.len() == 0 <==> app_id@.len() == 0,
                heading@.len() == 0 <==> title@.len() == 0,
                forall|k: int|
                    0 <= k < i ==> !#[trigger] candidate_fits(strs(self.candidates@)[k], app_id@, title@),
            decreases self.candidates@.len() - i,
        {
            let c = chars_of(self.candidates[i].as_str());
            let fits = (app.len() > 0 && (chars_equal(&app, &c) || contains_chars(&app, &c))) || (
            heading.len() > 0 && (chars_equal(&heading, &c) || contains_chars(&heading, &c)));
            if fits {
                assert(candidate_fits(strs(self.candidates@)[i as int], app_id@, title@));
                return true;
            }
            i = i + 1;
        }
        false
    }
}


/// How long a launch's window is expected to take to appear, in
/// milliseconds. Generous: a launch goes through the daemon, the bridge and
/// a transient systemd unit before the app even starts, and a first run of a
/// large app takes a while.
pub const HINT_LIFETIME_MS: u64 = 60_000;

/// A hint registered at `registered` (milliseconds on a monotonic clock) is
/// still waiting at `now`.
pub open spec fn still_waiting(registered: u64, now: u64) -> bool {
    now < registered + HINT_LIFETIME_MS
}

/// A waiting hint: its candidates, its label, and when it was registered.
pub type HintView = (Seq<Seq<char>>, Seq<char>, u64);

/// The hints, in the order they were registered.
pub open spec fn hints_view(v: Seq<(WindowHint, u64)>) -> Seq<HintView> {
    v.map_values(|p: (WindowHint, u64)| (p.0.candidates(), p.0.label(), p.1))
}

/// The hints still waiting at `now`, in order.
pub open spec fn waiting(hints: Seq<HintView>, now: u64) -> Seq<HintView>
    decreases hints.len(),
{
    if hints.len() == 0 {
        seq![]
    } else {
        let rest = waiting(hints.drop_last(), now);
        if still_waiting(hints.last().2, now) {
            rest.push(hints.last())
        } else {
            rest
        }
    }
}

/// The first hint, from `from` on, that the window fits.
pub open spec fn first_fit(hints: Seq<HintView>, app_id: Seq<char>, title: Seq<char>, from: int) -> Option<int>
    decreases hints.len() - from,
{
    if from < 0 || from >= hints.len() {
        None
    } else if window_matches(hints[from].0, app_id, title) {
        Some(from)
    } else {
        first_fit(hints, app_id, title, from + 1)
    }
}

/// Launches whose windows have not been seen yet, each with the time it was
/// registered.
pub struct PendingHints {
    hints: Vec<(WindowHint, u64)>,
}

impl PendingHints {
    /// The hints waiting, in the order they were registered.
    pub closed spec fn view_hints(&self) -> Seq<HintView> {
        hints_view(self.hints@)
    }

    /// No launch waits for a window.
    pub fn new() -> (r: Self)
        ensures
            r.view_hints() == Seq::<HintView>::empty(),
    {
        let r = PendingHints { hints: Vec::new() };
        assert(hints_view(r.hints@) =~= Seq::<HintView>::empty());
        r
    }

    /// How many launches wait for their window.
    pub fn len(&self) -> (r: usize)
        ensures
            r == self.view_hints().len(),
    {
        self.hints.len()
    }

    /// Drops the hints whose window is overdue at `now`.
    fn drop_overdue(&mut self, now: u64)
        ensures
            final(self).view_hints() == waiting(old(self).view_hints(), now),
    {
        let mut taken: Vec<(WindowHint, u64)> = Vec::new();
        std::mem::swap(&mut taken, &mut self.hints);
        let ghost all = hints_view(taken@);
        assert(hints_view(self.hints@) =~= Seq::<HintView>::empty());
        let count = taken.len();
        let ghost n = taken@.len();
        let mut i: usize = 0;
        while taken.len() > 0
            invariant
                i + taken@.len() == n,
                n <= usize::MAX,
                all.len() == n,
                hints_view(taken@) == all.subrange(i as int, n as int),
                hints_view(self.hints@) == waiting(all.subrange(0, i as int), now),
            decreases taken@.len(),
        {
            let ghost before = taken@;
            let item = taken.remove(0);
            assert forall|j: int| 0 <= j < taken@.len() implies #[trigger] hints_view(taken@)[j] == all.subrange(
                i + 1,
                n as int,
            )[j] by {
                assert(taken@[j] == before[j + 1]);
                assert(hints_view(before)[j + 1] == all.subrange(i as int, n as int)[j + 1]);
            }
            assert(hints_view(taken@) =~= all.subrange(i + 1, n as int));
            assert(all[i as int] == (item.0.candidates(), item.0.label(), item.1)) by {
                assert(hints_view(before)[0] == all.subrange(i as int, n as int)[0]);
            }
            assert(all.subrange(0, i + 1).drop_last() =~= all.subrange(0, i as int));
            if now < item.1 || now - item.1 < HINT_LIFETIME_MS {
                let ghost kept = self.hints@;
                self.hints.push(item);
                assert(hints_view(self.hints@) =~= hints_view(kept).push(all[i as int]));
            }
            i = i + 1;
        }
        assert(all.subrange(0, n as int) =~= all);
    }

    /// Registers a launch's hint at `now`, dropping the overdue ones.
    pub fn register(&mut self, hint: WindowHint, now: u64)
        ensures
            final(self).view_hints() == waiting(old(self).view_hints(), now).push(
                (hint.candidates(), hint.label(), now),
            ),
    {
        self.drop_overdue(now);
        let ghost kept = self.hints@;
        self.hints.push((hint, now));
        assert(hints_view(self.hints@) =~= hints_view(kept).push((hint.candidates(), hint.label(), now)));
    }

    /// The hint a window reported at `now` answers: the first still waiting
    /// that fits its app id and title. It is retired, so the window is not
    /// asked for twice; overdue hints are dropped on the way.
    pub fn take_match(&mut self, now: u64, app_id: &str, title: &str) -> (r: Option<WindowHint>)
        ensures
            ({
                let fresh = waiting(old(self).view_hints(), now);
                match first_fit(fresh, app_id@, title@, 0) {
                    None => r is None && final(self).view_hints() == fresh,
                    Some(k) => r matches Some(h) && (h.candidates(), h.label(), fresh[k].2) == fresh[k]
                        && final(self).view_hints() == fresh.remove(k),
                }
            }),
    {
        self.drop_overdue(now);
        let ghost fresh = hints_view(self.hints@);
        let mut i: usize = 0;
        while i < self.hints.len()
            invariant
                i <= self.hints@.len(),
                fresh == hints_view(self.hints@),
                fresh == waiting(old(self).view_hints(), now),
                first_fit(fresh, app_id@, title@, 0) == first_fit(fresh, app_id@, title@, i as int),
            decreases self.hints@.len() - i,
        {
            if self.hints[i].0.matches(app_id, title) {
                assert(fresh[i as int].0 == self.hints@[i as int].0.candidates());
                let ghost before = self.hints@;
                let (hint, at) = self.hints.remove(i);
                assert(before[i as int] == (hint, at));
                assert(fresh[i as int] == (hint.candidates(), hint.label(), at));
                assert(hints_view(self.hints@) =~= fresh.remove(i as int));
                assert(first_fit(fresh, app_id@, title@, i as int) == Some(i as int));
                return Some(hint);
            }
            assert(fresh[i as int].0 == self.hints@[i as int].0.candidates());
            i = i + 1;
        }
        None
    }
}

} // verus!
