//! Which entry a context menu is open on, and which of its rows is highlighted.
use vstd::prelude::*;

verus! {

#[derive(Clone, Copy, Debug, PartialEq, Eq, Structural)]
pub struct State {
    target: Option<usize>,
    selected: usize,
}

/// `a` modulo `m`, always in `0..m` for positive `m`.
pub open spec fn wrap(a: int, m: int) -> int {
    a % m
}

impl State {
    /// The target the menu is open on, if any.
    pub closed spec fn open_on(self) -> Option<usize> {
        self.target
    }

    /// The highlighted row.
    pub closed spec fn highlight(self) -> usize {
        self.selected
    }

    pub fn is_open(self) -> (r: bool)
        ensures
            r == (self.open_on() is Some),
    {
        self.target.is_some()
    }

    pub fn target(self) -> (r: Option<usize>)
        ensures
            r == self.open_on(),
    {
        self.target
    }

    pub fn selected(self) -> (r: usize)
        ensures
            r == self.highlight(),
    {
        self.selected
    }

    /// Open on `target` with the first row highlighted, or close an open menu.
    pub fn toggle(&mut self, target: usize)
        ensures
            old(self).open_on() is Some ==> final(self).open_on() is None,
            old(self).open_on() is None ==> final(self).open_on() == Some(target),
            final(self).highlight() == 0,
    {
        if self.is_open() {
            self.close();
        } else {
            self.open(target);
        }
    }

    pub fn open(&mut self, target: usize)
        ensures
            final(self).open_on() == Some(target),
            final(self).highlight() == 0,
    {
        self.target = Some(target);
        self.selected = 0;
    }

    pub fn close(&mut self)
        ensures
            final(self).open_on() is None,
            final(self).highlight() == 0,
    {
        self.target = None;
        self.selected = 0;
    }

    /// Move the highlight by `delta` through `rows` rows, wrapping at both
    /// ends; a highlight past the end is first pulled back to the last row.
    pub fn move_selection(&mut self, delta: i32, rows: usize)
        requires
            rows <= i32::MAX,
            rows > 0 ==> i32::MIN <= min_usize(old(self).highlight(), (rows - 1) as usize) + delta
                <= i32::MAX,
        ensures
            final(self).open_on() == old(self).open_on(),
            rows == 0 ==> final(self).highlight() == old(self).highlight(),
            rows > 0 ==> final(self).highlight() == wrap(
                min_usize(old(self).highlight(), (rows - 1) as usize) + delta,
                rows as int,
            ),
            rows > 0 ==> final(self).highlight() < rows,
    {
        if rows == 0 {
            return;
        }
        let current: i64 = if self.selected < rows - 1 { self.selected as i64 } else { (rows - 1) as i64 };
        let moved: i64 = current + delta as i64;
        let m: i64 = rows as i64;
        let r: i64 = if moved >= 0 {
            ((moved as u64) % (m as u64)) as i64
        } else {
            let back: u64 = ((0 - moved) as u64) % (m as u64);
            if back == 0 { 0 } else { m - back as i64 }
        };
        proof {
            if moved < 0 {
                lemma_negative_mod(moved as int, m as int);
            }
        }
        self.selected = r as usize;
    }
}

/// The Euclidean remainder of a negative number, from that of its negation.
proof fn lemma_negative_mod(a: int, m: int)
    requires
        a < 0,
        m > 0,
    ensures
        (0 - a) % m == 0 ==> a % m == 0,
        (0 - a) % m != 0 ==> a % m == m - (0 - a) % m,
{
    let b = (0 - a) % m;
    let q = (0 - a) / m;
    vstd::arithmetic::div_mod::lemma_fundamental_div_mod(0 - a, m);
    if b == 0 {
        assert(a == (0 - q) * m + 0) by (nonlinear_arith)
            requires
                0 - a == m * q + b,
                b == 0,
        ;
        vstd::arithmetic::div_mod::lemma_fundamental_div_mod_converse_mod(a, m, 0 - q, 0);
    } else {
        assert(a == (0 - q - 1) * m + (m - b)) by (nonlinear_arith)
            requires
                0 - a == m * q + b,
        ;
        vstd::arithmetic::div_mod::lemma_fundamental_div_mod_converse_mod(a, m, 0 - q - 1, m - b);
    }
}

pub open spec fn min_usize(a: usize, b: usize) -> int {
    if a < b { a as int } else { b as int }
}


impl Default for State {
    /// Closed, with the first row highlighted.
    fn default() -> (r: Self)
        ensures
            r.open_on() is None,
            r.highlight() == 0,
    {
        State { target: None, selected: 0 }
    }
}

} // verus!
