//! The values the console filters offer: every value of a facet tagged on
//! the entries, once each, in `str` order.
use crate::app_group::{DesktopEntryData, RommFacet, facet_matches, facet_prefix, has_str, strs};
use crate::text::{
    chars_equal, chars_less, chars_lt, chars_of, is_prefix,
    lemma_chars_lt_total, lemma_chars_lt_transitive, starts_with_chars, string_from_chars,
    sub_chars,
};
use vstd::prelude::*;

verus! {

/// Some entry of `entries` carries `v` for facet `f`.
pub open spec fn tagged(f: RommFacet, entries: Seq<DesktopEntryData>, v: Seq<char>) -> bool {
    exists|i: int| 0 <= i < entries.len() && #[trigger] facet_matches(f, v, entries[i])
}

/// Each element of `s` sorts before every later one: `s` is in increasing
/// order and holds nothing twice.
pub open spec fn strictly_sorted(s: Seq<Seq<char>>) -> bool {
    forall|i: int, j: int| 0 <= i < j < s.len() ==> chars_lt(#[trigger] s[i], #[trigger] s[j])
}

/// Adds `x` to the strictly sorted `d`, where it belongs, unless it is there.
fn insert_sorted(d: &mut Vec<String>, x: String)
    requires
        strictly_sorted(strs(old(d)@)),
    ensures
        strictly_sorted(strs(final(d)@)),
        forall|w: Seq<char>| #[trigger]
            strs(final(d)@).contains(w) <==> strs(old(d)@).contains(w) || w == x@,
{
    let xv = chars_of(x.as_str());
    let mut p: usize = 0;
    while p < d.len() && chars_less(&chars_of(d[p].as_str()), &xv)
        invariant
            p <= d@.len(),
            xv@ == x@,
            forall|q: int| 0 <= q < p ==> chars_lt(#[trigger] strs(d@)[q], x@),
        decreases d@.len() - p,
    {
        p = p + 1;
    }
    if p < d.len() && chars_equal(&chars_of(d[p].as_str()), &xv) {
        assert(strs(d@)[p as int] == x@);
        return;
    }
    let ghost old_d = strs(d@);
    proof {
        if p < old_d.len() {
            lemma_chars_lt_total(old_d[p as int], x@);
            assert(chars_lt(x@, old_d[p as int]));
        }
    }
    d.insert(p, x);
    let ghost new_d = strs(d@);
    assert(new_d =~= old_d.insert(p as int, x@));
    assert forall|i: int, j: int| 0 <= i < j < new_d.len() implies chars_lt(
        #[trigger] new_d[i],
        #[trigger] new_d[j],
    ) by {
        if j < p {
            assert(new_d[i] == old_d[i] && new_d[j] == old_d[j]);
        } else if j == p {
            assert(new_d[i] == old_d[i]);
        } else if i < p {
            assert(new_d[i] == old_d[i] && new_d[j] == old_d[j - 1]);
        } else if i == p {
            assert(new_d[j] == old_d[j - 1]);
            if j - 1 > p {
                assert(chars_lt(old_d[p as int], old_d[j - 1]));
                lemma_chars_lt_transitive(x@, old_d[p as int], old_d[j - 1]);
            }
        } else {
            assert(new_d[i] == old_d[i - 1] && new_d[j] == old_d[j - 1]);
        }
    }
    assert forall|w: Seq<char>| #[trigger] new_d.contains(w) <==> old_d.contains(w) || w == x@ by {
        if new_d.contains(w) {
            let k = choose|k: int| 0 <= k < new_d.len() && new_d[k] == w;
            if k < p {
                assert(old_d[k] == w);
            } else if k > p {
                assert(old_d[k - 1] == w);
            }
        }
        if old_d.contains(w) {
            let k = choose|k: int| 0 <= k < old_d.len() && old_d[k] == w;
            if k < p {
                assert(new_d[k] == w);
            } else {
                assert(new_d[k + 1] == w);
            }
        }
        if w == x@ {
            assert(new_d[p as int] == w);
        }
    }
}

impl RommFacet {
    /// Every value of this facet tagged on `entries`, once each, in increasing
    /// order. Decades sort as text just like years would, being four digits.
    pub fn values(self, entries: &[DesktopEntryData]) -> (r: Vec<String>)
        ensures
            strictly_sorted(strs(r@)),
            forall|v: Seq<char>| #[trigger] strs(r@).contains(v) <==> tagged(self, entries@, v),
    {
        let prefix = chars_of(self.prefix());
        let mut d: Vec<String> = Vec::new();
        let mut i: usize = 0;
        while i < entries.len()
            invariant
                i <= entries@.len(),
                prefix@ == facet_prefix(self),
                strictly_sorted(strs(d@)),
                forall|v: Seq<char>| #[trigger]
                    strs(d@).contains(v) <==> tagged(self, entries@.subrange(0, i as int), v),
            decreases entries@.len() - i,
        {
            let e = &entries[i];
            let mut j: usize = 0;
            while j < e.categories.len()
                invariant
                    j <= e.categories@.len(),
                    i < entries@.len(),
                    *e == entries@[i as int],
                    prefix@ == facet_prefix(self),
                    strictly_sorted(strs(d@)),
                    forall|v: Seq<char>| #[trigger]
                        strs(d@).contains(v) <==> (tagged(self, entries@.subrange(0, i as int), v)
                            || exists|k: int|
                            0 <= k < j && #[trigger] e.categories@[k]@ == prefix@ + v),
                decreases e.categories@.len() - j,
            {
                let c = chars_of(e.categories[j].as_str());
                let ghost before = strs(d@);
                if starts_with_chars(&c, &prefix) {
                    let v = string_from_chars(&sub_chars(&c, prefix.len(), c.len()));
                    proof {
                        assert(c@ =~= prefix@ + v@);
                    }
                    insert_sorted(&mut d, v);
                    assert forall|w: Seq<char>| #[trigger] strs(d@).contains(w) <==> (tagged(
                        self,
                        entries@.subrange(0, i as int),
                        w,
                    ) || exists|k: int|
                        0 <= k < j + 1 && #[trigger] e.categories@[k]@ == prefix@ + w) by {
                        if e.categories@[j as int]@ == prefix@ + w {
                            assert((prefix@ + w).subrange(prefix@.len() as int, (prefix@ + w).len() as int)
                                =~= w);
                            assert(w == v@);
                        }
                        if w == v@ {
                            assert(e.categories@[j as int]@ == prefix@ + w);
                        }
                    }
                } else {
                    assert forall|w: Seq<char>| #[trigger] strs(d@).contains(w) <==> (tagged(
                        self,
                        entries@.subrange(0, i as int),
                        w,
                    ) || exists|k: int|
                        0 <= k < j + 1 && #[trigger] e.categories@[k]@ == prefix@ + w) by {
                        if e.categories@[j as int]@ == prefix@ + w {
                            assert((prefix@ + w).subrange(0, prefix@.len() as int) =~= prefix@);
                            assert(is_prefix(prefix@, c@));
                        }
                    }
                }
                j = j + 1;
            }
            assert forall|v: Seq<char>| #[trigger] strs(d@).contains(v) <==> tagged(
                self,
                entries@.subrange(0, i + 1),
                v,
            ) by {
                let sub = entries@.subrange(0, i + 1);
                let prev = entries@.subrange(0, i as int);
                if tagged(self, sub, v) {
                    let k = choose|k: int| 0 <= k < sub.len() && #[trigger] facet_matches(self, v, sub[k]);
                    if k < i {
                        assert(prev[k] == sub[k]);
                        assert(tagged(self, prev, v));
                    } else {
                        assert(sub[k] == *e);
                        let q = choose|q: int|
                            0 <= q < e.categories@.len() && #[trigger] e.categories@[q]@ == facet_prefix(self) + v;
                        assert(e.categories@[q]@ == prefix@ + v);
                    }
                }
                if tagged(self, prev, v) {
                    let k = choose|k: int| 0 <= k < prev.len() && #[trigger] facet_matches(self, v, prev[k]);
                    assert(sub[k] == prev[k]);
                    assert(tagged(self, sub, v));
                }
                if exists|k: int| 0 <= k < e.categories@.len() && #[trigger] e.categories@[k]@ == prefix@ + v {
                    let q = choose|q: int|
                        0 <= q < e.categories@.len() && #[trigger] e.categories@[q]@ == prefix@ + v;
                    assert(has_str(e.categories@, facet_prefix(self) + v));
                    assert(facet_matches(self, v, sub[i as int]));
                }
            }
            i = i + 1;
        }
        assert(entries@.subrange(0, entries@.len() as int) =~= entries@);
        d
    }
}

} // verus!
