//! The order of tabs and of their filters: a folder of picked entries sorts
//! by its name, a category tab by its first category, both compared
//! lowercased; tabs of other kinds sort by the kind of their filter.
use crate::app_group::{AppGroup, FilterType, FilterView, GroupView};
use crate::text::{chars_equal, chars_less, chars_lt, chars_of, lemma_chars_lt_total, lowercase, to_lowercase};
use vstd::prelude::*;

verus! {

/// Where one value sorts against another.
#[derive(Clone, Copy, Debug, PartialEq, Eq, Structural)]
pub enum SortOrder {
    Less,
    Equal,
    Greater,
}

/// How `a` sorts against `b`, character by character.
pub open spec fn chars_order(a: Seq<char>, b: Seq<char>) -> SortOrder {
    if chars_lt(a, b) {
        SortOrder::Less
    } else if a == b {
        SortOrder::Equal
    } else {
        SortOrder::Greater
    }
}

/// The rank of a filter's kind: no filter first, then categories, then
/// picked entries.
pub open spec fn filter_rank(f: FilterView) -> int {
    match f {
        FilterView::NoFilter => 0,
        FilterView::Categories { .. } => 1,
        FilterView::AppIds(_) => 2,
    }
}

/// How filter `a` sorts against `b`: by kind alone.
pub open spec fn filter_order_of(a: FilterView, b: FilterView) -> SortOrder {
    if filter_rank(a) < filter_rank(b) {
        SortOrder::Less
    } else if filter_rank(a) == filter_rank(b) {
        SortOrder::Equal
    } else {
        SortOrder::Greater
    }
}

fn filter_rank_of(f: &FilterType) -> (r: u8)
    ensures
        r == filter_rank(f@),
{
    match f {
        FilterType::NoFilter => 0,
        FilterType::Categories { .. } => 1,
        FilterType::AppIds(_) => 2,
    }
}

/// How filter `a` sorts against `b`, as [`filter_order_of`] says.
pub fn filter_order(a: &FilterType, b: &FilterType) -> (r: SortOrder)
    ensures
        r == filter_order_of(a@, b@),
{
    let ra = filter_rank_of(a);
    let rb = filter_rank_of(b);
    if ra < rb {
        SortOrder::Less
    } else if ra == rb {
        SortOrder::Equal
    } else {
        SortOrder::Greater
    }
}

/// The name a tab sorts by against a folder of picked entries: a category
/// tab's first category, else its own name.
pub open spec fn sort_name(g: GroupView) -> Seq<char> {
    match g.filter {
        FilterView::Categories { categories, .. } => if categories.len() > 0 {
            categories[0]
        } else {
            g.name
        },
        _ => g.name,
    }
}

/// How tab `a` sorts against `b`: two folders of picked entries by name, a
/// folder against a category tab by the category tab's first category (or
/// its name), compared lowercased; any other pair by filter kind.
pub open spec fn group_order_of(a: GroupView, b: GroupView) -> SortOrder {
    match (a.filter, b.filter) {
        (FilterView::AppIds(_), FilterView::AppIds(_)) => chars_order(lowercase(a.name), lowercase(b.name)),
        (FilterView::Categories { .. }, FilterView::AppIds(_)) => chars_order(
            lowercase(sort_name(a)),
            lowercase(b.name),
        ),
        (FilterView::AppIds(_), FilterView::Categories { .. }) => chars_order(
            lowercase(a.name),
            lowercase(sort_name(b)),
        ),
        _ => filter_order_of(a.filter, b.filter),
    }
}

fn order_chars(a: &Vec<char>, b: &Vec<char>) -> (r: SortOrder)
    ensures
        r == chars_order(a@, b@),
{
    if chars_less(a, b) {
        SortOrder::Less
    } else if chars_equal(a, b) {
        SortOrder::Equal
    } else {
        SortOrder::Greater
    }
}

fn lowered(s: &str) -> (r: Vec<char>)
    ensures
        r@ == lowercase(s@),
{
    chars_of(to_lowercase(s).as_str())
}

/// How tab `a` sorts against `b`, as [`group_order_of`] says.
pub fn group_order(a: &AppGroup, b: &AppGroup) -> (r: SortOrder)
    ensures
        r == group_order_of(a@, b@),
{
    match (&a.filter, &b.filter) {
        (FilterType::AppIds(_), FilterType::AppIds(_)) => order_chars(&lowered(&a.name), &lowered(&b.name)),
        (FilterType::Categories { categories, .. }, FilterType::AppIds(_)) => {
            let name = if categories.len() > 0 {
                lowered(categories[0].as_str())
            } else {
                lowered(a.name.as_str())
            };
            order_chars(&name, &lowered(&b.name))
        },
        (FilterType::AppIds(_), FilterType::Categories { categories, .. }) => {
            let other = if categories.len() > 0 {
                lowered(categories[0].as_str())
            } else {
                lowered(b.name.as_str())
            };
            order_chars(&lowered(&a.name), &other)
        },
        _ => filter_order(&a.filter, &b.filter),
    }
}

/// The order of two tabs turns over when they are swapped.
pub proof fn swapping_two_tabs_reverses_their_order(a: GroupView, b: GroupView)
    ensures
        group_order_of(a, b) == SortOrder::Less <==> group_order_of(b, a) == SortOrder::Greater,
        group_order_of(a, b) == SortOrder::Equal <==> group_order_of(b, a) == SortOrder::Equal,
{
    match (a.filter, b.filter) {
        (FilterView::AppIds(_), FilterView::AppIds(_)) => {
            lemma_chars_lt_total(lowercase(a.name), lowercase(b.name));
        },
        (FilterView::Categories { .. }, FilterView::AppIds(_)) => {
            lemma_chars_lt_total(lowercase(sort_name(a)), lowercase(b.name));
        },
        (FilterView::AppIds(_), FilterView::Categories { .. }) => {
            lemma_chars_lt_total(lowercase(a.name), lowercase(sort_name(b)));
        },
        _ => {},
    }
}

} // verus!
