//! The tab strip's group keys. Each group tab carries a key that stays with
//! the group while the strip is reordered by drag and drop, so the selected
//! tab can be found again after a reorder.
use crate::app_group::{AppGroup, GroupView, copy_group, groups_view};
use std::collections::HashMap;
use vstd::prelude::*;

verus! {

/// A row of the tab strip: the leading "all" tab, a group tab by its key,
/// or the trailing "new group" button.
#[derive(Clone, Copy, Debug, PartialEq, Eq, Structural)]
pub enum GroupRowKey {
    AllApps,
    Custom(u64),
    NewGroup,
}

/// The group keys of the strip's rows, in order.
pub open spec fn custom_keys(order: Seq<GroupRowKey>) -> Seq<u64>
    decreases order.len(),
{
    if order.len() == 0 {
        seq![]
    } else {
        let rest = custom_keys(order.drop_last());
        match order.last() {
            GroupRowKey::Custom(k) => rest.push(k),
            _ => rest,
        }
    }
}

/// Each key's position among `keys`; a key that occurs twice has its last.
pub open spec fn key_index(keys: Seq<u64>) -> Map<u64, usize>
    decreases keys.len(),
{
    if keys.len() == 0 {
        Map::empty()
    } else {
        key_index(keys.drop_last()).insert(keys.last(), (keys.len() - 1) as usize)
    }
}

/// The groups the keys `order` name, in that order; a key that names no
/// group is skipped.
pub open spec fn picked(order: Seq<u64>, index: Map<u64, usize>, groups: Seq<GroupView>) -> Seq<GroupView>
    decreases order.len(),
{
    if order.len() == 0 {
        seq![]
    } else {
        let rest = picked(order.drop_last(), index, groups);
        let k = order.last();
        if index.contains_key(k) && index[k] < groups.len() {
            rest.push(groups[index[k] as int])
        } else {
            rest
        }
    }
}

/// The first position of `k` in `s`, from `from` on.
pub open spec fn position_of(s: Seq<u64>, k: u64, from: int) -> Option<usize>
    decreases s.len() - from,
{
    if from < 0 || from >= s.len() {
        None
    } else if s[from] == k {
        Some(from as usize)
    } else {
        position_of(s, k, from + 1)
    }
}

/// A drag-and-drop reorder of the strip to `order`: the groups in their new
/// order, the keys in that order, and the selected tab. It is refused
/// (`None`) unless `order` names as many groups as there are and each of
/// them is found. The selection follows its group's key; with no selected
/// group tab it stays as it was.
pub open spec fn reordered(groups: Seq<GroupView>, keys: Seq<u64>, order: Seq<GroupRowKey>, selected: Option<usize>) -> Option<
    (Seq<GroupView>, Seq<u64>, Option<usize>),
> {
    let new_keys = custom_keys(order);
    if new_keys.len() != groups.len() {
        None
    } else {
        let moved = picked(new_keys, key_index(keys), groups);
        if moved.len() != groups.len() {
            None
        } else {
            let previous_key = match selected {
                Some(i) => if i < keys.len() {
                    Some(keys[i as int])
                } else {
                    None
                },
                None => None,
            };
            let new_selected = match previous_key {
                Some(k) => position_of(new_keys, k, 0),
                None => selected,
            };
            Some((moved, new_keys, new_selected))
        }
    }
}

/// The first position of `k` in `s`.
fn first_position(s: &Vec<u64>, k: u64) -> (r: Option<usize>)
    ensures
        r == position_of(s@, k, 0),
{
    let mut p: usize = 0;
    while p < s.len()
        invariant
            p <= s@.len(),
            position_of(s@, k, 0) == position_of(s@, k, p as int),
        decreases s@.len() - p,
    {
        if s[p] == k {
            return Some(p);
        }
        p = p + 1;
    }
    None
}

/// The strip reordered to `order`, as [`reordered`] says: the groups, their
/// keys and the selected tab, or `None` when the order is refused.
pub fn reorder_groups(groups: &Vec<AppGroup>, keys: &Vec<u64>, order: &Vec<GroupRowKey>, selected: Option<usize>) -> (r:
    Option<(Vec<AppGroup>, Vec<u64>, Option<usize>)>)
    ensures
        match r {
            None => reordered(groups_view(groups@), keys@, order@, selected) is None,
            Some((g, k, s)) => reordered(groups_view(groups@), keys@, order@, selected) == Some(
                (groups_view(g@), k@, s),
            ),
        },
{
    broadcast use vstd::std_specs::hash::group_hash_axioms;

    let ghost gv = groups_view(groups@);
    let previous_key: Option<u64> = match selected {
        Some(i) => if i < keys.len() {
            Some(keys[i])
        } else {
            None
        },
        None => None,
    };
    let mut new_keys: Vec<u64> = Vec::new();
    let mut j: usize = 0;
    while j < order.len()
        invariant
            j <= order@.len(),
            new_keys@ == custom_keys(order@.subrange(0, j as int)),
        decreases order@.len() - j,
    {
        assert(order@.subrange(0, j + 1).drop_last() =~= order@.subrange(0, j as int));
        if let GroupRowKey::Custom(k) = order[j] {
            new_keys.push(k);
        }
        j = j + 1;
    }
    assert(order@.subrange(0, order@.len() as int) =~= order@);
    if new_keys.len() != groups.len() {
        return None;
    }
    let mut index: HashMap<u64, usize> = HashMap::new();
    let mut i: usize = 0;
    while i < keys.len()
        invariant
            i <= keys@.len(),
            index@ == key_index(keys@.subrange(0, i as int)),
        decreases keys@.len() - i,
    {
        assert(keys@.subrange(0, i + 1).drop_last() =~= keys@.subrange(0, i as int));
        index.insert(keys[i], i);
        i = i + 1;
    }
    assert(keys@.subrange(0, keys@.len() as int) =~= keys@);
    let ghost ix = key_index(keys@);
    let mut moved: Vec<AppGroup> = Vec::new();
    let mut m: usize = 0;
    while m < new_keys.len()
        invariant
            m <= new_keys@.len(),
            index@ == ix,
            gv == groups_view(groups@),
            groups_view(moved@) == picked(new_keys@.subrange(0, m as int), ix, gv),
        decreases new_keys@.len() - m,
    {
        assert(new_keys@.subrange(0, m + 1).drop_last() =~= new_keys@.subrange(0, m as int));
        let k = new_keys[m];
        match index.get(&k) {
            Some(at) => {
                let at = *at;
                if at < groups.len() {
                    let ghost before = moved@;
                    moved.push(copy_group(&groups[at]));
                    assert(groups_view(moved@) =~= groups_view(before).push(gv[at as int]));
                }
            },
            None => {},
        }
        m = m + 1;
    }
    assert(new_keys@.subrange(0, new_keys@.len() as int) =~= new_keys@);
    if moved.len() != groups.len() {
        return None;
    }
    let new_selected = match previous_key {
        Some(k) => first_position(&new_keys, k),
        None => selected,
    };
    Some((moved, new_keys, new_selected))
}

/// The keys `0..len`, which the strip takes when it switches section.
pub fn numbered_keys(len: usize) -> (r: Vec<u64>)
    ensures
        r@ == Seq::new(len as nat, |i: int| i as u64),
{
    let mut r: Vec<u64> = Vec::new();
    let mut i: usize = 0;
    while i < len
        invariant
            i <= len,
            r@ == Seq::new(i as nat, |k: int| k as u64),
        decreases len - i,
    {
        r.push(i as u64);
        assert(r@ =~= Seq::new((i + 1) as nat, |k: int| k as u64));
        i = i + 1;
    }
    r
}

/// `len` keys never handed out before, from `next` on, and the next key
/// free after them; the strip takes them when its groups are rebuilt.
pub fn fresh_keys(next: u64, len: usize) -> (r: (Vec<u64>, u64))
    requires
        next + len <= u64::MAX,
    ensures
        r.0@ == Seq::new(len as nat, |i: int| (next + i) as u64),
        r.1 == next + len,
{
    let mut keys: Vec<u64> = Vec::new();
    let mut key = next;
    let mut i: usize = 0;
    while i < len
        invariant
            i <= len,
            next + len <= u64::MAX,
            key == next + i,
            keys@ == Seq::new(i as nat, |k: int| (next + k) as u64),
        decreases len - i,
    {
        keys.push(key);
        key = key + 1;
        assert(keys@ =~= Seq::new((i + 1) as nat, |k: int| (next + k) as u64));
        i = i + 1;
    }
    (keys, key)
}

/// Drops the key of the group tab at `index`, when there is one.
pub fn remove_key(keys: &mut Vec<u64>, index: usize)
    ensures
        index < old(keys)@.len() ==> final(keys)@ == old(keys)@.remove(index as int),
        index >= old(keys)@.len() ==> final(keys)@ == old(keys)@,
{
    if index < keys.len() {
        keys.remove(index);
    }
}

proof fn lemma_key_index_of_distinct(keys: Seq<u64>, i: int)
    requires
        0 <= i < keys.len() <= usize::MAX,
        keys.no_duplicates(),
    ensures
        key_index(keys).contains_key(keys[i]),
        key_index(keys)[keys[i]] == i,
    decreases keys.len(),
{
    let shorter = keys.drop_last();
    assert(key_index(keys) == key_index(shorter).insert(keys.last(), (keys.len() - 1) as usize));
    if i < keys.len() - 1 {
        assert(shorter[i] == keys[i]);
        assert(shorter.no_duplicates()) by {
            assert forall|a: int, b: int| 0 <= a < shorter.len() && 0 <= b < shorter.len() && a != b implies shorter[a] != shorter[b] by {
                assert(shorter[a] == keys[a] && shorter[b] == keys[b]);
            }
        }
        lemma_key_index_of_distinct(shorter, i);
        assert(keys.last() != keys[i]);
    }
}

proof fn lemma_key_index_domain(keys: Seq<u64>, k: u64)
    ensures
        key_index(keys).contains_key(k) <==> keys.contains(k),
        key_index(keys).contains_key(k) ==> key_index(keys)[k] < keys.len(),
    decreases keys.len(),
{
    if keys.len() > 0 {
        let shorter = keys.drop_last();
        lemma_key_index_domain(shorter, k);
        if shorter.contains(k) {
            let w = choose|w: int| 0 <= w < shorter.len() && shorter[w] == k;
            assert(keys[w] == k);
        }
        if keys.contains(k) && k != keys.last() {
            let w = choose|w: int| 0 <= w < keys.len() && keys[w] == k;
            assert(shorter[w] == k);
        }
    }
}

proof fn lemma_picked_all(order: Seq<u64>, keys: Seq<u64>, groups: Seq<GroupView>)
    requires
        keys.len() == groups.len(),
        forall|j: int| 0 <= j < order.len() ==> keys.contains(#[trigger] order[j]),
    ensures
        picked(order, key_index(keys), groups).len() == order.len(),
        forall|j: int|
            0 <= j < order.len() ==> #[trigger] picked(order, key_index(keys), groups)[j] == groups[key_index(
                keys,
            )[order[j]] as int],
    decreases order.len(),
{
    if order.len() > 0 {
        let shorter = order.drop_last();
        assert forall|j: int| 0 <= j < shorter.len() implies keys.contains(#[trigger] shorter[j]) by {
            assert(shorter[j] == order[j]);
        }
        lemma_picked_all(shorter, keys, groups);
        lemma_key_index_domain(keys, order.last());
        assert(keys.contains(order[order.len() - 1]));
        assert forall|j: int| 0 <= j < order.len() implies #[trigger] picked(order, key_index(keys), groups)[j]
            == groups[key_index(keys)[order[j]] as int] by {
            if j < order.len() - 1 {
                assert(shorter[j] == order[j]);
            }
        }
    }
}

proof fn lemma_position_of_found(s: Seq<u64>, k: u64, from: int)
    requires
        0 <= from <= s.len() <= usize::MAX,
        exists|j: int| from <= j < s.len() && s[j] == k,
    ensures
        position_of(s, k, from) matches Some(p) && from <= p < s.len() && s[p as int] == k,
    decreases s.len() - from,
{
    let j = choose|j: int| from <= j < s.len() && s[j] == k;
    if s[from] != k {
        assert(from + 1 <= j);
        lemma_position_of_found(s, k, from + 1);
    }
}

/// A reorder that moves the group tabs around keeps the selected group
/// selected: when the keys are distinct and the new order names each of
/// them once, the reorder is taken, and the tab selected after it shows the
/// group that was selected before.
pub proof fn a_reorder_keeps_the_selected_group(
    groups: Seq<GroupView>,
    keys: Seq<u64>,
    order: Seq<GroupRowKey>,
    selected: usize,
)
    requires
        keys.len() == groups.len() <= usize::MAX,
        selected < keys.len(),
        keys.no_duplicates(),
        custom_keys(order).len() == keys.len(),
        forall|j: int| 0 <= j < custom_keys(order).len() ==> keys.contains(#[trigger] custom_keys(order)[j]),
        custom_keys(order).contains(keys[selected as int]),
    ensures
        reordered(groups, keys, order, Some(selected)) matches Some((moved, new_keys, new_selected)) && (
        new_selected matches Some(s) && s < moved.len() && moved[s as int] == groups[selected as int]
            && new_keys[s as int] == keys[selected as int]),
{
    let new_keys = custom_keys(order);
    lemma_picked_all(new_keys, keys, groups);
    let k = keys[selected as int];
    let w = choose|w: int| 0 <= w < new_keys.len() && new_keys[w] == k;
    lemma_position_of_found(new_keys, k, 0);
    let p = position_of(new_keys, k, 0)->0;
    lemma_key_index_of_distinct(keys, selected as int);
    assert(picked(new_keys, key_index(keys), groups)[p as int] == groups[key_index(keys)[new_keys[p as int]] as int]);
}

} // verus!
