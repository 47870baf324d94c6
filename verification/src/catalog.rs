//! The frontend's catalog of entries as provider batches arrive: a batch
//! adds the entries it brings that are not there yet, by id, and the
//! catalog stays sorted by name; a page of RomM games is added at the end
//! in the order it came, without a sort. Entries are never replaced, so a
//! widget keeps its entry across batches.
use crate::app_group::DesktopEntryData;
use crate::providers::{EntryView, GameRecord, RecordView, entry_view, record_entry, records_view};
use crate::text::{
    chars_equal, chars_less, chars_lt, chars_of, is_prefix, lemma_chars_lt_total, lemma_chars_lt_transitive,
    lowercase, starts_with_chars, str_equal, to_lowercase, to_owned_string, trim_seq, trim_str,
};
use vstd::prelude::*;

verus! {

/// The entries, in order.
pub open spec fn entries_view(v: Seq<DesktopEntryData>) -> Seq<EntryView> {
    v.map_values(|e: DesktopEntryData| entry_view(e))
}

/// Some entry of `s` has the id `id`.
pub open spec fn holds_id(s: Seq<EntryView>, id: Seq<char>) -> bool {
    exists|j: int| 0 <= j < s.len() && (#[trigger] s[j]).id == id
}

/// `all` with each entry of `new` added at the end whose id is not there yet
/// (counting the ones added before it).
pub open spec fn appended(all: Seq<EntryView>, new: Seq<EntryView>) -> Seq<EntryView>
    decreases new.len(),
{
    if new.len() == 0 {
        all
    } else {
        let before = appended(all, new.drop_last());
        if holds_id(before, new.last().id) {
            before
        } else {
            before.push(new.last())
        }
    }
}

/// `x` put into `d` before the first entry whose name sorts after its own.
pub open spec fn insert_entry(d: Seq<EntryView>, x: EntryView) -> Seq<EntryView>
    decreases d.len(),
{
    if d.len() == 0 {
        seq![x]
    } else if chars_lt(x.name, d[0].name) {
        seq![x] + d
    } else {
        seq![d[0]] + insert_entry(d.drop_first(), x)
    }
}

/// `s` sorted by name, stably.
pub open spec fn sort_entries(s: Seq<EntryView>) -> Seq<EntryView>
    decreases s.len(),
{
    if s.len() == 0 {
        seq![]
    } else {
        insert_entry(sort_entries(s.drop_last()), s.last())
    }
}

/// The catalog after a provider batch of `records`.
pub open spec fn merged_catalog(all: Seq<EntryView>, records: Seq<RecordView>) -> Seq<EntryView> {
    sort_entries(appended(all, records.map_values(|r: RecordView| record_entry(r))))
}

/// No name sorts before the one ahead of it.
pub open spec fn sorted_by_name(s: Seq<EntryView>) -> bool {
    forall|i: int, j: int| 0 <= i < j < s.len() ==> !chars_lt(#[trigger] s[j].name, #[trigger] s[i].name)
}

/// No id occurs twice.
pub open spec fn ids_distinct(s: Seq<EntryView>) -> bool {
    forall|i: int, j: int| 0 <= i < j < s.len() ==> #[trigger] s[i].id != #[trigger] s[j].id
}

proof fn lemma_insert_entry_at(d: Seq<EntryView>, x: EntryView, p: int)
    requires
        0 <= p <= d.len(),
        forall|q: int| 0 <= q < p ==> !chars_lt(x.name, #[trigger] d[q].name),
        p == d.len() || chars_lt(x.name, d[p].name),
    ensures
        insert_entry(d, x) == d.insert(p, x),
    decreases p,
{
    if p == 0 {
        if d.len() == 0 {
            assert(d.insert(0, x) =~= seq![x]);
        } else {
            assert(d.insert(0, x) =~= seq![x] + d);
        }
    } else {
        let rest = d.drop_first();
        assert(!chars_lt(x.name, d[0].name));
        assert forall|q: int| 0 <= q < p - 1 implies !chars_lt(x.name, #[trigger] rest[q].name) by {
            assert(rest[q] == d[q + 1]);
        }
        if p < d.len() {
            assert(rest[p - 1] == d[p]);
        }
        lemma_insert_entry_at(rest, x, p - 1);
        assert(d.insert(p, x) =~= seq![d[0]] + rest.insert(p - 1, x));
    }
}

/// Sorts `v` by name, stably, moving the entries.
fn sort_by_name(v: Vec<DesktopEntryData>) -> (r: Vec<DesktopEntryData>)
    ensures
        entries_view(r@) == sort_entries(entries_view(v@)),
{
    let ghost all = entries_view(v@);
    let n = v.len();
    let mut rest = v;
    let mut sorted: Vec<DesktopEntryData> = Vec::new();
    let mut k: usize = 0;
    while k < n
        invariant
            k <= n,
            n == all.len(),
            entries_view(rest@) == all.subrange(k as int, n as int),
            entries_view(sorted@) == sort_entries(all.subrange(0, k as int)),
        decreases n - k,
    {
        proof {
            assert(all.subrange(0, k + 1).drop_last() =~= all.subrange(0, k as int));
            assert(entries_view(rest@)[0] == all[k as int]);
            assert(all.subrange(0, k + 1).last() == all[k as int]);
        }
        let ghost before_rest = rest@;
        assert(rest@.len() == entries_view(rest@).len());
        let x = rest.remove(0);
        proof {
            assert(entries_view(rest@) =~= entries_view(before_rest).drop_first());
            assert(all.subrange(k + 1, n as int) =~= all.subrange(k as int, n as int).drop_first());
        }
        let xname = chars_of(x.name.as_str());
        let mut p: usize = 0;
        while p < sorted.len() && !chars_less(&xname, &chars_of(sorted[p].name.as_str()))
            invariant
                p <= sorted@.len(),
                xname@ == x.name@,
                forall|q: int|
                    0 <= q < p ==> !chars_lt(entry_view(x).name, #[trigger] entries_view(sorted@)[q].name),
            decreases sorted@.len() - p,
        {
            p = p + 1;
        }
        proof {
            lemma_insert_entry_at(entries_view(sorted@), entry_view(x), p as int);
        }
        let ghost prev = sorted@;
        sorted.insert(p, x);
        proof {
            assert(entries_view(sorted@) =~= entries_view(prev).insert(p as int, entry_view(x)));
        }
        k = k + 1;
    }
    assert(all.subrange(0, n as int) =~= all);
    sorted
}

/// The catalog without its RomM games, in order: what a restart of the
/// console games from their first page keeps.
pub open spec fn without_romm(s: Seq<EntryView>) -> Seq<EntryView>
    decreases s.len(),
{
    if s.len() == 0 {
        seq![]
    } else if is_prefix("romm:"@, s.last().id) {
        without_romm(s.drop_last())
    } else {
        without_romm(s.drop_last()).push(s.last())
    }
}

/// Drops the RomM games from the catalog, as [`without_romm`] says.
pub fn drop_romm_entries(all: Vec<DesktopEntryData>) -> (r: Vec<DesktopEntryData>)
    ensures
        entries_view(r@) == without_romm(entries_view(all@)),
{
    let ghost base = entries_view(all@);
    let prefix = chars_of("romm:");
    let n = all.len();
    let mut rest = all;
    let mut kept: Vec<DesktopEntryData> = Vec::new();
    let mut k: usize = 0;
    while k < n
        invariant
            k <= n,
            n == base.len(),
            prefix@ == "romm:"@,
            entries_view(rest@) == base.subrange(k as int, n as int),
            entries_view(kept@) == without_romm(base.subrange(0, k as int)),
        decreases n - k,
    {
        proof {
            assert(base.subrange(0, k + 1).drop_last() =~= base.subrange(0, k as int));
            assert(base.subrange(0, k + 1).last() == base[k as int]);
            assert(entries_view(rest@)[0] == base[k as int]);
        }
        let ghost before_rest = rest@;
        assert(rest@.len() == entries_view(rest@).len());
        let entry = rest.remove(0);
        proof {
            assert(entries_view(rest@) =~= entries_view(before_rest).drop_first());
            assert(base.subrange(k + 1, n as int) =~= base.subrange(k as int, n as int).drop_first());
        }
        if !starts_with_chars(&chars_of(entry.id.as_str()), &prefix) {
            let ghost prev = kept@;
            kept.push(entry);
            assert(entries_view(kept@) =~= entries_view(prev).push(entry_view(entry)));
        }
        k = k + 1;
    }
    assert(base.subrange(0, n as int) =~= base);
    kept
}

/// Whether some entry of `v` has the id `id`.
fn has_entry(v: &Vec<DesktopEntryData>, id: &Vec<char>) -> (r: bool)
    ensures
        r == holds_id(entries_view(v@), id@),
{
    let mut j: usize = 0;
    while j < v.len()
        invariant
            j <= v@.len(),
            forall|q: int| 0 <= q < j ==> (#[trigger] entries_view(v@)[q]).id != id@,
        decreases v@.len() - j,
    {
        if chars_equal(&chars_of(v[j].id.as_str()), id) {
            assert(entries_view(v@)[j as int].id == id@);
            return true;
        }
        j = j + 1;
    }
    false
}

/// The catalog with a batch of `records` added at its end, as
/// [`appended`] says: each record becomes an entry, those whose id the
/// catalog does not hold yet are added in the order they came, and nothing
/// is re-sorted. RomM pages arrive this way, so that a later page never
/// moves a tile already drawn.
pub fn append_records(all: Vec<DesktopEntryData>, records: Vec<GameRecord>) -> (r: Vec<DesktopEntryData>)
    ensures
        entries_view(r@) == appended(
            entries_view(all@),
            records_view(records@).map_values(|r: RecordView| record_entry(r)),
        ),
{
    let ghost base = entries_view(all@);
    let ghost incoming = records_view(records@).map_values(|r: RecordView| record_entry(r));
    let n = records.len();
    let mut rest = records;
    let mut catalog = all;
    let mut k: usize = 0;
    while k < n
        invariant
            k <= n,
            n == incoming.len(),
            rest@.len() == n - k,
            records_view(rest@).map_values(|r: RecordView| record_entry(r)) == incoming.subrange(
                k as int,
                n as int,
            ),
            entries_view(catalog@) == appended(base, incoming.subrange(0, k as int)),
        decreases n - k,
    {
        proof {
            assert(incoming.subrange(0, k + 1).drop_last() =~= incoming.subrange(0, k as int));
            assert(incoming.subrange(0, k + 1).last() == incoming[k as int]);
            assert(records_view(rest@).map_values(|r: RecordView| record_entry(r))[0]
                == incoming[k as int]);
        }
        let ghost before_rest = rest@;
        let record = rest.remove(0);
        proof {
            assert(records_view(rest@) =~= records_view(before_rest).drop_first());
            let now = records_view(rest@).map_values(|r: RecordView| record_entry(r));
            let was = records_view(before_rest).map_values(|r: RecordView| record_entry(r));
            assert forall|j: int| 0 <= j < now.len() implies #[trigger] now[j] == incoming.subrange(
                k + 1,
                n as int,
            )[j] by {
                assert(now[j] == was[j + 1]);
                assert(was[j + 1] == incoming.subrange(k as int, n as int)[j + 1]);
            }
            assert(now =~= incoming.subrange(k + 1, n as int));
        }
        let entry = record.into_desktop_entry();
        assert(entry_view(entry) == incoming[k as int]);
        let id = chars_of(entry.id.as_str());
        if !has_entry(&catalog, &id) {
            let ghost prev = catalog@;
            catalog.push(entry);
            assert(entries_view(catalog@) =~= entries_view(prev).push(entry_view(entry)));
        }
        k = k + 1;
    }
    assert(incoming.subrange(0, n as int) =~= incoming);
    catalog
}

/// The catalog after a provider batch: each record becomes an entry, those
/// whose id the catalog does not hold yet are added, and the catalog is
/// sorted by name again, as [`merged_catalog`] says.
pub fn merge_catalog(all: Vec<DesktopEntryData>, records: Vec<GameRecord>) -> (r: Vec<DesktopEntryData>)
    ensures
        entries_view(r@) == merged_catalog(entries_view(all@), records_view(records@)),
{
    sort_by_name(append_records(all, records))
}

/// A name as the duplicate scan compares it: lowercased, then trimmed.
pub open spec fn scan_name(name: Seq<char>) -> Seq<char> {
    trim_seq(lowercase(name))
}

/// The duplicate scan over `es`: the positions of the entries found to be
/// duplicates (those that have a desktop file), and the run it ends in: how
/// many entries it holds, and the name and id of its first. An entry
/// continues the run when its name matches the first's, compared lowercased
/// and trimmed, or its id does; the second entry of a run also marks the
/// first.
pub open spec fn duplicate_scan(es: Seq<EntryView>) -> (Seq<int>, nat, Seq<char>, Seq<char>)
    decreases es.len(),
{
    if es.len() == 0 {
        (seq![], 0, ""@, ""@)
    } else {
        let (marked, count, name, id) = duplicate_scan(es.drop_last());
        let i = es.len() - 1;
        let e = es.last();
        if scan_name(name) == scan_name(e.name) || e.id == id {
            let with_first = if count == 1 && es[i - 1].path is Some {
                marked.push(i - 1)
            } else {
                marked
            };
            let with_this = if e.path is Some {
                with_first.push(i)
            } else {
                with_first
            };
            (with_this, count + 1, name, id)
        } else {
            (marked, 1, e.name, e.id)
        }
    }
}

proof fn lemma_duplicate_scan_count(es: Seq<EntryView>)
    ensures
        duplicate_scan(es).1 <= es.len(),
        duplicate_scan(es).1 == 1 ==> es.len() >= 1,
    decreases es.len(),
{
    if es.len() > 0 {
        lemma_duplicate_scan_count(es.drop_last());
    }
}

/// The positions of the catalog's entries that duplicate their neighbours,
/// as [`duplicate_scan`] finds them, for the grid to show where each comes
/// from.
pub fn duplicate_entries(entries: &[DesktopEntryData]) -> (r: Vec<usize>)
    ensures
        r@.map_values(|i: usize| i as int) == duplicate_scan(entries_view(entries@)).0,
{
    let ghost all = entries_view(entries@);
    let mut marked: Vec<usize> = Vec::new();
    let mut count: usize = 0;
    let mut run_name = to_owned_string("");
    let mut run_id = to_owned_string("");
    proof {
        reveal_strlit("");
    }
    let mut i: usize = 0;
    while i < entries.len()
        invariant
            i <= entries@.len(),
            all == entries_view(entries@),
            count <= i,
            duplicate_scan(all.subrange(0, i as int)) == (
                marked@.map_values(|k: usize| k as int),
                count as nat,
                run_name@,
                run_id@,
            ),
        decreases entries@.len() - i,
    {
        let ghost prefix = all.subrange(0, i + 1);
        proof {
            assert(prefix.drop_last() =~= all.subrange(0, i as int));
            assert(prefix.last() == entry_view(entries@[i as int]));
            lemma_duplicate_scan_count(all.subrange(0, i as int));
        }
        let e = &entries[i];
        let run_key = trim_str(to_lowercase(run_name.as_str()).as_str());
        let key = trim_str(to_lowercase(e.name.as_str()).as_str());
        if str_equal(run_key.as_str(), key.as_str()) || str_equal(e.id.as_str(), run_id.as_str()) {
            let ghost before = marked@;
            if count == 1 && entries[i - 1].path.is_some() {
                marked.push(i - 1);
                assert(marked@.map_values(|k: usize| k as int) =~= before.map_values(|k: usize| k as int).push(
                    i - 1,
                ));
                assert(prefix[i - 1] == entry_view(entries@[i - 1]));
            } else {
                proof {
                    if count == 1 {
                        assert(prefix[i - 1] == entry_view(entries@[i - 1]));
                    }
                }
            }
            let ghost middle = marked@;
            if e.path.is_some() {
                marked.push(i);
                assert(marked@.map_values(|k: usize| k as int) =~= middle.map_values(|k: usize| k as int).push(
                    i as int,
                ));
            }
            count = count + 1;
        } else {
            count = 1;
            run_name = to_owned_string(e.name.as_str());
            run_id = to_owned_string(e.id.as_str());
        }
        i = i + 1;
    }
    assert(all.subrange(0, entries@.len() as int) =~= all);
    marked
}

proof fn lemma_insert_entry_sorted(d: Seq<EntryView>, x: EntryView)
    requires
        sorted_by_name(d),
    ensures
        sorted_by_name(insert_entry(d, x)),
        insert_entry(d, x).to_multiset() == d.to_multiset().insert(x),
    decreases d.len(),
{
    broadcast use vstd::seq_lib::group_seq_properties;

    if d.len() == 0 {
        assert(insert_entry(d, x) =~= seq![x]);
    } else if chars_lt(x.name, d[0].name) {
        let r = seq![x] + d;
        assert forall|i: int, j: int| 0 <= i < j < r.len() implies !chars_lt(#[trigger] r[j].name, #[trigger] r[i].name) by {
            if i == 0 {
                lemma_chars_lt_total(x.name, d[j - 1].name);
                if j - 1 > 0 {
                    lemma_chars_lt_total(d[0].name, d[j - 1].name);
                    if chars_lt(d[j - 1].name, x.name) {
                        if chars_lt(d[0].name, d[j - 1].name) {
                            lemma_chars_lt_transitive(d[0].name, d[j - 1].name, x.name);
                            lemma_chars_lt_total(d[0].name, x.name);
                        } else if d[0].name == d[j - 1].name {
                            lemma_chars_lt_total(x.name, d[0].name);
                        }
                    }
                } else {
                    lemma_chars_lt_total(x.name, d[0].name);
                }
            } else {
                assert(r[i] == d[i - 1] && r[j] == d[j - 1]);
            }
        }
        assert(r.to_multiset() =~= d.to_multiset().insert(x)) by {
            vstd::seq_lib::lemma_multiset_commutative(seq![x], d);
        }
    } else {
        let rest = d.drop_first();
        assert(sorted_by_name(rest)) by {
            assert forall|i: int, j: int| 0 <= i < j < rest.len() implies !chars_lt(#[trigger] rest[j].name, #[trigger] rest[i].name) by {
                assert(rest[i] == d[i + 1] && rest[j] == d[j + 1]);
            }
        }
        lemma_insert_entry_sorted(rest, x);
        let tail = insert_entry(rest, x);
        let r = seq![d[0]] + tail;
        assert(r == insert_entry(d, x));
        assert forall|i: int, j: int| 0 <= i < j < r.len() implies !chars_lt(#[trigger] r[j].name, #[trigger] r[i].name) by {
            if i == 0 {
                let e = tail[j - 1];
                assert(tail.to_multiset().count(e) > 0);
                assert(rest.to_multiset().insert(x).count(e) > 0);
                if e == x {
                    lemma_chars_lt_total(x.name, d[0].name);
                } else {
                    assert(rest.to_multiset().count(e) > 0);
                    assert(rest.contains(e));
                    let w = choose|w: int| 0 <= w < rest.len() && rest[w] == e;
                    assert(d[w + 1] == e);
                }
            } else {
                assert(r[i] == tail[i - 1] && r[j] == tail[j - 1]);
            }
        }
        assert(r.to_multiset() =~= d.to_multiset().insert(x)) by {
            vstd::seq_lib::lemma_multiset_commutative(seq![d[0]], tail);
            vstd::seq_lib::lemma_multiset_commutative(seq![d[0]], rest);
            assert(d =~= seq![d[0]] + rest);
        }
    }
}

proof fn lemma_sort_entries(s: Seq<EntryView>)
    ensures
        sorted_by_name(sort_entries(s)),
        sort_entries(s).to_multiset() == s.to_multiset(),
    decreases s.len(),
{
    broadcast use vstd::seq_lib::group_seq_properties;

    if s.len() > 0 {
        lemma_sort_entries(s.drop_last());
        lemma_insert_entry_sorted(sort_entries(s.drop_last()), s.last());
        assert(s =~= s.drop_last().push(s.last()));
    }
}

proof fn lemma_appended(all: Seq<EntryView>, new: Seq<EntryView>)
    ensures
        appended(all, new).len() >= all.len(),
        forall|i: int| 0 <= i < all.len() ==> #[trigger] appended(all, new)[i] == all[i],
        ids_distinct(all) ==> ids_distinct(appended(all, new)),
        forall|k: int| 0 <= k < new.len() ==> holds_id(appended(all, new), #[trigger] new[k].id),
    decreases new.len(),
{
    if new.len() > 0 {
        lemma_appended(all, new.drop_last());
        let before = appended(all, new.drop_last());
        let after = appended(all, new);
        assert forall|k: int| 0 <= k < new.len() implies holds_id(after, #[trigger] new[k].id) by {
            if k < new.len() - 1 {
                assert(new.drop_last()[k] == new[k]);
                assert(holds_id(before, new.drop_last()[k].id));
                let w = choose|w: int| 0 <= w < before.len() && (#[trigger] before[w]).id == new[k].id;
                if !holds_id(before, new.last().id) {
                    assert(after[w] == before[w]);
                }
            } else if !holds_id(before, new.last().id) {
                assert(after[before.len() as int] == new.last());
            }
        }
        if !holds_id(before, new.last().id) {
            let after = before.push(new.last());
            if ids_distinct(all) {
                assert forall|i: int, j: int| 0 <= i < j < after.len() implies #[trigger] after[i].id
                    != #[trigger] after[j].id by {
                    if j == after.len() - 1 {
                        assert(before[i] == after[i]);
                    } else {
                        assert(before[i] == after[i] && before[j] == after[j]);
                    }
                }
            }
        }
    }
}

/// A provider batch keeps every entry the catalog held, adds no id twice,
/// and leaves the catalog sorted by name.
pub proof fn a_batch_keeps_the_catalog_sorted_and_its_entries(
    all: Seq<EntryView>,
    records: Seq<RecordView>,
)
    requires
        ids_distinct(all),
    ensures
        sorted_by_name(merged_catalog(all, records)),
        ids_distinct(merged_catalog(all, records)),
        forall|i: int| 0 <= i < all.len() ==> merged_catalog(all, records).contains(#[trigger] all[i]),
{
    broadcast use vstd::seq_lib::group_seq_properties;

    let incoming = records.map_values(|r: RecordView| record_entry(r));
    let added = appended(all, incoming);
    lemma_appended(all, incoming);
    lemma_sort_entries(added);
    let result = sort_entries(added);
    assert forall|i: int| 0 <= i < all.len() implies result.contains(#[trigger] all[i]) by {
        assert(added[i] == all[i]);
        assert(added.to_multiset().count(all[i]) > 0);
        assert(result.to_multiset().count(all[i]) > 0);
    }
    assert forall|i: int, j: int| 0 <= i < j < result.len() implies #[trigger] result[i].id
        != #[trigger] result[j].id by {
        if result[i].id == result[j].id {
            let a = result[i];
            let b = result[j];
            assert(result.to_multiset().count(a) > 0 && result.to_multiset().count(b) > 0);
            assert(added.contains(a) && added.contains(b));
            let p = choose|p: int| 0 <= p < added.len() && added[p] == a;
            let q = choose|q: int| 0 <= q < added.len() && added[q] == b;
            if p == q {
                assert(a == b);
                assert(result.to_multiset().count(a) >= 2) by {
                    lemma_count_two(result, i, j);
                }
                assert(added.to_multiset().count(a) >= 2);
                lemma_distinct_count(added, a);
            } else if p < q {
                assert(added[p].id != added[q].id);
            } else {
                assert(added[q].id != added[p].id);
            }
        }
    }
}

/// A page of RomM games, appended, leaves every entry already shown where it
/// was, holds every id of the page afterwards, and adds no id twice.
pub proof fn a_page_appends_without_moving_what_is_shown(all: Seq<EntryView>, records: Seq<RecordView>)
    requires
        ids_distinct(all),
    ensures
        ({
            let shown = appended(all, records.map_values(|r: RecordView| record_entry(r)));
            &&& shown.subrange(0, all.len() as int) == all
            &&& forall|k: int| 0 <= k < records.len() ==> holds_id(shown, #[trigger] record_entry(records[k]).id)
            &&& ids_distinct(shown)
        }),
{
    let incoming = records.map_values(|r: RecordView| record_entry(r));
    lemma_appended(all, incoming);
    let shown = appended(all, incoming);
    assert(shown.subrange(0, all.len() as int) =~= all);
    assert forall|k: int| 0 <= k < records.len() implies holds_id(shown, #[trigger] record_entry(records[k]).id) by {
        assert(incoming[k] == record_entry(records[k]));
        assert(holds_id(shown, incoming[k].id));
    }
}

proof fn lemma_count_two(s: Seq<EntryView>, i: int, j: int)
    requires
        0 <= i < j < s.len(),
        s[i] == s[j],
    ensures
        s.to_multiset().count(s[i]) >= 2,
    decreases s.len(),
{
    broadcast use vstd::seq_lib::group_seq_properties;

    let last = s.len() - 1;
    let shorter = s.drop_last();
    assert(s =~= shorter.push(s.last()));
    if j < last {
        assert(shorter[i] == s[i] && shorter[j] == s[j]);
        lemma_count_two(shorter, i, j);
    } else {
        assert(shorter[i] == s[i]);
        assert(shorter.contains(s[i]));
        assert(shorter.to_multiset().count(s[i]) >= 1);
    }
}

proof fn lemma_distinct_count(s: Seq<EntryView>, a: EntryView)
    requires
        ids_distinct(s),
    ensures
        s.to_multiset().count(a) <= 1,
    decreases s.len(),
{
    broadcast use vstd::seq_lib::group_seq_properties;

    if s.len() > 0 {
        let shorter = s.drop_last();
        assert(s =~= shorter.push(s.last()));
        assert(ids_distinct(shorter)) by {
            assert forall|i: int, j: int| 0 <= i < j < shorter.len() implies #[trigger] shorter[i].id
                != #[trigger] shorter[j].id by {
                assert(shorter[i] == s[i] && shorter[j] == s[j]);
            }
        }
        lemma_distinct_count(shorter, a);
        if s.last() == a && shorter.contains(a) {
            let w = choose|w: int| 0 <= w < shorter.len() && shorter[w] == a;
            assert(s[w] == a && s[s.len() - 1] == a);
            assert(s[w].id != s[s.len() - 1].id);
        }
    }
}

} // verus!
