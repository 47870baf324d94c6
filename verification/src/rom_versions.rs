//! The files of a RomM game (discs, regions, revisions) as the context menu
//! and the details screen list them. Two files can share a name, so a
//! repeated name is told apart by the file's id.
use crate::app_group::strs;
use crate::pages::{details_rom_id, rom_id_of};
use crate::text::{decimal, decimal_round_trips, push_decimal, str_concat, str_equal, to_owned_string};
use vstd::prelude::*;

verus! {

/// One file of a RomM game.
#[derive(Clone, Debug, PartialEq, Eq)]
pub struct RetroRomVersion {
    /// The file's RomM id.
    pub id: i64,
    /// What the menu calls it.
    pub title: String,
    /// The file RomM groups the others under.
    pub is_main_sibling: bool,
}

/// The label of a file called `title` with id `id` whose name an earlier file
/// already has.
pub open spec fn repeated_label(title: Seq<char>, id: i64) -> Seq<char> {
    title + " (#"@ + decimal(id as int) + ")"@
}

/// The labels of files called `titles` with ids `ids`: a name already used
/// by an earlier file gets the file's id appended.
pub open spec fn version_labels(titles: Seq<Seq<char>>, ids: Seq<i64>) -> Seq<Seq<char>> {
    Seq::new(
        titles.len(),
        |i: int|
            if titles.subrange(0, i).contains(titles[i]) {
                repeated_label(titles[i], ids[i])
            } else {
                titles[i]
            },
    )
}

/// The titles of `v`.
pub open spec fn titles_of(v: Seq<RetroRomVersion>) -> Seq<Seq<char>> {
    v.map_values(|r: RetroRomVersion| r.title@)
}

/// The ids of `v`.
pub open spec fn ids_of(v: Seq<RetroRomVersion>) -> Seq<i64> {
    v.map_values(|r: RetroRomVersion| r.id)
}

fn seen_before(seen: &Vec<String>, title: &str) -> (r: bool)
    ensures
        r == strs(seen@).contains(title@),
{
    let ghost names = strs(seen@);
    let mut k: usize = 0;
    while k < seen.len()
        invariant
            k <= seen@.len(),
            names == strs(seen@),
            forall|j: int| 0 <= j < k ==> names[j] != title@,
        decreases seen@.len() - k,
    {
        if str_equal(seen[k].as_str(), title) {
            assert(names[k as int] == title@);
            return true;
        }
        k = k + 1;
    }
    false
}

/// Gives each file a label no earlier file has, as [`version_labels`] says:
/// ids and the main-file mark stay, and a repeated name gets ` (#id)`.
pub fn label_versions(versions: &mut Vec<RetroRomVersion>)
    ensures
        final(versions)@.len() == old(versions)@.len(),
        ids_of(final(versions)@) == ids_of(old(versions)@),
        forall|i: int|
            0 <= i < old(versions)@.len() ==> #[trigger] final(versions)@[i].is_main_sibling == old(
                versions,
            )@[i].is_main_sibling,
        titles_of(final(versions)@) == version_labels(titles_of(old(versions)@), ids_of(old(versions)@)),
{
    let ghost titles = titles_of(versions@);
    let ghost ids = ids_of(versions@);
    let ghost first = versions@;
    let mut seen: Vec<String> = Vec::new();
    let mut i: usize = 0;
    while i < versions.len()
        invariant
            i <= versions@.len(),
            versions@.len() == first.len(),
            titles == titles_of(first),
            ids == ids_of(first),
            strs(seen@) == titles.subrange(0, i as int),
            forall|j: int| i <= j < first.len() ==> #[trigger] versions@[j] == first[j],
            forall|j: int| 0 <= j < first.len() ==> (#[trigger] versions@[j]).id == first[j].id,
            forall|j: int| 0 <= j < first.len() ==> (#[trigger] versions@[j]).is_main_sibling == first[j].is_main_sibling,
            forall|j: int|
                0 <= j < i ==> #[trigger] versions@[j].title@ == version_labels(titles, ids)[j],
        decreases versions@.len() - i,
    {
        let id = versions[i].id;
        let main = versions[i].is_main_sibling;
        let title = to_owned_string(versions[i].title.as_str());
        assert(title@ == titles[i as int]);
        let repeated = seen_before(&seen, title.as_str());
        let ghost before_seen = seen@;
        assert(strs(before_seen).len() == before_seen.len());
        let kept = to_owned_string(title.as_str());
        seen.push(kept);
        assert(strs(seen@).len() == seen@.len());
        assert forall|k: int| 0 <= k < i + 1 implies #[trigger] strs(seen@)[k]
            == titles.subrange(0, i + 1)[k] by {
            if k < i {
                assert(seen@[k] == before_seen[k]);
                assert(strs(before_seen)[k] == titles.subrange(0, i as int)[k]);
            }
        }
        assert(strs(seen@) =~= titles.subrange(0, i + 1));
        assert(versions@[i as int] == first[i as int]);
        assert(id == first[i as int].id && main == first[i as int].is_main_sibling);
        if repeated {
            let mut label = str_concat(title.as_str(), " (#");
            push_decimal(&mut label, id);
            let label = str_concat(label.as_str(), ")");
            assert(label@ == version_labels(titles, ids)[i as int]);
            versions.set(i, RetroRomVersion { id, title: label, is_main_sibling: main });
        } else {
            assert(title@ == version_labels(titles, ids)[i as int]);
            versions.set(i, RetroRomVersion { id, title, is_main_sibling: main });
        }
        i = i + 1;
    }
    assert(titles_of(versions@) =~= version_labels(titles, ids));
    assert(ids_of(versions@) =~= ids);
}

/// The label of the file Play launches, for a game with several files:
/// the first listed under `rom_id`; `None` for a single-file game, where
/// it would only repeat the title.
pub fn current_version_label(versions: &Vec<RetroRomVersion>, rom_id: i64) -> (r: Option<String>)
    ensures
        versions@.len() < 2 ==> r is None,
        versions@.len() >= 2 ==> match r {
            Some(t) => exists|i: int|
                0 <= i < versions@.len() && versions@[i].id == rom_id && versions@[i].title@ == t@ && forall|
                    j: int,
                | 0 <= j < i ==> #[trigger] versions@[j].id != rom_id,
            None => forall|i: int| 0 <= i < versions@.len() ==> #[trigger] versions@[i].id != rom_id,
        },
{
    if versions.len() < 2 {
        return None;
    }
    let mut i: usize = 0;
    while i < versions.len()
        invariant
            i <= versions@.len(),
            versions@.len() >= 2,
            forall|j: int| 0 <= j < i ==> #[trigger] versions@[j].id != rom_id,
        decreases versions@.len() - i,
    {
        if versions[i].id == rom_id {
            return Some(to_owned_string(versions[i].title.as_str()));
        }
        i = i + 1;
    }
    None
}

/// The files the context menu lists for the RomM record `record_id` called
/// `name`, before labelling: the record's own file first (labelled with
/// `own_label` when the record has one, else with `name`, and marked as the
/// main file), then its other files; `None` for a single-file game.
pub open spec fn menu_files_of(
    record_id: Seq<char>,
    own_label: Option<Seq<char>>,
    name: Seq<char>,
    others: Seq<(i64, Seq<char>, bool)>,
) -> Option<Seq<(i64, Seq<char>, bool)>> {
    if others.len() == 0 {
        None
    } else {
        let own = match rom_id_of(record_id) {
            Some(id) => seq![
                (
                    id,
                    match own_label {
                        Some(l) => l,
                        None => name,
                    },
                    true,
                ),
            ],
            None => seq![],
        };
        Some(own + others)
    }
}

/// The files as (id, title, main) triples.
pub open spec fn files_view(v: Seq<RetroRomVersion>) -> Seq<(i64, Seq<char>, bool)> {
    v.map_values(|r: RetroRomVersion| (r.id, r.title@, r.is_main_sibling))
}

/// The files the context menu lists for a RomM record, labelled so that a
/// repeated name is told apart by its id, as [`menu_files_of`] and
/// [`version_labels`] say.
pub fn menu_versions(record_id: &str, own_label: Option<String>, name: &str, others: Vec<RetroRomVersion>) -> (r:
    Option<Vec<RetroRomVersion>>)
    ensures
        match menu_files_of(
            record_id@,
            match own_label {
                Some(l) => Some(l@),
                None => None,
            },
            name@,
            files_view(others@),
        ) {
            None => r is None,
            Some(files) => r matches Some(v) && v@.len() == files.len() && forall|i: int|
                0 <= i < files.len() ==> (#[trigger] v@[i]).id == files[i].0 && v@[i].is_main_sibling == files[i].2
                    && v@[i].title@ == version_labels(
                    files.map_values(|f: (i64, Seq<char>, bool)| f.1),
                    files.map_values(|f: (i64, Seq<char>, bool)| f.0),
                )[i],
        },
{
    if others.len() == 0 {
        return None;
    }
    let ghost own_view = match &own_label {
        Some(l) => Some(l@),
        None => None::<Seq<char>>,
    };
    let mut versions: Vec<RetroRomVersion> = Vec::new();
    if let Some(id) = details_rom_id(record_id) {
        let title = match own_label {
            Some(l) => l,
            None => to_owned_string(name),
        };
        versions.push(RetroRomVersion { id, title, is_main_sibling: true });
    }
    let ghost own_part = files_view(versions@);
    let mut rest = others;
    let ghost all_others = files_view(rest@);
    let n = rest.len();
    let mut k: usize = 0;
    while k < n
        invariant
            k <= n,
            n == all_others.len(),
            rest@.len() == n - k,
            files_view(rest@) == all_others.subrange(k as int, n as int),
            files_view(versions@) == own_part + all_others.subrange(0, k as int),
        decreases n - k,
    {
        let ghost before_rest = rest@;
        let ghost before = versions@;
        let item = rest.remove(0);
        assert(files_view(before_rest)[0] == all_others[k as int]);
        assert(files_view(rest@) =~= all_others.subrange(k + 1, n as int)) by {
            assert forall|j: int| 0 <= j < rest@.len() implies #[trigger] files_view(rest@)[j]
                == all_others.subrange(k + 1, n as int)[j] by {
                assert(rest@[j] == before_rest[j + 1]);
                assert(files_view(before_rest)[j + 1] == all_others.subrange(k as int, n as int)[j + 1]);
            }
        }
        versions.push(item);
        assert(files_view(versions@) =~= own_part + all_others.subrange(0, k + 1)) by {
            assert(files_view(versions@) =~= files_view(before).push(files_view(before_rest)[0]));
        }
        k = k + 1;
    }
    assert(all_others.subrange(0, n as int) =~= all_others);
    let ghost files = files_view(versions@);
    assert(Some(files) == menu_files_of(record_id@, own_view, name@, files_view(others@))) by {
        if rom_id_of(record_id@) is None {
            assert(own_part =~= Seq::<(i64, Seq<char>, bool)>::empty());
        }
    }
    let ghost unlabelled = versions@;
    label_versions(&mut versions);
    proof {
        assert(titles_of(unlabelled) =~= files.map_values(|f: (i64, Seq<char>, bool)| f.1));
        assert(ids_of(unlabelled) =~= files.map_values(|f: (i64, Seq<char>, bool)| f.0));
        assert forall|i: int| 0 <= i < files.len() implies (#[trigger] versions@[i]).id == files[i].0
            && versions@[i].is_main_sibling == files[i].2 by {
            assert(ids_of(versions@)[i] == ids_of(unlabelled)[i]);
            assert(files[i] == (unlabelled[i].id, unlabelled[i].title@, unlabelled[i].is_main_sibling));
        }
        assert forall|i: int| 0 <= i < files.len() implies (#[trigger] versions@[i]).title@ == version_labels(
            files.map_values(|f: (i64, Seq<char>, bool)| f.1),
            files.map_values(|f: (i64, Seq<char>, bool)| f.0),
        )[i] by {
            assert(titles_of(versions@)[i] == versions@[i].title@);
        }
    }
    Some(versions)
}

proof fn lemma_decimal_injective(a: i64, b: i64)
    requires
        decimal(a as int) == decimal(b as int),
    ensures
        a == b,
{
    decimal_round_trips(a);
    decimal_round_trips(b);
}

proof fn lemma_label_hash(title: Seq<char>, id: i64)
    requires
        !title.contains('#'),
    ensures
        repeated_label(title, id).contains('#'),
        repeated_label(title, id)[title.len() + 2int] == '#',
        forall|k: int|
            0 <= k < repeated_label(title, id).len() && #[trigger] repeated_label(title, id)[k] == '#' ==> k
                == title.len() + 2,
{
    reveal_strlit(" (#");
    reveal_strlit(")");
    let l = repeated_label(title, id);
    let d = decimal(id as int);
    assert(l[title.len() + 2int] == '#');
    assert forall|k: int| 0 <= k < l.len() && #[trigger] l[k] == '#' implies k == title.len() + 2 by {
        if k < title.len() {
            assert(l[k] == title[k]);
        } else if title.len() + 3 <= k < title.len() + 3 + d.len() {
            assert(l[k] == d[k - title.len() - 3]);
            lemma_decimal_chars(id);
        }
    }
}

proof fn lemma_decimal_chars(n: i64)
    ensures
        !decimal(n as int).contains('#'),
{
    decimal_round_trips(n);
    let s = decimal(n as int);
    if s.contains('#') {
        let k = choose|k: int| 0 <= k < s.len() && s[k] == '#';
        let signed = s[0] == '+' || s[0] == '-';
        if signed {
            assert(k > 0);
            assert(s.skip(1)[k - 1] == s[k]);
            assert(crate::text::is_digit(s.skip(1)[k - 1]));
        } else {
            assert(crate::text::is_digit(s[k]));
        }
    }
}

/// No two files read the same once labelled, when their ids differ and no
/// name holds a `#`.
pub proof fn labelled_files_read_differently(titles: Seq<Seq<char>>, ids: Seq<i64>)
    requires
        titles.len() == ids.len(),
        forall|i: int, j: int| 0 <= i < j < ids.len() ==> ids[i] != ids[j],
        forall|i: int| 0 <= i < titles.len() ==> !(#[trigger] titles[i]).contains('#'),
    ensures
        forall|i: int, j: int|
            0 <= i < j < titles.len() ==> #[trigger] version_labels(titles, ids)[i] != #[trigger] version_labels(
                titles,
                ids,
            )[j],
{
    let labels = version_labels(titles, ids);
    assert forall|i: int, j: int| 0 <= i < j < titles.len() implies #[trigger] labels[i] != #[trigger] labels[j] by {
        let ri = titles.subrange(0, i).contains(titles[i]);
        let rj = titles.subrange(0, j).contains(titles[j]);
        if !rj {
            assert(titles.subrange(0, j)[i] == titles[i]);
            if ri {
                lemma_label_hash(titles[i], ids[i]);
                assert(labels[i][titles[i].len() + 2int] == '#');
                if labels[i] == labels[j] {
                    assert(titles[j].contains('#'));
                }
            }
        } else if !ri {
            lemma_label_hash(titles[j], ids[j]);
            if labels[i] == labels[j] {
                assert(labels[j][titles[j].len() + 2int] == '#');
                assert(titles[i].contains('#'));
            }
        } else {
            lemma_label_hash(titles[i], ids[i]);
            lemma_label_hash(titles[j], ids[j]);
            if labels[i] == labels[j] {
                let li = labels[i];
                assert(li[titles[i].len() + 2int] == '#');
                assert(labels[j][titles[i].len() + 2int] == '#');
                assert(titles[i].len() == titles[j].len());
                let n = titles[i].len();
                reveal_strlit(" (#");
                reveal_strlit(")");
                let di = decimal(ids[i] as int);
                let dj = decimal(ids[j] as int);
                assert(li.len() == n + 4 + di.len());
                assert(labels[j].len() == n + 4 + dj.len());
                assert forall|k: int| 0 <= k < di.len() implies di[k] == dj[k] by {
                    assert(li[n + 3 + k] == di[k]);
                    assert(labels[j][n + 3 + k] == dj[k]);
                }
                assert(di =~= dj);
                lemma_decimal_injective(ids[i], ids[j]);
            }
        }
    }
}

} // verus!
