//! The input broker's bookkeeping between its events: which gamepad device
//! nodes are being watched under which id, and what the control socket's
//! commands ask for.
use crate::text::{paths_equal, same_path, to_owned_string};
use vstd::prelude::*;

verus! {

/// The device nodes being watched, each under the id its watcher reports
/// with, and the id the next one gets.
#[derive(Clone, Debug)]
pub struct DeviceRegistry {
    watched: Vec<(String, u64)>,
    next_device: u64,
}

/// Some watched node is the same path as `path`.
pub open spec fn is_watched(watched: Seq<(Seq<char>, u64)>, path: Seq<char>) -> bool {
    exists|i: int| 0 <= i < watched.len() && #[trigger] same_path(watched[i].0, path)
}

/// `watched` without the entries for `path` under `device`.
pub open spec fn without_watch(watched: Seq<(Seq<char>, u64)>, path: Seq<char>, device: u64) -> Seq<
    (Seq<char>, u64),
>
    decreases watched.len(),
{
    if watched.len() == 0 {
        seq![]
    } else {
        let rest = without_watch(watched.drop_last(), path, device);
        let last = watched.last();
        if same_path(last.0, path) && last.1 == device {
            rest
        } else {
            rest.push(last)
        }
    }
}

impl DeviceRegistry {
    /// The watched nodes and their ids, in the order they were attached.
    pub closed spec fn watched(&self) -> Seq<(Seq<char>, u64)> {
        self.watched@.map_values(|e: (String, u64)| (e.0@, e.1))
    }

    /// The id the next attached node gets.
    pub closed spec fn next_id(&self) -> u64 {
        self.next_device
    }

    /// Every id handed out so far is below the next one.
    pub open spec fn wf(&self) -> bool {
        forall|i: int| 0 <= i < self.watched().len() ==> #[trigger] self.watched()[i].1 < self.next_id()
    }

    /// Nothing watched; ids start at 1.
    pub fn new() -> (r: Self)
        ensures
            r.watched() == Seq::<(Seq<char>, u64)>::empty(),
            r.next_id() == 1,
            r.wf(),
    {
        let r = DeviceRegistry { watched: Vec::new(), next_device: 1 };
        assert(r.watched() =~= Seq::<(Seq<char>, u64)>::empty());
        r
    }

    /// The id the next attached node gets.
    pub fn next_device(&self) -> (r: u64)
        ensures
            r == self.next_id(),
    {
        self.next_device
    }

    /// Starts watching the node at `path` unless it is already watched; the id
    /// its watcher reports with, or `None` when it was already watched.
    pub fn attach(&mut self, path: &str) -> (r: Option<u64>)
        requires
            old(self).wf(),
            old(self).next_id() < u64::MAX,
        ensures
            final(self).wf(),
            is_watched(old(self).watched(), path@) ==> r is None && final(self).watched()
                == old(self).watched() && final(self).next_id() == old(self).next_id(),
            !is_watched(old(self).watched(), path@) ==> r == Some(old(self).next_id())
                && final(self).watched() == old(self).watched().push((path@, old(self).next_id()))
                && final(self).next_id() == old(self).next_id() + 1,
    {
        let mut i: usize = 0;
        while i < self.watched.len()
            invariant
                i <= self.watched@.len(),
                self.wf(),
                self.next_id() < u64::MAX,
                forall|k: int| 0 <= k < i ==> !#[trigger] same_path(self.watched()[k].0, path@),
            decreases self.watched@.len() - i,
        {
            if paths_equal(self.watched[i].0.as_str(), path) {
                assert(same_path(self.watched()[i as int].0, path@));
                return None;
            }
            i = i + 1;
        }
        let id = self.next_device;
        let ghost before = self.watched();
        self.watched.push((to_owned_string(path), id));
        self.next_device = id + 1;
        assert(self.watched() =~= before.push((path@, id)));
        Some(id)
    }

    /// The watcher for `path` under `device` ended: the node stops being
    /// watched, unless it has been attached again since under another id.
    pub fn detach(&mut self, path: &str, device: u64)
        requires
            old(self).wf(),
        ensures
            final(self).wf(),
            final(self).watched() == without_watch(old(self).watched(), path@, device),
            final(self).next_id() == old(self).next_id(),
    {
        let ghost all = self.watched();
        let ghost next = self.next_device;
        let mut kept: Vec<(String, u64)> = Vec::new();
        let mut i: usize = 0;
        while i < self.watched.len()
            invariant
                i <= self.watched@.len(),
                all == self.watched(),
                next == self.next_device,
                self.wf(),
                kept@.map_values(|e: (String, u64)| (e.0@, e.1)) == without_watch(
                    all.subrange(0, i as int),
                    path@,
                    device,
                ),
                forall|k: int| 0 <= k < kept@.len() ==> #[trigger] kept@[k].1 < next,
            decreases self.watched@.len() - i,
        {
            proof {
                assert(all.subrange(0, i + 1).drop_last() =~= all.subrange(0, i as int));
                assert(all.subrange(0, i + 1).last() == all[i as int]);
                assert(all[i as int].1 < next);
            }
            let same = paths_equal(self.watched[i].0.as_str(), path) && self.watched[i].1 == device;
            if !same {
                let entry = (to_owned_string(self.watched[i].0.as_str()), self.watched[i].1);
                let ghost prev = kept@;
                kept.push(entry);
                assert(kept@.map_values(|e: (String, u64)| (e.0@, e.1)) =~= prev.map_values(
                    |e: (String, u64)| (e.0@, e.1),
                ).push(all[i as int]));
            }
            i = i + 1;
        }
        assert(all.subrange(0, all.len() as int) =~= all);
        self.watched = kept;
    }
}

/// A watcher that ended after its node was attached again under a new id
/// cannot take the new watch away.
pub proof fn a_stale_watcher_cannot_drop_a_newer_watch(
    watched: Seq<(Seq<char>, u64)>,
    path: Seq<char>,
    stale: u64,
    i: int,
)
    requires
        0 <= i < watched.len(),
        watched[i].1 != stale,
    ensures
        without_watch(watched, path, stale).contains(watched[i]),
    decreases watched.len(),
{
    let rest = without_watch(watched.drop_last(), path, stale);
    if i == watched.len() - 1 {
        assert(without_watch(watched, path, stale) == rest.push(watched[i]));
        assert(without_watch(watched, path, stale)[rest.len() as int] == watched[i]);
    } else {
        assert(watched.drop_last()[i] == watched[i]);
        a_stale_watcher_cannot_drop_a_newer_watch(watched.drop_last(), path, stale, i);
        let k = choose|k: int| 0 <= k < rest.len() && rest[k] == watched[i];
        let out = without_watch(watched, path, stale);
        assert(out[k] == rest[k]);
    }
}

/// What the control socket's command asks for: desktop input on, off, or an
/// invalid command.
pub open spec fn profile_of(command: Seq<u8>) -> Option<bool> {
    if command == seq![100u8, 101u8, 115u8, 107u8, 116u8, 111u8, 112u8] {
        Some(true)
    } else if command == seq![110u8, 97u8, 116u8, 105u8, 118u8, 101u8] {
        Some(false)
    } else {
        None
    }
}

/// Reads a control socket command: `desktop` turns the compatibility mapping
/// on, `native` turns it off, anything else is ignored.
pub fn profile_command(command: &[u8]) -> (r: Option<bool>)
    ensures
        r == profile_of(command@),
{
    let desktop: [u8; 7] = [100, 101, 115, 107, 116, 111, 112];
    let native: [u8; 6] = [110, 97, 116, 105, 118, 101];
    if bytes_equal(command, &desktop) {
        assert(desktop@ =~= seq![100u8, 101u8, 115u8, 107u8, 116u8, 111u8, 112u8]);
        Some(true)
    } else if bytes_equal(command, &native) {
        assert(native@ =~= seq![110u8, 97u8, 116u8, 105u8, 118u8, 101u8]);
        assert(desktop@ =~= seq![100u8, 101u8, 115u8, 107u8, 116u8, 111u8, 112u8]);
        Some(false)
    } else {
        assert(desktop@ =~= seq![100u8, 101u8, 115u8, 107u8, 116u8, 111u8, 112u8]);
        assert(native@ =~= seq![110u8, 97u8, 116u8, 105u8, 118u8, 101u8]);
        None
    }
}

/// Whether two byte strings are equal.
fn bytes_equal(a: &[u8], b: &[u8]) -> (r: bool)
    ensures
        r == (a@ == b@),
{
    if a.len() != b.len() {
        return false;
    }
    let mut i: usize = 0;
    while i < a.len()
        invariant
            a@.len() == b@.len(),
            i <= a@.len(),
            forall|k: int| 0 <= k < i ==> a@[k] == b@[k],
        decreases a@.len() - i,
    {
        if a[i] != b[i] {
            return false;
        }
        i = i + 1;
    }
    assert(a@ =~= b@);
    true
}

} // verus!
