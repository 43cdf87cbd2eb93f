//! Invariants of the registry and what follows from them: identifiers are
//! never issued twice, and the registered paths follow the directory tree.

use vstd::prelude::*;
use crate::backend::BackendView;
use crate::backend::{WatchRequestView, WatchTarget};
use crate::instance::{InstanceID, InstanceStatus, InstanceView, LazyData};
use crate::message::BridgeDataLoadState;

verus! {

/// One reading of a directory: where it is, what the reading gave, and the
/// slot that a newly registered instance would take at that moment.
pub ghost struct DirectoryRead {
    pub path: Seq<char>,
    pub loaded: Result<InstanceView, Seq<char>>,
    pub slot: usize,
}

impl BackendView {
    /// Whether no identifier is recorded for two paths.
    pub open spec fn distinct_paths(self) -> bool {
        forall|p: Seq<char>, q: Seq<char>|
            p != q && #[trigger] self.instance_by_path.contains_key(p)
                && #[trigger] self.instance_by_path.contains_key(q)
                ==> self.instance_by_path[p] != self.instance_by_path[q]
    }

    /// Whether the registry is coherent: every instance knows its slot,
    /// every identifier in it was issued before the current generation, and
    /// no identifier is recorded for two paths.
    pub open spec fn coherent(self) -> bool {
        self.slots_consistent() && self.fresh() && self.distinct_paths()
    }

    /// The registry after a sequence of directory readings, taken in order.
    pub open spec fn after_reads(self, reads: Seq<DirectoryRead>) -> BackendView
        decreases reads.len(),
    {
        if reads.len() == 0 {
            self
        } else {
            let last = reads.last();
            self.after_reads(reads.drop_last()).after_load(last.slot, last.path, last.loaded)
        }
    }

    /// Whether a sequence of readings can happen from this registry: each
    /// new instance goes to a slot that is vacant at that moment, and the
    /// generation counter does not run out.
    pub open spec fn admits(self, reads: Seq<DirectoryRead>) -> bool {
        &&& self.generation + reads.len() <= usize::MAX
        &&& forall|i: int|
            0 <= i < reads.len() ==> !self.after_reads(reads.take(i)).instances.contains_key(
                (#[trigger] reads[i]).slot,
            )
    }
}

/// Whether the directory at `path` holds a valid instance according to the
/// last reading of it among `reads`, or, if it was never read, whether it is
/// among `initial`.
pub open spec fn last_known_valid(
    initial: Set<Seq<char>>,
    reads: Seq<DirectoryRead>,
    path: Seq<char>,
) -> bool
    decreases reads.len(),
{
    if reads.len() == 0 {
        initial.contains(path)
    } else if reads.last().path == path {
        reads.last().loaded is Ok
    } else {
        last_known_valid(initial, reads.drop_last(), path)
    }
}

/// An empty registry is coherent.
pub proof fn lemma_empty_is_coherent(s: BackendView)
    requires
        s.instances == Map::<usize, InstanceView>::empty(),
        s.instance_by_path == Map::<Seq<char>, InstanceID>::empty(),
    ensures
        s.coherent(),
        s.instance_paths() == Set::<Seq<char>>::empty(),
{
    assert(s.instance_paths() =~= Set::<Seq<char>>::empty());
}

/// Replacing a registered instance by one with the same identifier keeps
/// the registry coherent and every identifier as live as it was. Changes of
/// the process status and of the load states are of this kind.
pub proof fn lemma_same_identity_keeps_coherent(
    s: BackendView,
    id: InstanceID,
    instance: InstanceView,
)
    requires
        s.coherent(),
        s.live(id),
        instance.id == id,
    ensures
        s.with_instance(id, instance).coherent(),
        forall|other: InstanceID| s.with_instance(id, instance).live(other) == s.live(other),
        forall|path: Seq<char>|
            s.with_instance(id, instance).instance_at(path) == s.instance_at(path),
{
    let t = s.with_instance(id, instance);
    assert forall|slot: usize| #[trigger] t.instances.contains_key(slot) implies t.instances[slot].id.index
        == slot && t.instances[slot].id.generation < t.generation by {
        if slot != id.index {
            assert(s.instances.contains_key(slot));
        }
    }
    assert forall|other: InstanceID| t.live(other) == s.live(other) by {}
}

/// A change of the process status of an instance keeps the registry
/// coherent and every path at its instance.
pub proof fn lemma_status_keeps_coherent(s: BackendView, id: InstanceID, status: InstanceStatus)
    requires
        s.coherent(),
    ensures
        s.with_status(id, status).coherent(),
        forall|path: Seq<char>| s.with_status(id, status).instance_at(path) == s.instance_at(path),
{
    if s.live(id) {
        lemma_same_identity_keeps_coherent(s, id, s.instances[id.index].with_status(status));
    }
}

/// A change of a load state of an instance keeps the registry coherent and
/// every path at its instance.
pub proof fn lemma_load_state_keeps_coherent(
    s: BackendView,
    id: InstanceID,
    which: LazyData,
    state: BridgeDataLoadState,
)
    requires
        s.coherent(),
    ensures
        s.with_load_state(id, which, state).coherent(),
        forall|path: Seq<char>|
            s.with_load_state(id, which, state).instance_at(path) == s.instance_at(path),
{
    if s.live(id) {
        lemma_same_identity_keeps_coherent(
            s,
            id,
            s.instances[id.index].with_load_state(which, state),
        );
    }
}

/// The outcome of a watch request keeps the registry coherent and every
/// path at its instance.
pub proof fn lemma_watch_keeps_coherent(s: BackendView, request: WatchRequestView, watched: bool)
    requires
        s.coherent(),
    ensures
        s.after_watch(request, watched).coherent(),
        forall|path: Seq<char>|
            s.after_watch(request, watched).instance_at(path) == s.instance_at(path),
{
}

/// An identifier that was issued before stays behind the generation counter
/// as long as that has not run out, and differs from every identifier that
/// is issued from now on.
pub proof fn lemma_issued_id_stays_issued(
    s: BackendView,
    slot: usize,
    path: Seq<char>,
    loaded: Result<InstanceView, Seq<char>>,
    id: InstanceID,
)
    requires
        id.generation < s.generation,
        s.generation < usize::MAX,
    ensures
        id.generation < s.after_load(slot, path, loaded).generation,
        s.next_id(slot) != id,
{
}

/// Removing an instance keeps the registry coherent.
pub proof fn lemma_removal_keeps_coherent(s: BackendView, id: InstanceID)
    requires
        s.coherent(),
    ensures
        s.without(id).coherent(),
{
    let t = s.without(id);
    assert forall|slot: usize| #[trigger] t.instances.contains_key(slot) implies t.instances[slot].id.index
        == slot && t.instances[slot].id.generation < t.generation by {
        assert(s.instances.contains_key(slot));
    }
}

/// Taking in a directory reading keeps the registry coherent, as long as a
/// new instance goes to a vacant slot and gets a generation below the
/// largest.
pub proof fn lemma_load_keeps_coherent(
    s: BackendView,
    slot: usize,
    path: Seq<char>,
    loaded: Result<InstanceView, Seq<char>>,
)
    requires
        s.coherent(),
        !s.instances.contains_key(slot),
        s.generation < usize::MAX || !(loaded is Ok && s.instance_at(path) is None),
    ensures
        s.after_load(slot, path, loaded).coherent(),
{
    let t = s.after_load(slot, path, loaded);
    match loaded {
        Err(_) => {
            match s.instance_at(path) {
                Some(id) => {
                    lemma_removal_keeps_coherent(s, id);
                },
                None => {},
            }
        },
        Ok(instance) => {
            match s.instance_at(path) {
                Some(id) => {
                    lemma_same_identity_keeps_coherent(s, id, s.updated_instance(id, instance));
                },
                None => {
                    let id = s.next_id(slot);
                    assert forall|k: usize| #[trigger] t.instances.contains_key(k) implies t.instances[k].id.index
                        == k && t.instances[k].id.generation < t.generation by {
                        if k != slot {
                            assert(s.instances.contains_key(k));
                        }
                    }
                    assert forall|p: Seq<char>| #[trigger]
                        t.instance_by_path.contains_key(p) implies t.instance_by_path[p].generation
                        < t.generation by {
                        if p != path {
                            assert(s.instance_by_path.contains_key(p));
                        }
                    }
                    assert forall|p: Seq<char>, q: Seq<char>|
                        p != q && #[trigger] t.instance_by_path.contains_key(p)
                            && #[trigger] t.instance_by_path.contains_key(
                            q,
                        ) implies t.instance_by_path[p] != t.instance_by_path[q] by {
                        if p != path {
                            assert(s.instance_by_path.contains_key(p));
                        }
                        if q != path {
                            assert(s.instance_by_path.contains_key(q));
                        }
                    }
                },
            }
        },
    }
}

/// A directory reading decides whether an instance is registered at its
/// path, and at no other path: after it, an instance is registered there
/// exactly if the reading found a valid one.
pub proof fn lemma_load_decides_presence(
    s: BackendView,
    slot: usize,
    path: Seq<char>,
    loaded: Result<InstanceView, Seq<char>>,
)
    requires
        s.coherent(),
        !s.instances.contains_key(slot),
    ensures
        s.after_load(slot, path, loaded).instance_at(path) is Some <==> loaded is Ok,
        forall|other: Seq<char>|
            other != path ==> #[trigger] s.after_load(slot, path, loaded).instance_at(other)
                == s.instance_at(other),
{
    let t = s.after_load(slot, path, loaded);
    assert forall|other: Seq<char>| other != path implies #[trigger] t.instance_at(other)
        == s.instance_at(other) by {
        if s.instance_by_path.contains_key(other) {
            let other_id = s.instance_by_path[other];
            match loaded {
                Err(_) => {
                    match s.instance_at(path) {
                        Some(id) => {
                            assert(s.instance_by_path.contains_key(path));
                            assert(other_id != id);
                            if s.live(other_id) {
                                assert(s.instances.contains_key(other_id.index));
                                assert(s.instances.contains_key(id.index));
                                assert(other_id.index != id.index);
                            }
                        },
                        None => {},
                    }
                },
                Ok(instance) => {
                    match s.instance_at(path) {
                        Some(id) => {
                            assert(s.instance_by_path.contains_key(path));
                            assert(other_id != id);
                        },
                        None => {
                            assert(other_id.generation < s.generation);
                        },
                    }
                },
            }
        }
    }
}

/// Readings that the registry admits keep it coherent, and every prefix of
/// them is admitted too.
pub proof fn lemma_reads_keep_coherent(s: BackendView, reads: Seq<DirectoryRead>)
    requires
        s.coherent(),
        s.admits(reads),
    ensures
        s.after_reads(reads).coherent(),
        s.after_reads(reads).generation == s.generation + count_registrations(s, reads),
        s.after_reads(reads).wrapped == s.wrapped,
        count_registrations(s, reads) <= reads.len(),
    decreases reads.len(),
{
    if reads.len() > 0 {
        let front = reads.drop_last();
        lemma_prefix_admitted(s, reads);
        lemma_reads_keep_coherent(s, front);
        assert(reads.take(reads.len() - 1) == front);
        assert(!s.after_reads(front).instances.contains_key(reads[reads.len() - 1].slot));
        lemma_load_keeps_coherent(
            s.after_reads(front),
            reads.last().slot,
            reads.last().path,
            reads.last().loaded,
        );
    }
}

/// How many of the readings register a new instance.
pub open spec fn count_registrations(s: BackendView, reads: Seq<DirectoryRead>) -> nat
    decreases reads.len(),
{
    if reads.len() == 0 {
        0
    } else {
        let before = s.after_reads(reads.drop_last());
        let last = reads.last();
        count_registrations(s, reads.drop_last()) + (if last.loaded is Ok && before.instance_at(
            last.path,
        ) is None {
            1nat
        } else {
            0nat
        })
    }
}

/// What a registry admits, it admits without the last reading.
pub proof fn lemma_prefix_admitted(s: BackendView, reads: Seq<DirectoryRead>)
    requires
        s.admits(reads),
        reads.len() > 0,
    ensures
        s.admits(reads.drop_last()),
{
    let front = reads.drop_last();
    assert forall|i: int| 0 <= i < front.len() implies !s.after_reads(
        front.take(i),
    ).instances.contains_key((#[trigger] front[i]).slot) by {
        assert(front.take(i) == reads.take(i));
        assert(front[i] == reads[i]);
    }
}

/// After a sequence of directory readings, an instance is registered at a
/// path exactly if the last reading of that path found a valid instance, or,
/// for a path that was never read, if one was registered there before.
pub proof fn lemma_reads_follow_last_reading(
    s: BackendView,
    reads: Seq<DirectoryRead>,
    path: Seq<char>,
)
    requires
        s.coherent(),
        s.admits(reads),
    ensures
        s.after_reads(reads).instance_paths().contains(path) == last_known_valid(
            s.instance_paths(),
            reads,
            path,
        ),
    decreases reads.len(),
{
    if reads.len() > 0 {
        let front = reads.drop_last();
        let last = reads.last();
        lemma_prefix_admitted(s, reads);
        lemma_reads_keep_coherent(s, front);
        lemma_reads_follow_last_reading(s, front, path);
        assert(reads.take(reads.len() - 1) == front);
        assert(!s.after_reads(front).instances.contains_key(reads[reads.len() - 1].slot));
        lemma_load_decides_presence(s.after_reads(front), last.slot, last.path, last.loaded);
    }
}

/// Replaying the changes of a directory tree gives the registry that a scan
/// from scratch gives: if the readings that were replayed and the readings
/// of the scan agree, path by path, on what the tree holds in the end, then
/// the two registries hold instances at the same paths.
pub proof fn lemma_replay_equals_rescan(
    replayed_from: BackendView,
    replayed: Seq<DirectoryRead>,
    scanned_from: BackendView,
    scanned: Seq<DirectoryRead>,
    tree: Set<Seq<char>>,
)
    requires
        replayed_from.coherent(),
        replayed_from.admits(replayed),
        scanned_from.coherent(),
        scanned_from.admits(scanned),
        scanned_from.instance_paths() == Set::<Seq<char>>::empty(),
        forall|path: Seq<char>|
            tree.contains(path) == #[trigger] last_known_valid(
                replayed_from.instance_paths(),
                replayed,
                path,
            ),
        forall|path: Seq<char>|
            tree.contains(path) == #[trigger] last_known_valid(Set::empty(), scanned, path),
    ensures
        replayed_from.after_reads(replayed).instance_paths() == tree,
        scanned_from.after_reads(scanned).instance_paths() == tree,
        replayed_from.after_reads(replayed).instance_paths() == scanned_from.after_reads(
            scanned,
        ).instance_paths(),
{
    assert forall|path: Seq<char>|
        replayed_from.after_reads(replayed).instance_paths().contains(path) == tree.contains(
            path,
        ) by {
        lemma_reads_follow_last_reading(replayed_from, replayed, path);
    }
    assert forall|path: Seq<char>|
        scanned_from.after_reads(scanned).instance_paths().contains(path) == tree.contains(
            path,
        ) by {
        lemma_reads_follow_last_reading(scanned_from, scanned, path);
    }
    assert(replayed_from.after_reads(replayed).instance_paths() =~= tree);
    assert(scanned_from.after_reads(scanned).instance_paths() =~= tree);
}

/// An identifier never comes back: when an instance is removed and a new
/// one is registered in the slot it left, the new identifier differs from
/// the old one, and the old one addresses nothing.
pub proof fn lemma_reused_slot_gets_new_id(
    s: BackendView,
    old_id: InstanceID,
    path: Seq<char>,
    loaded: InstanceView,
)
    requires
        s.coherent(),
        s.live(old_id),
        s.without(old_id).instance_at(path) is None,
    ensures
        ({
            let removed = s.without(old_id);
            let new_id = removed.next_id(old_id.index);
            let after = removed.after_load(old_id.index, path, Ok(loaded));
            &&& new_id.index == old_id.index
            &&& new_id != old_id
            &&& after.live(new_id)
            &&& !after.live(old_id)
        }),
{
}

/// Every identifier that a coherent registry holds differs from the one it
/// issues next, whatever slot that one takes.
pub proof fn lemma_next_id_is_new(s: BackendView, slot: usize, id: InstanceID)
    requires
        s.coherent(),
        s.live(id) || exists|path: Seq<char>|
            s.instance_by_path.contains_key(path) && s.instance_by_path[path] == id,
    ensures
        s.next_id(slot) != id,
{
    if s.live(id) {
        assert(s.instances.contains_key(id.index));
    } else {
        let path = choose|path: Seq<char>|
            s.instance_by_path.contains_key(path) && s.instance_by_path[path] == id;
        assert(s.instance_by_path.contains_key(path));
    }
}

} // verus!
