//! The reconciler: it takes snapshots in the order of their delivery and
//! brings the world index up to date, one object at a time.
//!
//! The reconciler decides; the world acts. For the oldest pending object it
//! says what the world must do (`next_mutation`), and once the world has done
//! it, it records the sighting (`complete`) and moves on to the next object.

use crate::api::{asset_views, AssetDto, AssetView};
use crate::map::{
    after_sighting, distinct_ids, lemma_sighting, planned, tracks, MapState, TrackedView,
    WorldMutation,
};
use vstd::prelude::*;

verus! {

/// The index after the sightings of `objects`, in their order; where the
/// k-th object is untracked when its turn comes, it is entered under the
/// k-th handle.
pub open spec fn reconciled(w: Seq<TrackedView>, objects: Seq<AssetView>, handles: Seq<u64>) -> Seq<
    TrackedView,
>
    recommends
        handles.len() == objects.len(),
    decreases objects.len(),
{
    if objects.len() == 0 {
        w
    } else {
        after_sighting(
            reconciled(w, objects.drop_last(), handles.drop_last()),
            objects.last(),
            handles.last(),
        )
    }
}


/// The last of `objects` that carries `id`, if any does.
pub open spec fn last_seen(objects: Seq<AssetView>, id: Seq<char>) -> Option<AssetView>
    decreases objects.len(),
{
    if objects.len() == 0 {
        None
    } else if objects.last().id == id {
        Some(objects.last())
    } else {
        last_seen(objects.drop_last(), id)
    }
}

/// Whether every one of `objects` is tracked in `w`.
pub open spec fn all_tracked(w: Seq<TrackedView>, objects: Seq<AssetView>) -> bool {
    forall|k: int| 0 <= k < objects.len() ==> tracks(w, (#[trigger] objects[k]).id)
}

/// What reconciling `objects` does to an index `w` of distinct identifiers.
///
/// Nothing leaves the index: every entry of `w` keeps its place, its
/// identifier, its handle and its class. Every one of `objects` is tracked
/// afterwards. An entry whose object is among `objects` is where the last of
/// them with its identifier is; any other entry was in `w` and is as it was.
/// Where all of `objects` were tracked before, the index has not grown.
pub proof fn lemma_reconciled(w: Seq<TrackedView>, objects: Seq<AssetView>, handles: Seq<u64>)
    requires
        distinct_ids(w),
        handles.len() == objects.len(),
    ensures
        distinct_ids(reconciled(w, objects, handles)),
        w.len() <= reconciled(w, objects, handles).len(),
        all_tracked(reconciled(w, objects, handles), objects),
        all_tracked(w, objects) ==> reconciled(w, objects, handles).len() == w.len(),
        forall|i: int|
            0 <= i < w.len() ==> {
                let e = #[trigger] reconciled(w, objects, handles)[i];
                e.id == w[i].id && e.entity == w[i].entity && e.class == w[i].class
            },
        forall|i: int|
            0 <= i < reconciled(w, objects, handles).len() ==> {
                let e = #[trigger] reconciled(w, objects, handles)[i];
                match last_seen(objects, e.id) {
                    Some(a) => e.x == a.x && e.y == a.y,
                    None => i < w.len() && e == w[i],
                }
            },
    decreases objects.len(),
{
    let r = reconciled(w, objects, handles);
    if objects.len() == 0 {
    } else {
        let before = objects.drop_last();
        let a = objects.last();
        let m = reconciled(w, before, handles.drop_last());
        lemma_reconciled(w, before, handles.drop_last());
        lemma_sighting(m, a, handles.last());
        assert(r == after_sighting(m, a, handles.last()));
        assert forall|k: int| 0 <= k < objects.len() implies tracks(
            r,
            (#[trigger] objects[k]).id,
        ) by {
            if k < before.len() {
                assert(objects[k] == before[k]);
                let id = before[k].id;
                assert(tracks(m, id));
                let p = choose|p: int| 0 <= p < m.len() && (#[trigger] m[p]).id == id;
                assert(r[p].id == id);
            }
        }
        if all_tracked(w, objects) {
            assert forall|k: int| 0 <= k < before.len() implies tracks(
                w,
                (#[trigger] before[k]).id,
            ) by {
                assert(before[k] == objects[k]);
            }
            assert(tracks(w, a.id));
            let p = choose|p: int| 0 <= p < w.len() && (#[trigger] w[p]).id == a.id;
            assert(m[p].id == a.id);
            assert(tracks(m, a.id));
        }
        assert forall|i: int| 0 <= i < w.len() implies {
            let e = #[trigger] r[i];
            e.id == w[i].id && e.entity == w[i].entity && e.class == w[i].class
        } by {
            assert(m[i].id == w[i].id);
        }
        assert forall|i: int| 0 <= i < r.len() implies {
            let e = #[trigger] r[i];
            match last_seen(objects, e.id) {
                Some(s) => e.x == s.x && e.y == s.y,
                None => i < w.len() && e == w[i],
            }
        } by {
            if i < m.len() {
                assert(r[i].id == m[i].id);
                if m[i].id != a.id {
                    assert(r[i] == m[i]);
                }
            } else {
                assert(r[i] == r.last());
            }
        }
    }
}

/// Snapshots take effect in the order of their delivery: reconciling the
/// objects of one snapshot and then those of a second is reconciling the
/// first snapshot in full and then, from the index that this leaves, the
/// second.
pub proof fn lemma_delivery_order(
    w: Seq<TrackedView>,
    first: Seq<AssetView>,
    first_handles: Seq<u64>,
    second: Seq<AssetView>,
    second_handles: Seq<u64>,
)
    requires
        first_handles.len() == first.len(),
        second_handles.len() == second.len(),
    ensures
        reconciled(w, first + second, first_handles + second_handles) == reconciled(
            reconciled(w, first, first_handles),
            second,
            second_handles,
        ),
    decreases second.len(),
{
    if second.len() == 0 {
        assert(first + second =~= first);
        assert(first_handles + second_handles =~= first_handles);
    } else {
        lemma_delivery_order(
            w,
            first,
            first_handles,
            second.drop_last(),
            second_handles.drop_last(),
        );
        assert((first + second).drop_last() =~= first + second.drop_last());
        assert((first_handles + second_handles).drop_last() =~= first_handles
            + second_handles.drop_last());
    }
}

/// Reconciling the same snapshot a second time changes nothing: the index
/// keeps its size, and every entry its place, handle, class and position,
/// whatever handles the world would have offered the second time.
pub proof fn lemma_reconcile_idempotent(
    w: Seq<TrackedView>,
    snapshot: Seq<AssetView>,
    handles: Seq<u64>,
    handles_again: Seq<u64>,
)
    requires
        distinct_ids(w),
        handles.len() == snapshot.len(),
        handles_again.len() == snapshot.len(),
    ensures
        reconciled(reconciled(w, snapshot, handles), snapshot, handles_again) == reconciled(
            w,
            snapshot,
            handles,
        ),
{
    let once = reconciled(w, snapshot, handles);
    let twice = reconciled(once, snapshot, handles_again);
    lemma_reconciled(w, snapshot, handles);
    lemma_reconciled(once, snapshot, handles_again);
    assert forall|i: int| 0 <= i < once.len() implies twice[i] == once[i] by {
        let e = twice[i];
        let o = once[i];
        assert(e.id == o.id && e.entity == o.entity && e.class == o.class);
    }
    assert(twice =~= once);
}

/// Nothing leaves the index: an object that a snapshot does not hold is
/// still tracked after the snapshot is reconciled, in its place and where it
/// was last seen.
pub proof fn lemma_absent_object_stays(
    w: Seq<TrackedView>,
    snapshot: Seq<AssetView>,
    handles: Seq<u64>,
    i: int,
)
    requires
        distinct_ids(w),
        handles.len() == snapshot.len(),
        0 <= i < w.len(),
        last_seen(snapshot, w[i].id) is None,
    ensures
        i < reconciled(w, snapshot, handles).len(),
        reconciled(w, snapshot, handles)[i] == w[i],
{
    lemma_reconciled(w, snapshot, handles);
    let e = reconciled(w, snapshot, handles)[i];
    assert(e.id == w[i].id);
}

pub struct Reconciler {
    index: MapState,
    /// The objects of the delivered snapshots; those before `next` are done.
    queue: Vec<AssetDto>,
    next: usize,
}

impl Reconciler {
    /// The world index as it stands.
    pub closed spec fn index_view(&self) -> Seq<TrackedView> {
        self.index@
    }

    /// The objects that were delivered and are not yet reconciled, oldest first.
    pub closed spec fn pending(&self) -> Seq<AssetView> {
        if self.next <= self.queue@.len() {
            asset_views(self.queue@).skip(self.next as int)
        } else {
            Seq::empty()
        }
    }

    /// A reconciler that tracks nothing and has nothing pending.
    pub fn new() -> (r: Reconciler)
        ensures
            r.index_view() == Seq::<TrackedView>::empty(),
            r.pending() == Seq::<AssetView>::empty(),
    {
        let r = Reconciler { index: MapState::new(), queue: Vec::new(), next: 0 };
        assert(r.pending() =~= Seq::<AssetView>::empty());
        r
    }

    /// The world index.
    pub fn index(&self) -> (index: &MapState)
        ensures
            index@ == self.index_view(),
            distinct_ids(index@),
    {
        self.index.ids_are_distinct();
        &self.index
    }

    /// How many objects are pending.
    pub fn pending_len(&self) -> (n: usize)
        ensures
            n == self.pending().len(),
    {
        if self.next <= self.queue.len() {
            self.queue.len() - self.next
        } else {
            0
        }
    }

    /// Takes one snapshot in: its objects queue up, in their order, behind
    /// those of every snapshot delivered before it. The index is untouched.
    pub fn deliver(&mut self, snapshot: Vec<AssetDto>)
        ensures
            final(self).pending() == old(self).pending() + asset_views(snapshot@),
            final(self).index_view() == old(self).index_view(),
    {
        let mut snapshot = snapshot;
        let ghost incoming = asset_views(snapshot@);
        if self.next >= self.queue.len() {
            self.queue.clear();
            self.next = 0;
        }
        let ghost before = self.queue@;
        self.queue.append(&mut snapshot);
        assert(asset_views(self.queue@) =~= asset_views(before) + incoming);
        assert(self.pending() =~= old(self).pending() + incoming);
    }

    /// What the world must do for the oldest pending object, or nothing
    /// where none is pending.
    pub fn next_mutation(&self) -> (m: Option<WorldMutation>)
        ensures
            self.pending().len() == 0 ==> m is None,
            self.pending().len() > 0 ==> (m matches Some(w) && w@ == planned(
                self.index_view(),
                self.pending()[0],
            )),
    {
        if self.next < self.queue.len() {
            Some(self.index.plan(&self.queue[self.next]))
        } else {
            None
        }
    }

    /// Records the sighting of the oldest pending object, after the world
    /// has acted on it, and drops it from the pending ones. `entity` is the
    /// handle of the entity that the world created; for an object that was
    /// tracked already it is not used. Where nothing is pending, nothing
    /// changes.
    pub fn complete(&mut self, entity: u64)
        ensures
            old(self).pending().len() == 0 ==> final(self).pending() == old(self).pending()
                && final(self).index_view() == old(self).index_view(),
            old(self).pending().len() > 0 ==> final(self).pending() == old(self).pending().skip(1)
                && final(self).index_view() == after_sighting(
                old(self).index_view(),
                old(self).pending()[0],
                entity,
            ),
            distinct_ids(final(self).index_view()),
    {
        self.index.ids_are_distinct();
        if self.next < self.queue.len() {
            self.index.record(&self.queue[self.next], entity);
            self.next = self.next + 1;
            assert(self.pending() =~= old(self).pending().skip(1));
        }
    }
}

} // verus!
