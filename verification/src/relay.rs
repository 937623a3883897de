//! The relay: a mailbox of one slot between the poller, which offers
//! snapshots, and the reconciler, which takes them.
//!
//! A snapshot that is offered while another waits is refused and handed
//! back: nothing is overwritten, nothing is dropped, and no more than one
//! snapshot ever waits.

use crate::api::{asset_views, AssetDto, AssetView};
use vstd::prelude::*;

verus! {

/// One use of a relay, as the laws below speak of it.
pub enum RelayOp {
    Offer(Seq<AssetView>),
    Take,
}

/// What a run of operations has come to: the snapshot that waits, the
/// snapshots that were accepted and those that were taken, each in order.
pub struct RelayTrace {
    pub slot: Option<Seq<AssetView>>,
    pub accepted: Seq<Seq<AssetView>>,
    pub taken: Seq<Seq<AssetView>>,
}

/// The slot after `snapshot` is offered: it goes in where the slot is free,
/// and is refused where it is not.
pub open spec fn after_offer(slot: Option<Seq<AssetView>>, snapshot: Seq<AssetView>) -> Option<
    Seq<AssetView>,
> {
    match slot {
        None => Some(snapshot),
        Some(waiting) => Some(waiting),
    }
}

/// The trace after one more operation.
pub open spec fn after_op(t: RelayTrace, op: RelayOp) -> RelayTrace {
    match op {
        RelayOp::Offer(snapshot) => match t.slot {
            None => RelayTrace {
                slot: Some(snapshot),
                accepted: t.accepted.push(snapshot),
                taken: t.taken,
            },
            Some(_) => t,
        },
        RelayOp::Take => match t.slot {
            None => t,
            Some(waiting) => RelayTrace {
                slot: None,
                accepted: t.accepted,
                taken: t.taken.push(waiting),
            },
        },
    }
}

/// The trace of a run of operations on a relay that starts empty.
pub open spec fn trace_of(ops: Seq<RelayOp>) -> RelayTrace
    decreases ops.len(),
{
    if ops.len() == 0 {
        RelayTrace { slot: None, accepted: Seq::empty(), taken: Seq::empty() }
    } else {
        after_op(trace_of(ops.drop_last()), ops.last())
    }
}

/// The snapshots that wait in a slot: one or none.
pub open spec fn waiting(slot: Option<Seq<AssetView>>) -> Seq<Seq<AssetView>> {
    match slot {
        None => Seq::empty(),
        Some(s) => seq![s],
    }
}

/// Delivery keeps the order and loses nothing: whatever the poller and the
/// reconciler do in whatever order, the snapshots taken, followed by the one
/// that waits, are the snapshots accepted, in the order of their acceptance.
/// So each snapshot is taken before any that was accepted after it, and
/// never more than one waits.
pub proof fn lemma_delivery_in_order(ops: Seq<RelayOp>)
    ensures
        trace_of(ops).taken + waiting(trace_of(ops).slot) == trace_of(ops).accepted,
        trace_of(ops).accepted.len() - trace_of(ops).taken.len() <= 1,
    decreases ops.len(),
{
    if ops.len() > 0 {
        lemma_delivery_in_order(ops.drop_last());
        let before = trace_of(ops.drop_last());
        let t = trace_of(ops);
        assert(t.taken + waiting(t.slot) =~= t.accepted);
    } else {
        let t = trace_of(ops);
        assert(t.taken + waiting(t.slot) =~= t.accepted);
    }
}

/// Whether no operation of `ops` is a take.
pub open spec fn never_drained(ops: Seq<RelayOp>) -> bool {
    forall|k: int| 0 <= k < ops.len() ==> (#[trigger] ops[k]) is Offer
}

/// Buffering is bounded: where the reconciler never takes, at most one
/// snapshot was accepted, however many were offered, and it is the first
/// that was offered.
pub proof fn lemma_bounded_buffering(ops: Seq<RelayOp>)
    requires
        never_drained(ops),
    ensures
        trace_of(ops).taken.len() == 0,
        trace_of(ops).accepted.len() <= 1,
        ops.len() > 0 ==> trace_of(ops).slot == Some(ops[0]->Offer_0),
        ops.len() > 0 ==> trace_of(ops).accepted == seq![ops[0]->Offer_0],
    decreases ops.len(),
{
    if ops.len() > 0 {
        let head = ops.drop_last();
        assert forall|k: int| 0 <= k < head.len() implies (#[trigger] head[k]) is Offer by {
            assert(head[k] == ops[k]);
        }
        lemma_bounded_buffering(head);
        assert(ops.last() is Offer);
        if head.len() > 0 {
            assert(head[0] == ops[0]);
        } else {
            assert(ops.last() == ops[0]);
            assert(trace_of(ops).accepted =~= seq![ops[0]->Offer_0]);
        }
    }
}

/// The mailbox.
#[derive(Debug)]
pub struct Relay {
    slot: Option<Vec<AssetDto>>,
}

impl Relay {
    /// The snapshot that waits, if one does.
    pub closed spec fn pending(&self) -> Option<Seq<AssetView>> {
        match self.slot {
            Some(s) => Some(asset_views(s@)),
            None => None,
        }
    }

    /// An empty relay.
    pub fn new() -> (relay: Relay)
        ensures
            relay.pending() is None,
    {
        Relay { slot: None }
    }

    /// Whether a snapshot waits.
    pub fn is_full(&self) -> (full: bool)
        ensures
            full == self.pending() is Some,
    {
        self.slot.is_some()
    }

    /// Offers a snapshot. A free slot takes it. A full slot refuses it, and
    /// the snapshot comes back to the caller as it was: the one that waits
    /// is not touched.
    pub fn offer(&mut self, snapshot: Vec<AssetDto>) -> (r: Result<(), Vec<AssetDto>>)
        ensures
            final(self).pending() == after_offer(old(self).pending(), asset_views(snapshot@)),
            old(self).pending() is None ==> r is Ok,
            old(self).pending() is Some ==> r == Err::<(), Vec<AssetDto>>(snapshot),
    {
        if self.slot.is_some() {
            Err(snapshot)
        } else {
            self.slot = Some(snapshot);
            Ok(())
        }
    }

    /// Takes the snapshot that waits, if one does, and leaves the slot free.
    pub fn take(&mut self) -> (r: Option<Vec<AssetDto>>)
        ensures
            final(self).pending() is None,
            match old(self).pending() {
                Some(s) => r matches Some(v) && asset_views(v@) == s,
                None => r is None,
            },
    {
        self.slot.take()
    }
}

} // verus!
