//! The subscription handler.
//!
//! Reacts to one inbound state-change notification: a notification with a
//! missing snapshot is silently discarded; a snapshot whose attribute
//! payload is not an attribute mapping is rejected (the caller logs a
//! diagnostic and goes on); otherwise the two snapshots are diffed and one
//! diff event per changed attribute is enqueued, in diff order. Enqueueing
//! is fire-and-forget: a send failure never stops the handler.
use crate::attrmap::AttributeMap;
use crate::attrmap::map_of;
use crate::attrmap::obj_shaped;
use crate::channel::send_event;
use crate::differ::diff;
use crate::differ::updated_entries;
use crate::event::DiffEvent;
use crate::event::Notification;
use crate::event::SpecEvent;
use crate::event::SpecNotification;
use crate::value::SpecValue;
use vstd::prelude::*;

verus! {

broadcast use vstd::std_specs::vec::group_vec_axioms, vstd::seq::group_seq_axioms;

/// The hub did not send one of the two snapshots.
pub open spec fn missing_snapshot(n: SpecNotification) -> bool {
    n.old_attrs is None || n.new_attrs is None
}

/// One diff event per diffed entry, in diff order, all carrying the
/// notification's entity and event type.
pub open spec fn events_from(
    entity: Seq<char>,
    etype: Seq<char>,
    diffed: Seq<(Seq<char>, SpecValue)>,
) -> Seq<SpecEvent> {
    Seq::new(
        diffed.len(),
        |i: int|
            SpecEvent {
                entity_id: entity,
                event_type: etype,
                attribute: diffed[i].0,
                value: diffed[i].1,
            },
    )
}

/// The diff events a notification with two well-shaped snapshots yields.
pub open spec fn spec_diff_events(n: SpecNotification) -> Seq<SpecEvent> {
    events_from(
        n.entity_id,
        n.event_type,
        updated_entries(map_of(n.old_attrs->0->Obj_0), n.new_attrs->0->Obj_0),
    )
}

/// What became of one notification.
pub enum NotificationOutcome {
    /// A snapshot was missing: silently discarded, nothing emitted.
    Discarded,
    /// The old snapshot's payload is not an attribute mapping.
    RejectedOld,
    /// The new snapshot's payload is not an attribute mapping.
    RejectedNew,
    /// Both snapshots parsed: one event per changed attribute, in diff order.
    Events(Vec<DiffEvent>),
}

/// Turn one notification into its diff events.
///
/// Discarded exactly when a snapshot is missing; rejected exactly when a
/// present snapshot's payload is not an attribute mapping (the old one
/// checked first); otherwise the events are the diff of the two snapshots,
/// in the new snapshot's entry order.
#[verifier::loop_isolation(false)]
pub fn notification_events(n: Notification) -> (r: NotificationOutcome)
    ensures
        r is Discarded <==> missing_snapshot(n@),
        r is RejectedOld <==> (!missing_snapshot(n@) && !obj_shaped(n@.old_attrs->0)),
        r is RejectedNew <==> (!missing_snapshot(n@) && obj_shaped(n@.old_attrs->0)
            && !obj_shaped(n@.new_attrs->0)),
        r is Events <==> (!missing_snapshot(n@) && obj_shaped(n@.old_attrs->0) && obj_shaped(
            n@.new_attrs->0,
        )),
        r matches NotificationOutcome::Events(evs) ==> evs@.map_values(|e: DiffEvent| e@)
            == spec_diff_events(n@),
{
    let ghost n0 = n@;
    let Notification { entity_id, event_type, old_attrs, new_attrs } = n;
    let old_v = match old_attrs {
        Some(v) => v,
        None => {
            return NotificationOutcome::Discarded;
        },
    };
    let new_v = match new_attrs {
        Some(v) => v,
        None => {
            return NotificationOutcome::Discarded;
        },
    };
    let old_map = match AttributeMap::from_value(old_v) {
        Some(m) => m,
        None => {
            return NotificationOutcome::RejectedOld;
        },
    };
    let new_map = match AttributeMap::from_value(new_v) {
        Some(m) => m,
        None => {
            return NotificationOutcome::RejectedNew;
        },
    };
    let diffed = diff(&old_map, &new_map);
    let mut evs: Vec<DiffEvent> = Vec::new();
    let mut i: usize = 0;
    while i < diffed.len()
        invariant
            i <= diffed.len(),
            evs@.len() == i,
            forall|j: int| 0 <= j < i ==> evs@[j]@ == (SpecEvent {
                entity_id: entity_id@,
                event_type: event_type@,
                attribute: diffed@[j].0@,
                value: diffed@[j].1@,
            }),
        decreases diffed.len() - i,
    {
        let e = &diffed[i];
        evs.push(
            DiffEvent {
                entity_id: entity_id.clone(),
                event_type: event_type.clone(),
                attribute: e.0.clone(),
                value: e.1.duplicate(),
            },
        );
        i += 1;
    }
    proof {
        assert(evs@.map_values(|e: DiffEvent| e@) =~= spec_diff_events(n0));
    }
    NotificationOutcome::Events(evs)
}

/// What became of one notification, with the fate of its events.
pub enum ProcessOutcome {
    /// A snapshot was missing: silently discarded, nothing emitted.
    Discarded,
    /// The old snapshot's payload is not an attribute mapping.
    RejectedOld,
    /// The new snapshot's payload is not an attribute mapping.
    RejectedNew,
    /// The diff events were sent in order; `dropped` counts the sends that
    /// failed because the queue's receiving half was gone.
    Forwarded { enqueued: usize, dropped: usize },
}

/// Handle one notification: compute its diff events and enqueue each onto
/// the cross-task queue in diff order, fire-and-forget. Every event is
/// offered to the queue even if an earlier send failed.
#[verifier::loop_isolation(false)]
pub fn process_notification(
    tx: &tokio::sync::mpsc::UnboundedSender<DiffEvent>,
    n: Notification,
) -> (r: ProcessOutcome)
    ensures
        r is Discarded <==> missing_snapshot(n@),
        r is RejectedOld <==> (!missing_snapshot(n@) && !obj_shaped(n@.old_attrs->0)),
        r is RejectedNew <==> (!missing_snapshot(n@) && obj_shaped(n@.old_attrs->0)
            && !obj_shaped(n@.new_attrs->0)),
        r is Forwarded <==> (!missing_snapshot(n@) && obj_shaped(n@.old_attrs->0) && obj_shaped(
            n@.new_attrs->0,
        )),
        r matches ProcessOutcome::Forwarded { enqueued, dropped } ==> enqueued + dropped
            == spec_diff_events(n@).len(),
{
    match notification_events(n) {
        NotificationOutcome::Discarded => ProcessOutcome::Discarded,
        NotificationOutcome::RejectedOld => ProcessOutcome::RejectedOld,
        NotificationOutcome::RejectedNew => ProcessOutcome::RejectedNew,
        NotificationOutcome::Events(evs) => {
            let total = evs.len();
            let mut queue = evs;
            let mut enqueued: usize = 0;
            let mut dropped: usize = 0;
            while queue.len() > 0
                invariant
                    enqueued + dropped + queue.len() == total,
                decreases queue.len(),
            {
                let ev = queue.remove(0);
                if send_event(tx, ev) {
                    enqueued = enqueued + 1;
                } else {
                    dropped = dropped + 1;
                }
            }
            ProcessOutcome::Forwarded { enqueued, dropped }
        },
    }
}

} // verus!
