//! The cross-task event queue's sending half.
//!
//! The queue connecting the subscription handler to the publisher is an
//! unbounded channel; its sending half is synchronous and is the one
//! outside resource the handler touches.
use crate::event::DiffEvent;
use vstd::prelude::*;

verus! {

#[verifier::external_type_specification]
#[verifier::external_body]
#[verifier::reject_recursive_types(T)]
pub struct ExUnboundedSender<T>(tokio::sync::mpsc::UnboundedSender<T>);

/// Relies on tokio's `UnboundedSender::send`: it succeeds unless the
/// receiving half has been dropped. Whether that has happened is a fact
/// about the consumer task, not about the arguments, so nothing is promised
/// of the result; callers state what holds either way.
#[verifier::external_body]
pub(crate) fn send_event(
    tx: &tokio::sync::mpsc::UnboundedSender<DiffEvent>,
    ev: DiffEvent,
) -> (enqueued: bool) {
    tx.send(ev).is_ok()
}

} // verus!
