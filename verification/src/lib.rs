//! Event bridge core: the diff-and-forward pipeline for home-automation
//! state changes.
//!
//! The library computes the changed subset of an entity's attributes for
//! each inbound state-change notification, turns each change into one
//! outbound event, enqueues the events on the cross-task channel, and
//! drives the publisher state machine that lazily registers one broker
//! output channel per (entity, attribute) pair. Everything here is
//! verified; the surrounding process (transport I/O, configuration,
//! logging) hands in plain values and carries out the actions the
//! publisher machine decides on.
pub mod attrmap;
pub mod channel;
pub mod event;
pub mod handler;
pub mod publisher;
pub mod differ;
pub mod value;
