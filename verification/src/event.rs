//! Events and notifications.
//!
//! A notification is one inbound state-change message: an entity, an event
//! type, and optional old/new snapshots. A diff event is one outbound unit
//! of work: one changed attribute of one entity, created by the handler and
//! consumed exactly once by the publisher.
use crate::value::AttrValue;
use crate::value::SpecValue;
use vstd::prelude::*;

verus! {

/// Model of a diff event.
#[verifier::ext_equal]
pub struct SpecEvent {
    pub entity_id: Seq<char>,
    pub event_type: Seq<char>,
    pub attribute: Seq<char>,
    pub value: SpecValue,
}

/// One outbound unit of work: the new value of one changed attribute.
pub struct DiffEvent {
    pub entity_id: String,
    pub event_type: String,
    pub attribute: String,
    pub value: AttrValue,
}

impl View for DiffEvent {
    type V = SpecEvent;

    open spec fn view(&self) -> SpecEvent {
        SpecEvent {
            entity_id: self.entity_id@,
            event_type: self.event_type@,
            attribute: self.attribute@,
            value: self.value@,
        }
    }
}

/// The model of an optional event.
pub open spec fn opt_event_view(ev: Option<DiffEvent>) -> Option<SpecEvent> {
    match ev {
        Some(e) => Some(e@),
        None => None,
    }
}

/// Model of a notification.
#[verifier::ext_equal]
pub struct SpecNotification {
    pub entity_id: Seq<char>,
    pub event_type: Seq<char>,
    pub old_attrs: Option<SpecValue>,
    pub new_attrs: Option<SpecValue>,
}

/// One inbound state-change message. A snapshot that the hub did not send
/// (entity creation or removal) is `None`; a present snapshot carries the
/// entity's attribute payload as one structured value.
pub struct Notification {
    pub entity_id: String,
    pub event_type: String,
    pub old_attrs: Option<AttrValue>,
    pub new_attrs: Option<AttrValue>,
}

impl View for Notification {
    type V = SpecNotification;

    open spec fn view(&self) -> SpecNotification {
        SpecNotification {
            entity_id: self.entity_id@,
            event_type: self.event_type@,
            old_attrs: match self.old_attrs {
                Some(v) => Some(v@),
                None => None,
            },
            new_attrs: match self.new_attrs {
                Some(v) => Some(v@),
                None => None,
            },
        }
    }
}

} // verus!
