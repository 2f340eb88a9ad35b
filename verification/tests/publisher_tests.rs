use hass_tether_agent::event::DiffEvent;
use hass_tether_agent::publisher::Action;
use hass_tether_agent::publisher::Publisher;
use hass_tether_agent::value::AttrValue;

fn num(s: &str) -> AttrValue {
    AttrValue::Num(s.to_string())
}

fn event(entity: &str, attribute: &str, value: AttrValue) -> DiffEvent {
    DiffEvent {
        entity_id: entity.to_string(),
        event_type: "state_changed".to_string(),
        attribute: attribute.to_string(),
        value,
    }
}

#[test]
fn first_event_registers_a_channel_then_publishes_on_it() {
    let mut p = Publisher::new(true);
    let a = p.on_event(Some(event("light.x", "brightness", num("20"))));
    match a {
        Action::CreateChannel { attribute, topic } => {
            assert_eq!(attribute, "brightness");
            assert_eq!(topic, "homeassistant/light.x/brightness");
        }
        _ => panic!("expected a channel registration"),
    }
    let a = p.on_channel_created(true);
    match a {
        Action::Publish { channel, value } => {
            assert_eq!(channel, 0);
            assert!(value.deep_eq(&num("20")));
        }
        _ => panic!("expected a publish"),
    }
    assert!(matches!(p.on_publish_result(true), Action::AwaitEvent));
}

#[test]
fn same_entity_and_attribute_reuse_the_same_channel() {
    let mut p = Publisher::new(true);
    assert!(matches!(
        p.on_event(Some(event("light.x", "brightness", num("20")))),
        Action::CreateChannel { .. }
    ));
    match p.on_channel_created(true) {
        Action::Publish { channel, .. } => assert_eq!(channel, 0),
        _ => panic!("expected a publish"),
    }
    assert!(matches!(p.on_publish_result(true), Action::AwaitEvent));

    // A different attribute gets a new channel at the next slot.
    assert!(matches!(
        p.on_event(Some(event("light.x", "state", AttrValue::Str("on".to_string())))),
        Action::CreateChannel { .. }
    ));
    match p.on_channel_created(true) {
        Action::Publish { channel, .. } => assert_eq!(channel, 1),
        _ => panic!("expected a publish"),
    }
    assert!(matches!(p.on_publish_result(true), Action::AwaitEvent));

    // The first pair again: no registration, the identical channel slot.
    match p.on_event(Some(event("light.x", "brightness", num("30")))) {
        Action::Publish { channel, value } => {
            assert_eq!(channel, 0);
            assert!(value.deep_eq(&num("30")));
        }
        _ => panic!("expected direct reuse of the registered channel"),
    }
}

#[test]
fn reconnect_success_still_publishes_the_dequeued_event() {
    let mut p = Publisher::new(false);
    assert!(matches!(
        p.on_event(Some(event("light.x", "brightness", num("20")))),
        Action::Reconnect
    ));
    match p.on_reconnect_result(true) {
        Action::CreateChannel { attribute, topic } => {
            assert_eq!(attribute, "brightness");
            assert_eq!(topic, "homeassistant/light.x/brightness");
        }
        _ => panic!("expected a channel registration"),
    }
    match p.on_channel_created(true) {
        Action::Publish { channel, value } => {
            assert_eq!(channel, 0);
            assert!(value.deep_eq(&num("20")));
        }
        _ => panic!("expected the dequeued event's value to be published"),
    }
}

#[test]
fn reconnect_failure_stops_the_loop_without_publishing() {
    let mut p = Publisher::new(false);
    assert!(matches!(
        p.on_event(Some(event("light.x", "brightness", num("20")))),
        Action::Reconnect
    ));
    assert!(matches!(p.on_reconnect_result(false), Action::Stop));
}

#[test]
fn channel_registration_failure_stops_the_loop() {
    let mut p = Publisher::new(true);
    assert!(matches!(
        p.on_event(Some(event("light.x", "brightness", num("20")))),
        Action::CreateChannel { .. }
    ));
    assert!(matches!(p.on_channel_created(false), Action::Stop));
}

#[test]
fn publish_failure_never_blocks_the_next_event() {
    let mut p = Publisher::new(true);
    assert!(matches!(
        p.on_event(Some(event("light.x", "brightness", num("20")))),
        Action::CreateChannel { .. }
    ));
    assert!(matches!(p.on_channel_created(true), Action::Publish { .. }));
    // The publish fails; the machine simply waits for the next event.
    assert!(matches!(p.on_publish_result(false), Action::AwaitEvent));
    // The next event for the same pair still publishes, on the same channel.
    match p.on_event(Some(event("light.x", "brightness", num("21")))) {
        Action::Publish { channel, value } => {
            assert_eq!(channel, 0);
            assert!(value.deep_eq(&num("21")));
        }
        _ => panic!("expected the next event to publish"),
    }
}

#[test]
fn end_of_stream_stops_the_loop() {
    let mut p = Publisher::new(true);
    assert!(matches!(p.on_event(None), Action::Stop));
}
