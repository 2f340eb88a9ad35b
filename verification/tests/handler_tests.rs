use hass_tether_agent::event::Notification;
use hass_tether_agent::handler::NotificationOutcome;
use hass_tether_agent::handler::ProcessOutcome;
use hass_tether_agent::handler::notification_events;
use hass_tether_agent::handler::process_notification;
use hass_tether_agent::value::AttrValue;

fn num(s: &str) -> AttrValue {
    AttrValue::Num(s.to_string())
}

fn text(s: &str) -> AttrValue {
    AttrValue::Str(s.to_string())
}

fn obj(entries: Vec<(&str, AttrValue)>) -> AttrValue {
    AttrValue::Obj(entries.into_iter().map(|(k, v)| (k.to_string(), v)).collect())
}

fn notification(
    entity: &str,
    old_attrs: Option<AttrValue>,
    new_attrs: Option<AttrValue>,
) -> Notification {
    Notification {
        entity_id: entity.to_string(),
        event_type: "state_changed".to_string(),
        old_attrs,
        new_attrs,
    }
}

#[test]
fn missing_old_snapshot_is_discarded() {
    let n = notification("light.x", None, Some(obj(vec![("a", num("1"))])));
    assert!(matches!(notification_events(n), NotificationOutcome::Discarded));
}

#[test]
fn missing_new_snapshot_is_discarded() {
    let n = notification("light.x", Some(obj(vec![("a", num("1"))])), None);
    assert!(matches!(notification_events(n), NotificationOutcome::Discarded));
}

#[test]
fn malformed_old_snapshot_is_rejected() {
    let n = notification(
        "light.x",
        Some(text("not a mapping")),
        Some(obj(vec![("a", num("1"))])),
    );
    assert!(matches!(notification_events(n), NotificationOutcome::RejectedOld));
}

#[test]
fn malformed_new_snapshot_is_rejected() {
    let n = notification(
        "light.x",
        Some(obj(vec![("a", num("1"))])),
        Some(AttrValue::Arr(vec![num("1")])),
    );
    assert!(matches!(notification_events(n), NotificationOutcome::RejectedNew));
}

#[test]
fn changed_attributes_become_events_in_diff_order() {
    let n = notification(
        "light.x",
        Some(obj(vec![("brightness", num("10")), ("color", text("red"))])),
        Some(obj(vec![("brightness", num("20")), ("color", text("red"))])),
    );
    match notification_events(n) {
        NotificationOutcome::Events(evs) => {
            assert_eq!(evs.len(), 1);
            assert_eq!(evs[0].entity_id, "light.x");
            assert_eq!(evs[0].event_type, "state_changed");
            assert_eq!(evs[0].attribute, "brightness");
            assert!(evs[0].value.deep_eq(&num("20")));
        }
        _ => panic!("expected events"),
    }
}

#[test]
fn consecutive_notifications_queue_events_in_arrival_order() {
    // First notification: brightness changes; second: state appears.
    let (tx, mut rx) = tokio::sync::mpsc::unbounded_channel();
    let n1 = notification(
        "light.x",
        Some(obj(vec![("brightness", num("10")), ("color", text("red"))])),
        Some(obj(vec![("brightness", num("20")), ("color", text("red"))])),
    );
    let n2 = notification(
        "light.x",
        Some(obj(vec![("brightness", num("20"))])),
        Some(obj(vec![("brightness", num("20")), ("state", text("on"))])),
    );
    match process_notification(&tx, n1) {
        ProcessOutcome::Forwarded { enqueued, dropped } => {
            assert_eq!(enqueued, 1);
            assert_eq!(dropped, 0);
        }
        _ => panic!("expected a forwarded outcome"),
    }
    match process_notification(&tx, n2) {
        ProcessOutcome::Forwarded { enqueued, dropped } => {
            assert_eq!(enqueued, 1);
            assert_eq!(dropped, 0);
        }
        _ => panic!("expected a forwarded outcome"),
    }
    let first = rx.try_recv().expect("one event from the first notification");
    assert_eq!(first.attribute, "brightness");
    assert!(first.value.deep_eq(&num("20")));
    let second = rx.try_recv().expect("one event from the second notification");
    assert_eq!(second.attribute, "state");
    assert!(second.value.deep_eq(&text("on")));
    assert!(rx.try_recv().is_err());
}

#[test]
fn discarded_notification_enqueues_nothing() {
    let (tx, mut rx) = tokio::sync::mpsc::unbounded_channel();
    let n = notification("light.x", None, Some(obj(vec![("a", num("1"))])));
    assert!(matches!(process_notification(&tx, n), ProcessOutcome::Discarded));
    assert!(rx.try_recv().is_err());
}

#[test]
fn send_failures_are_counted_and_do_not_stop_the_handler() {
    let (tx, rx) = tokio::sync::mpsc::unbounded_channel();
    drop(rx);
    let n = notification(
        "light.x",
        Some(obj(vec![])),
        Some(obj(vec![("a", num("1")), ("b", num("2"))])),
    );
    match process_notification(&tx, n) {
        ProcessOutcome::Forwarded { enqueued, dropped } => {
            assert_eq!(enqueued, 0);
            assert_eq!(dropped, 2);
        }
        _ => panic!("expected a forwarded outcome"),
    }
}
