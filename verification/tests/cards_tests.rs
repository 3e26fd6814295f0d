use cosmic_notifications::cards::Cards;
use cosmic_notifications::config::NotificationsConfig;
use cosmic_notifications::model::{CloseReason, HintValue, Notification};
use cosmic_notifications::pipeline::Input;

fn note(id: u32, urgency: u8, time: u64) -> Notification {
    note_app(id, urgency, time, "app")
}

fn note_app(id: u32, urgency: u8, time: u64, app: &str) -> Notification {
    let hints = vec![("urgency".to_string(), HintValue::U8(urgency))];
    Notification::new(app, id, "", "s", "b", Vec::new(), hints, -1, time)
}

#[test]
fn cards_sort_by_urgency_then_age() {
    let mut cards = Cards::new();
    let config = NotificationsConfig::default();
    cards.push_notification(note(1, 1, 50), &config);
    cards.push_notification(note(2, 0, 10), &config);
    cards.push_notification(note(3, 2, 5), &config);
    cards.push_notification(note(4, 1, 20), &config);
    let ids: Vec<u32> = cards.cards.iter().map(|n| n.id).collect();
    assert_eq!(ids, vec![2, 4, 1, 3]);
}

#[test]
fn first_card_creates_surface_unless_dnd() {
    let mut cards = Cards::new();
    let config = NotificationsConfig::default();
    let r = cards.push_notification(note(1, 1, 0), &config);
    assert!(r.create_surface);
    assert!(cards.active_surface);
    let r = cards.push_notification(note(2, 1, 1), &config);
    assert!(!r.create_surface);

    let mut cards = Cards::new();
    let mut dnd = NotificationsConfig::default();
    dnd.do_not_disturb = true;
    let r = cards.push_notification(note(1, 1, 0), &dnd);
    assert!(!r.create_surface);
    assert!(!cards.active_surface);
}

#[test]
fn timeout_is_clamped_to_urgency_ceiling() {
    let mut cards = Cards::new();
    let config = NotificationsConfig::default();
    // Default request (negative) becomes 3000, under the normal ceiling 5000.
    let r = cards.push_notification(note(1, 1, 0), &config);
    assert_eq!(r.timeout, 3000);
    // An explicit long request is clamped to the normal ceiling.
    let n = note(2, 1, 1);
    let n = Notification { expire_timeout: 60000, ..n };
    let r = cards.push_notification(n, &config);
    assert_eq!(r.timeout, 5000);
    // Urgent notifications have no ceiling by default.
    let n = Notification { expire_timeout: 60000, ..note(3, 2, 2) };
    let r = cards.push_notification(n, &config);
    assert_eq!(r.timeout, 60000);
    // Zero means never expire and survives clamping.
    let n = Notification { expire_timeout: 0, ..note(4, 1, 3) };
    let r = cards.push_notification(n, &config);
    assert_eq!(r.timeout, 0);
}

#[test]
fn replace_reinserts_at_its_own_position() {
    let mut cards = Cards::new();
    let config = NotificationsConfig::default();
    cards.push_notification(note(1, 1, 10), &config);
    cards.push_notification(note(2, 1, 20), &config);
    let replacement = Notification {
        summary: "new".to_string(),
        ..note(1, 1, 10)
    };
    assert!(cards.replace_notification(replacement));
    assert_eq!(cards.cards.len(), 2);
    assert_eq!(cards.cards[0].id, 1);
    assert_eq!(cards.cards[0].summary, "new");
    // A replacement with a different urgency moves to its new position.
    let urgent = note(1, 2, 10);
    assert!(cards.replace_notification(urgent));
    assert_eq!(cards.cards.len(), 2);
    assert_eq!(cards.cards[0].id, 2);
    assert_eq!(cards.cards[1].id, 1);
    // An unknown id leaves the list alone; the caller admits it as new.
    assert!(!cards.replace_notification(note(9, 1, 30)));
    assert_eq!(cards.cards.len(), 2);
}

#[test]
fn replace_never_destroys_a_key_tied_card() {
    let mut cards = Cards::new();
    // Two live cards whose display keys tie exactly (same urgency, same
    // millisecond): replacing one must keep both alive.
    cards.cards = vec![note(1, 1, 10), note(2, 1, 10)];
    let replacement = Notification {
        summary: "new".to_string(),
        ..note(1, 1, 10)
    };
    assert!(cards.replace_notification(replacement));
    assert_eq!(cards.cards.len(), 2);
    let mut ids: Vec<u32> = cards.cards.iter().map(|n| n.id).collect();
    ids.sort();
    assert_eq!(ids, vec![1, 2]);
    let replaced = cards.cards.iter().find(|n| n.id == 1).unwrap();
    assert_eq!(replaced.summary, "new");
}

#[test]
fn close_removes_and_acknowledges_once() {
    let mut cards = Cards::new();
    let config = NotificationsConfig::default();
    cards.push_notification(note(1, 1, 10), &config);
    cards.push_notification(note(2, 1, 20), &config);
    cards.push_notification(note(3, 1, 30), &config);

    // A dismissal acknowledges exactly once, with its reason.
    let r = cards.close(1, CloseReason::Dismissed);
    assert!(r.found);
    assert_eq!(r.acks, vec![Input::Closed(1, CloseReason::Dismissed)]);
    assert!(!r.drop_surface);
    assert_eq!(cards.cards.len(), 2);

    // A bus-requested close sends no further acknowledgment: the pipeline
    // already signalled reason code 3 for that call.
    let r = cards.close(2, CloseReason::CloseNotification);
    assert!(r.found);
    assert!(r.acks.is_empty());

    // An expired card also acknowledges its destruction (one signal with
    // reason code 1); the last card drops the surface.
    let r = cards.close(3, CloseReason::Expired);
    assert!(r.found);
    assert_eq!(r.acks, vec![Input::Closed(3, CloseReason::Expired)]);
    assert!(r.drop_surface);
    assert!(!cards.active_surface);

    // Closing an unknown id changes nothing.
    let r = cards.close(7, CloseReason::Dismissed);
    assert!(!r.found);
    assert!(r.acks.is_empty());
}

#[test]
fn sort_restores_order_stably() {
    let mut cards = Cards::new();
    cards.cards = vec![
        note(1, 2, 10),
        note(2, 0, 40),
        note(3, 1, 20),
        note(4, 1, 20),
        note(5, 0, 5),
    ];
    cards.sort_notifications();
    let ids: Vec<u32> = cards.cards.iter().map(|n| n.id).collect();
    // Equal keys (3 and 4) keep their relative order.
    assert_eq!(ids, vec![5, 2, 3, 4, 1]);
}

#[test]
fn grouping_displaces_third_card_of_a_run() {
    let mut cards = Cards::new();
    let mut config = NotificationsConfig::default();
    config.max_per_app = 2;
    config.max_notifications = 3;
    cards.push_notification(note_app(1, 1, 10, "mail"), &config);
    cards.push_notification(note_app(2, 1, 20, "mail"), &config);
    cards.push_notification(note_app(3, 1, 30, "mail"), &config);
    cards.push_notification(note_app(4, 1, 40, "chat"), &config);
    cards.group_notifications(&config);
    let ids: Vec<u32> = cards.cards.iter().map(|n| n.id).collect();
    // The third mail card is displaced; with the display already full it is
    // appended past the end.
    assert_eq!(ids, vec![1, 2, 4, 3]);
}

#[test]
fn grouping_reinserts_while_display_has_room() {
    let mut cards = Cards::new();
    let mut config = NotificationsConfig::default();
    config.max_per_app = 2;
    config.max_notifications = 10;
    cards.push_notification(note_app(1, 1, 10, "mail"), &config);
    cards.push_notification(note_app(2, 1, 20, "mail"), &config);
    cards.push_notification(note_app(3, 1, 30, "mail"), &config);
    cards.push_notification(note_app(4, 1, 40, "chat"), &config);
    cards.group_notifications(&config);
    let ids: Vec<u32> = cards.cards.iter().map(|n| n.id).collect();
    // With room on the display, the displaced card is re-inserted sorted.
    assert_eq!(ids, vec![1, 2, 3, 4]);
}

#[test]
fn grouping_disabled_by_zero_cap() {
    let mut cards = Cards::new();
    let mut config = NotificationsConfig::default();
    config.max_per_app = 0;
    cards.push_notification(note_app(1, 1, 10, "mail"), &config);
    cards.push_notification(note_app(2, 1, 20, "mail"), &config);
    cards.push_notification(note_app(3, 1, 30, "mail"), &config);
    let before: Vec<u32> = cards.cards.iter().map(|n| n.id).collect();
    cards.group_notifications(&config);
    let after: Vec<u32> = cards.cards.iter().map(|n| n.id).collect();
    assert_eq!(before, after);
}

#[test]
fn config_default_matches_documented_values() {
    let c = NotificationsConfig::default();
    assert!(!c.do_not_disturb);
    assert_eq!(c.max_notifications, 3);
    assert_eq!(c.max_per_app, 2);
    assert_eq!(c.max_timeout_urgent, None);
    assert_eq!(c.max_timeout_normal, Some(5000));
    assert_eq!(c.max_timeout_low, Some(3000));
    assert_eq!(c.applicable_timeout(-1, 0), 3000);
    assert_eq!(c.applicable_timeout(10000, 0), 3000);
}
