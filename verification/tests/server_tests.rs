use cosmic_notifications::model::HintValue;
use cosmic_notifications::pipeline::{Event, Input, Signal, State};
use cosmic_notifications::server::Notifications;

fn empty_notify(server: &mut Notifications, replaces_id: u32, now: u64)
    -> cosmic_notifications::server::NotifyOutcome {
    server.notify(
        "app",
        replaces_id,
        "",
        "summary",
        "body",
        Vec::new(),
        Vec::<(String, HintValue)>::new(),
        -1,
        now,
    )
}

#[test]
fn fresh_ids_count_up_from_one() {
    let mut server = Notifications::new();
    let r1 = empty_notify(&mut server, 0, 10);
    let r2 = empty_notify(&mut server, 0, 11);
    let r3 = empty_notify(&mut server, 0, 12);
    assert_eq!(r1.id, 1);
    assert_eq!(r2.id, 2);
    assert_eq!(r3.id, 3);
    assert_eq!(server.next_id, 4);
}

#[test]
fn id_counter_wraps_to_one_skipping_zero() {
    let mut server = Notifications::new();
    server.next_id = u32::MAX;
    let r1 = empty_notify(&mut server, 0, 10);
    assert_eq!(r1.id, u32::MAX);
    assert_eq!(server.next_id, 1);
    let r2 = empty_notify(&mut server, 0, 11);
    assert_eq!(r2.id, 1);
}

#[test]
fn identical_payloads_get_distinct_ids() {
    let mut server = Notifications::new();
    let r1 = empty_notify(&mut server, 0, 42);
    let r2 = empty_notify(&mut server, 0, 42);
    assert_ne!(r1.id, r2.id);
    match (&r1.input, &r2.input) {
        (Input::Notification(n1), Input::Notification(n2)) => {
            assert_eq!(n1.id, r1.id);
            assert_eq!(n2.id, r2.id);
            assert_eq!(n1.summary, n2.summary);
        }
        _ => panic!("both calls must enqueue fresh notifications"),
    }
}

#[test]
fn replace_keeps_id_and_becomes_replace_event() {
    let mut server = Notifications::new();
    let r = empty_notify(&mut server, 7, 10);
    assert_eq!(r.id, 7);
    assert_eq!(server.next_id, 1);
    let mut state = State::Waiting;
    let outcome = state.handle_input(r.input);
    assert_eq!(outcome.events.len(), 1);
    match &outcome.events[0] {
        Event::Replace(n) => assert_eq!(n.id, 7),
        _ => panic!("a nonzero replaces_id must reach the observer as Replace"),
    }
    assert!(outcome.signals.is_empty());
}

#[test]
fn close_notification_signals_exactly_once() {
    let server = Notifications::new();
    // id 99 was never issued; the signal must still be emitted.
    let input = server.close_notification(99);
    let mut state = State::Waiting;
    let outcome = state.handle_input(input);
    assert_eq!(outcome.signals.len(), 1);
    assert!(matches!(outcome.signals[0], Signal::NotificationClosed(99, 3)));
    assert_eq!(outcome.events.len(), 1);
    assert!(matches!(outcome.events[0], Event::CloseNotification(99)));
}

#[test]
fn notify_then_close_end_to_end() {
    let mut server = Notifications::new();
    let r = server.notify(
        "Mail",
        0,
        "",
        "New message",
        "You have mail",
        Vec::new(),
        Vec::<(String, HintValue)>::new(),
        -1,
        1000,
    );
    assert_eq!(r.id, 1);
    assert!(r.fan_out);
    let mut state = State::Waiting;
    let outcome = state.handle_input(r.input);
    assert_eq!(outcome.events.len(), 1);
    match &outcome.events[0] {
        Event::Notification(n) => {
            assert_eq!(n.id, 1);
            assert_eq!(n.summary, "New message");
            assert_eq!(n.body, "You have mail");
        }
        _ => panic!("a fresh notification must reach the observer as Notification"),
    }
    let close = server.close_notification(1);
    let outcome2 = state.handle_input(close);
    assert_eq!(outcome2.signals.len(), 1);
    assert!(matches!(outcome2.signals[0], Signal::NotificationClosed(1, 3)));
    // The presentation's close for a bus-requested reason acknowledges
    // nothing further: end to end, exactly one NotificationClosed(1, 3).
    let mut cards = cosmic_notifications::cards::Cards::new();
    let config = cosmic_notifications::config::NotificationsConfig::default();
    match &outcome.events[0] {
        Event::Notification(n) => {
            cards.push_notification(n.clone(), &config);
        }
        _ => unreachable!(),
    }
    let closed = cards.close(1, cosmic_notifications::model::CloseReason::CloseNotification);
    assert!(closed.found);
    assert!(closed.acks.is_empty());
}

#[test]
fn transient_notifications_are_not_fanned_out() {
    let mut server = Notifications::new();
    let hints = vec![("transient".to_string(), HintValue::Bool(true))];
    let r = server.notify("app", 0, "", "s", "b", Vec::new(), hints, -1, 0);
    assert!(!r.fan_out);
}

#[test]
fn capabilities_are_static() {
    let server = Notifications::new();
    let caps = server.get_capabilities();
    assert_eq!(caps.len(), 8);
    assert_eq!(caps[0], "body");
    assert_eq!(caps[1], "icon-static");
    assert_eq!(caps[2], "persistence");
    assert!(caps.contains(&"sound".to_string()));
}

#[test]
fn server_information_is_static() {
    let server = Notifications::new();
    let (name, vendor, _version, spec) = server.get_server_information();
    assert_eq!(name, "cosmic-notifications");
    assert_eq!(vendor, "System76");
    assert_eq!(spec, "1.2");
}

#[test]
fn pipeline_states_and_signals() {
    let mut state = State::Starting;
    let ev = state.bus_registered();
    assert_eq!(ev, Event::Ready);
    assert_eq!(state, State::Waiting);

    let out = state.handle_input(Input::Dismissed(4));
    assert_eq!(out.signals.len(), 1);
    assert!(matches!(out.signals[0], Signal::NotificationClosed(4, 2)));
    assert!(out.events.is_empty());

    let out = state.handle_input(Input::Closed(
        5,
        cosmic_notifications::model::CloseReason::Expired,
    ));
    assert!(matches!(out.signals[0], Signal::NotificationClosed(5, 1)));

    let out = state.handle_input(Input::AppletConn);
    assert!(out.add_applet_conn);
    assert!(out.events.is_empty() && out.signals.is_empty());

    let out = state.handle_input(Input::AppletActivated {
        id: 9,
        action: cosmic_notifications::model::ActionId::Default,
    });
    assert_eq!(out.signals.len(), 1);
    match &out.signals[0] {
        Signal::ActionInvoked(id, key) => {
            assert_eq!(*id, 9);
            assert_eq!(key, "default");
        }
        _ => panic!("activation must become ActionInvoked"),
    }

    state.channel_closed();
    assert_eq!(state, State::Finished);
}

#[test]
fn registration_failure_finishes() {
    let mut state = State::Starting;
    assert!(State::should_retry_registration(0));
    assert!(State::should_retry_registration(4));
    assert!(!State::should_retry_registration(5));
    state.bus_registration_failed();
    assert_eq!(state, State::Finished);
}
