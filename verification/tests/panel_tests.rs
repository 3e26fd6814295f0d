use cosmic_notifications::panel::{
    parse_panel_request, AppletEvent, Event, Input, PanelAction, PanelRequest, State,
};

#[test]
fn parse_init_line() {
    assert_eq!(parse_panel_request("Init"), Some(PanelRequest::Init));
}

#[test]
fn parse_new_client_line() {
    assert_eq!(
        parse_panel_request("NewNotificationsClient(id:42)"),
        Some(PanelRequest::NewNotificationsClient { id: 42 })
    );
    assert_eq!(
        parse_panel_request("NewNotificationsClient(id:0)"),
        Some(PanelRequest::NewNotificationsClient { id: 0 })
    );
}

#[test]
fn malformed_lines_are_skipped() {
    assert_eq!(parse_panel_request(""), None);
    assert_eq!(parse_panel_request("init"), None);
    assert_eq!(parse_panel_request("NewNotificationsClient(id:)"), None);
    assert_eq!(parse_panel_request("NewNotificationsClient(id:abc)"), None);
    assert_eq!(parse_panel_request("NewNotificationsClient(id:42"), None);
    assert_eq!(parse_panel_request("NewNotificationsClient(id:4294967296)"), None);
}

#[test]
fn id_payload_is_little_endian() {
    assert_eq!(PanelRequest::id_to_le_bytes(0x01020304), vec![4, 3, 2, 1]);
    assert_eq!(PanelRequest::id_to_le_bytes(0), vec![0, 0, 0, 0]);
    assert_eq!(
        PanelRequest::id_to_le_bytes(u32::MAX),
        vec![0xFF, 0xFF, 0xFF, 0xFF]
    );
}

#[test]
fn panel_driver_lifecycle() {
    let mut state = State::Starting;
    let ev = state.socket_ready();
    assert_eq!(ev, Event::Ready);
    assert_eq!(state, State::Waiting { applets: 0 });

    // A registration request answers with an fd transfer carrying the id.
    let action = state.handle_input(Input::PanelRequest(
        PanelRequest::NewNotificationsClient { id: 3 },
    ));
    match action {
        PanelAction::SendFd { id, id_bytes } => {
            assert_eq!(id, 3);
            assert_eq!(id_bytes, vec![3, 0, 0, 0]);
        }
        a => panic!("expected SendFd, got {:?}", a),
    }
    state.fd_sent();
    assert_eq!(state, State::Waiting { applets: 1 });

    // An event is broadcast to the registered sockets.
    let action = state.handle_input(Input::AppletEvent(AppletEvent::Closed(8)));
    assert_eq!(action, PanelAction::Broadcast(AppletEvent::Closed(8)));
    assert_eq!(state, State::Waiting { applets: 1 });

    // A panel restart drops all applet sockets.
    let action = state.handle_input(Input::PanelRequest(PanelRequest::Init));
    assert_eq!(action, PanelAction::ClearApplets);
    assert_eq!(state, State::Waiting { applets: 0 });

    state.channel_closed();
    assert_eq!(state, State::Finished);
}

#[test]
fn missing_socket_degrades_to_bus_only() {
    let mut state = State::Starting;
    state.socket_failed();
    assert_eq!(state, State::Finished);
}
