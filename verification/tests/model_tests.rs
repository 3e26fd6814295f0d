use cosmic_notifications::model::{
    decode_actions, decode_hint, encode_actions, ActionId, CloseReason, Hint, HintValue, Image,
    Notification,
};

#[test]
fn actions_decode_pairwise() {
    let wire: Vec<String> = ["default", "OK", "snooze", "Snooze"]
        .iter()
        .map(|s| s.to_string())
        .collect();
    let decoded = decode_actions(&wire);
    assert_eq!(
        decoded,
        vec![
            (ActionId::Default, "OK".to_string()),
            (ActionId::Custom("snooze".to_string()), "Snooze".to_string()),
        ]
    );
}

#[test]
fn odd_trailing_action_is_dropped() {
    let wire: Vec<String> = ["default", "OK", "stray"].iter().map(|s| s.to_string()).collect();
    let decoded = decode_actions(&wire);
    assert_eq!(decoded.len(), 1);
    assert_eq!(decoded[0], (ActionId::Default, "OK".to_string()));
}

#[test]
fn actions_round_trip_through_wire_form() {
    let pairs = vec![
        (ActionId::Default, "OK".to_string()),
        (ActionId::Custom("snooze".to_string()), "Snooze".to_string()),
    ];
    let wire = encode_actions(&pairs);
    assert_eq!(wire, vec!["default", "OK", "snooze", "Snooze"]);
    assert_eq!(decode_actions(&wire), pairs);
}

#[test]
fn known_hints_decode_and_unknown_are_dropped() {
    let hints = vec![
        ("category".to_string(), HintValue::Str("email".to_string())),
        ("urgency".to_string(), HintValue::U8(2)),
        ("no-such-hint".to_string(), HintValue::Bool(true)),
        ("x".to_string(), HintValue::I32(-5)),
        ("urgency".to_string(), HintValue::Str("ill-typed".to_string())),
    ];
    let n = Notification::new("app", 1, "", "s", "b", Vec::new(), hints, 0, 0);
    assert_eq!(
        n.hints,
        vec![
            Hint::Category("email".to_string()),
            Hint::Urgency(2),
            Hint::X(-5),
        ]
    );
    assert_eq!(n.urgency(), 2);
    assert_eq!(n.category(), Some("email"));
    assert_eq!(n.desktop_entry(), None);
    assert!(!n.transient());
}

#[test]
fn urgency_defaults_to_normal() {
    let n = Notification::new("app", 1, "", "s", "b", Vec::new(), Vec::new(), 0, 0);
    assert_eq!(n.urgency(), 1);
}

#[test]
fn image_path_hint_unwraps_file_urls() {
    let hints = vec![(
        "image-path".to_string(),
        HintValue::Str("file:///tmp/icon.png".to_string()),
    )];
    let n = Notification::new("app", 1, "", "s", "b", Vec::new(), hints, 0, 0);
    assert_eq!(
        n.image(),
        Some(&Image::File("/tmp/icon.png".to_string()))
    );
}

#[test]
fn image_path_hint_falls_back_to_icon_name() {
    let hints = vec![(
        "image_path".to_string(),
        HintValue::Str("mail-unread".to_string()),
    )];
    let n = Notification::new("app", 1, "", "s", "b", Vec::new(), hints, 0, 0);
    assert_eq!(n.image(), Some(&Image::Name("mail-unread".to_string())));
}

#[test]
fn image_data_hint_is_validated_and_normalized() {
    let good = (
        "image-data".to_string(),
        HintValue::ImageStruct {
            width: 2,
            height: 2,
            rowstride: 8,
            has_alpha: true,
            bits_per_sample: 8,
            channels: 4,
            data: vec![5u8; 16],
        },
    );
    let bad = (
        "icon_data".to_string(),
        HintValue::ImageStruct {
            width: 2,
            height: 2,
            rowstride: 8,
            has_alpha: true,
            bits_per_sample: 16,
            channels: 4,
            data: vec![5u8; 16],
        },
    );
    let n = Notification::new("app", 1, "", "s", "b", Vec::new(), vec![good, bad], 0, 0);
    // The invalid payload drops only its own hint; the call still succeeds.
    assert_eq!(n.hints.len(), 1);
    match &n.hints[0] {
        Hint::Image(Image::Data { width, height, data }) => {
            assert_eq!(*width, 2);
            assert_eq!(*height, 2);
            assert_eq!(data, &vec![5u8; 16]);
        }
        h => panic!("expected a normalized image hint, got {:?}", h),
    }
}

#[test]
fn transient_hint_is_detected() {
    let hints = vec![("transient".to_string(), HintValue::Bool(true))];
    let n = Notification::new("app", 1, "", "s", "b", Vec::new(), hints, 0, 0);
    assert!(n.transient());
    let hints = vec![("transient".to_string(), HintValue::Bool(false))];
    let n = Notification::new("app", 1, "", "s", "b", Vec::new(), hints, 0, 0);
    assert!(!n.transient());
}

#[test]
fn decode_single_hint_by_key() {
    assert_eq!(
        decode_hint("sound-name", HintValue::Str("bell".to_string())),
        Some(Hint::SoundName("bell".to_string()))
    );
    assert_eq!(decode_hint("sound-name", HintValue::Bool(true)), None);
    assert_eq!(
        decode_hint("suppress-sound", HintValue::Bool(true)),
        Some(Hint::SuppressSound(true))
    );
    assert_eq!(decode_hint("made-up", HintValue::I32(3)), None);
}

#[test]
fn close_reason_codes_are_wire_stable() {
    assert_eq!(CloseReason::Expired.code(), 1);
    assert_eq!(CloseReason::Dismissed.code(), 2);
    assert_eq!(CloseReason::CloseNotification.code(), 3);
    assert_eq!(CloseReason::Undefined.code(), 4);
}

#[test]
fn action_id_parses_reserved_key() {
    assert_eq!(ActionId::from_key("default"), ActionId::Default);
    assert_eq!(
        ActionId::from_key("reply"),
        ActionId::Custom("reply".to_string())
    );
    assert_eq!(ActionId::Default.key(), "default");
    assert_eq!(ActionId::Custom("reply".to_string()).key(), "reply");
}

#[test]
fn duration_since_uses_caller_clock() {
    let n = Notification::new("app", 1, "", "s", "b", Vec::new(), Vec::new(), 0, 100);
    assert_eq!(n.duration_since(250), Some(150));
    assert_eq!(n.duration_since(100), Some(0));
    assert_eq!(n.duration_since(99), None);
}
