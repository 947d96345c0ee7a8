use moxnotify::config::{AppTimeout, Selector, State, Timeout, TimeoutPolicy};
use moxnotify::notification::{
    image_from_path, HintValue, Image, ImageData, NotificationData, NotificationHints,
    NotificationIds, Reason, Urgency,
};

fn hints(list: Vec<(&str, HintValue)>) -> NotificationHints {
    let v: Vec<(String, HintValue)> = list.into_iter().map(|(k, v)| (k.to_string(), v)).collect();
    NotificationHints::new(&v)
}

#[test]
fn hints_default_when_empty() {
    let h = hints(vec![]);
    assert_eq!(h.urgency, Urgency::Normal);
    assert_eq!(h.x, 0);
    assert!(h.image.is_none());
    assert!(!h.resident);
}

#[test]
fn hints_read_known_keys() {
    let h = hints(vec![
        ("urgency", HintValue::Byte(2)),
        ("category", HintValue::Str("email".to_string())),
        ("value", HintValue::Int(75)),
        ("resident", HintValue::Bool(true)),
        ("x", HintValue::Int(-20)),
        ("y", HintValue::Int(30)),
        ("sound-name", HintValue::Str("bell".to_string())),
        ("suppress-sound", HintValue::Bool(true)),
        ("unknown", HintValue::Int(1)),
    ]);
    assert_eq!(h.urgency, Urgency::Critical);
    assert_eq!(h.category.as_deref(), Some("email"));
    assert_eq!(h.value, Some(75));
    assert!(h.resident);
    assert_eq!(h.x, -20);
    assert_eq!(h.y, Some(30));
    assert_eq!(h.sound_name.as_deref(), Some("bell"));
    assert!(h.suppress_sound);
}

#[test]
fn hints_wrong_types_fall_back() {
    let h = hints(vec![
        ("urgency", HintValue::Byte(7)),
        ("value", HintValue::Str("x".to_string())),
        ("x", HintValue::Bool(true)),
    ]);
    assert_eq!(h.urgency, Urgency::Normal);
    assert_eq!(h.value, None);
    assert_eq!(h.x, 0);
}

#[test]
fn hints_urgency_low() {
    let h = hints(vec![("urgency", HintValue::Byte(0))]);
    assert_eq!(h.urgency, Urgency::Low);
}

#[test]
fn image_path_url_is_file() {
    let h = hints(vec![("image-path", HintValue::Str("file:///tmp/a.png".to_string()))]);
    assert_eq!(h.image, Some(Image::File("file:///tmp/a.png".to_string())));
}

#[test]
fn image_path_name_is_icon_name() {
    let h = hints(vec![("image_path", HintValue::Str("zen-beta".to_string()))]);
    assert_eq!(h.image, Some(Image::Name("zen-beta".to_string())));
}

#[test]
fn image_from_path_uses_parse_result() {
    let s = "x".to_string();
    assert_eq!(image_from_path(&s, Some("y".to_string())), Image::File("y".to_string()));
    assert_eq!(image_from_path(&s, None), Image::Name("x".to_string()));
}

#[test]
fn image_data_hint_and_later_override() {
    let img = ImageData {
        width: 1,
        height: 1,
        rowstride: 4,
        has_alpha: true,
        bits_per_sample: 8,
        channels: 4,
        data: vec![1, 2, 3, 4],
    };
    let h = hints(vec![
        ("image-data", HintValue::Structure(Some(img.clone()))),
        ("icon_data", HintValue::Structure(None)),
    ]);
    assert_eq!(h.image, Some(Image::Data(img.clone())));
    let h = hints(vec![
        ("image-data", HintValue::Structure(Some(img))),
        ("image-path", HintValue::Str("icon".to_string())),
    ]);
    assert_eq!(h.image, Some(Image::Name("icon".to_string())));
}

#[test]
fn from_notify_pairs_actions_and_drops_empty_icon() {
    let actions = vec![
        "default".to_string(),
        "Open".to_string(),
        "reply".to_string(),
        "Reply".to_string(),
        "odd".to_string(),
    ];
    let d = NotificationData::from_notify(
        5,
        "app",
        "",
        "summary",
        "body",
        &actions,
        NotificationHints::default(),
        -1,
    );
    assert_eq!(d.id, 5);
    assert_eq!(d.app_icon, None);
    assert_eq!(
        d.actions,
        vec![
            ("default".to_string(), "Open".to_string()),
            ("reply".to_string(), "Reply".to_string())
        ]
    );
    assert_eq!(d.timeout, -1);
    let d = NotificationData::from_notify(1, "a", "icon", "", "", &vec![], NotificationHints::default(), 0);
    assert_eq!(d.app_icon.as_deref(), Some("icon"));
}

#[test]
fn ids_start_at_one_and_wrap() {
    let mut ids = NotificationIds::new();
    assert_eq!(ids.assign(0), 1);
    assert_eq!(ids.assign(0), 2);
    assert_eq!(ids.assign(42), 42);
    assert_eq!(ids.assign(0), 3);
}

#[test]
fn reason_codes_and_names() {
    assert_eq!(Reason::Expired.code(), 1);
    assert_eq!(Reason::DismissedByUser.code(), 2);
    assert_eq!(Reason::CloseNotificationCall.code(), 3);
    assert_eq!(Reason::Unkown.code(), 4);
    assert_eq!(Reason::Unkown.to_string(), "Unknown");
    assert_eq!(Reason::CloseNotificationCall.to_string(), "CloseNotificationCall");
}

#[test]
fn timeout_defaults_and_lookup() {
    let t = Timeout::default();
    assert_eq!(t.get(&Urgency::Low), 5);
    assert_eq!(t.get(&Urgency::Normal), 10);
    assert_eq!(t.get(&Urgency::Critical), 0);
    let u = Timeout::uniform(3);
    assert_eq!(u.get(&Urgency::Critical), 3);
}

#[test]
fn timeout_from_map() {
    let ok = Timeout::from_map(&vec![("urgency_low".to_string(), 2), ("urgency_critical".to_string(), 9)])
        .unwrap();
    assert_eq!(ok.get(&Urgency::Low), 2);
    assert_eq!(ok.get(&Urgency::Normal), 0);
    assert_eq!(ok.get(&Urgency::Critical), 9);
    let err = Timeout::from_map(&vec![("urgency_low".to_string(), 2), ("later".to_string(), 1)]);
    assert_eq!(err.unwrap_err(), "later");
}

#[test]
fn policy_timeouts() {
    let mut p = TimeoutPolicy::new();
    let app = "chat".to_string();
    assert_eq!(p.timeout(&app, Urgency::Normal, -1), Some(10000));
    assert_eq!(p.timeout(&app, Urgency::Critical, -1), None);
    assert_eq!(p.timeout(&app, Urgency::Normal, 0), None);
    assert_eq!(p.timeout(&app, Urgency::Normal, 2500), Some(2500));
    assert_eq!(p.timeout(&app, Urgency::Normal, -7), None);
    p.apps.push(AppTimeout {
        app: "chat".to_string(),
        default_timeout: Some(Timeout::uniform(2)),
        ignore_timeout: Some(true),
    });
    assert_eq!(p.timeout(&app, Urgency::Critical, 2500), Some(2000));
    assert_eq!(p.timeout(&"other".to_string(), Urgency::Normal, 2500), Some(2500));
}

#[test]
fn selectors_parse() {
    assert_eq!(Selector::parse("*"), Some(Selector::All));
    assert_eq!(Selector::parse("next_counter"), Some(Selector::NextCounter));
    assert_eq!(Selector::parse("notification"), Some(Selector::AllNotifications));
    assert_eq!(
        Selector::parse("notification:firefox"),
        Some(Selector::Notification("firefox".to_string()))
    );
    assert_eq!(Selector::parse("hints"), Some(Selector::Hints));
    assert_eq!(Selector::parse("hint"), None);
    assert_eq!(Selector::All.priority(State::Hover), 1);
    assert_eq!(Selector::Notification("x".to_string()).priority(State::ContainerHover), 9);
    assert_eq!(Selector::NextCounter.priority(State::Default), 21);
}
