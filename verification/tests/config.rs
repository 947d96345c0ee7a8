use moxnotify::config::{config_path, priority_order, Selector, State, StyleTarget};

#[test]
fn styles_apply_in_priority_order() {
    // priorities of styles in the order written
    let p = vec![6u8, 1, 21, 1, 2];
    assert_eq!(priority_order(&p), vec![1, 3, 4, 0, 2]);
    assert!(priority_order(&vec![]).is_empty());
}

#[test]
fn style_targets() {
    assert_eq!(Selector::All.targets(State::Default).len(), 12);
    assert_eq!(
        Selector::Progress.targets(State::ContainerHover),
        vec![StyleTarget::HoverProgress]
    );
    assert_eq!(
        Selector::ActionButton.targets(State::Hover),
        vec![StyleTarget::DefaultActionHovered, StyleTarget::HoverActionHovered]
    );
    assert_eq!(
        Selector::AllNotifications.targets(State::ContainerHover),
        vec![StyleTarget::Hover]
    );
    assert!(Selector::Notification("x".to_string()).targets(State::Default).is_empty());
}

#[test]
fn selector_lists() {
    let items = vec!["*".to_string(), "notification:firefox".to_string(), "icon".to_string()];
    let got = Selector::parse_list(&items).unwrap();
    assert_eq!(got.len(), 3);
    assert!(matches!(got[0], Selector::All));
    assert!(matches!(&got[1], Selector::Notification(app) if app == "firefox"));
    assert!(matches!(got[2], Selector::Icon));
    assert!(Selector::parse_list(&vec!["hint".to_string()]).is_none());
    assert!(Selector::parse_list(&vec!["*".to_string(), "bogus".to_string()]).is_none());
    assert!(Selector::parse_list(&vec![]).unwrap().is_empty());
}

#[test]
fn hints_selector_is_read() {
    let s = Selector::parse("hints").unwrap();
    assert!(matches!(s, Selector::Hints));
    assert_eq!(s.priority(State::Default), 22);
    assert_eq!(s.targets(State::Hover), vec![StyleTarget::DefaultHint, StyleTarget::HoverHint]);
    let readme = ["*", "next_counter", "prev_counter", "notification", "hints", "action", "progress", "dismiss"];
    let items: Vec<String> = readme.iter().map(|s| s.to_string()).collect();
    assert_eq!(Selector::parse_list(&items).unwrap().len(), 8);
}

#[test]
fn configuration_file_location() {
    assert_eq!(
        config_path(Some("/x".to_string()), Some("/home/u".to_string())),
        Some(vec!["/x".to_string(), "moxnotify/config.lua".to_string()])
    );
    assert_eq!(
        config_path(None, Some("/home/u".to_string())),
        Some(vec!["/home/u".to_string(), ".config".to_string(), "moxnotify/config.lua".to_string()])
    );
    assert_eq!(config_path(None, None), None);
}
