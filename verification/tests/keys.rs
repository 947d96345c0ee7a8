use moxnotify::config::{Queue, TimeoutPolicy};
use moxnotify::daemon::{
    labelled_buttons, notification_buttons, Action, EmitEvent, Event, HintButton, Moxnotify, Outside, Sounds,
};
use moxnotify::keymaps::{AtomicMode, KeyAction, Keymaps, Keys, Mode};
use std::sync::atomic::Ordering;
use moxnotify::manager::NotificationManager;
use moxnotify::notification::{NotificationData, Reason};

fn daemon_with(n: u32) -> Moxnotify {
    let sounds = Sounds { urgency_low: None, urgency_normal: None, urgency_critical: None };
    let mut m = Moxnotify::new(NotificationManager::new(Queue::Unordered, 5, TimeoutPolicy::new()), true, sounds, 10);
    for id in 1..=n {
        let data = NotificationData { id, ..Default::default() };
        m.handle_app_event(Event::Notify(Box::new(data)), Outside { sound_lookup: None, last_rowid: 0 });
    }
    m
}

fn keys(s: &str) -> Keys {
    Keys::parse(s).unwrap()
}

#[test]
fn bound_keys_move_selection() {
    let mut m = daemon_with(3);
    let km = Keymaps::default();
    let mut pending = keys("j");
    assert!(m.key_allowed(&km, &pending));
    let acts = m.handle_key(&km, &mut pending, &vec![], None);
    assert!(pending.0.is_empty());
    assert!(matches!(acts.last(), Some(Action::Render)));
    assert_eq!(m.notifications().selected_id(), Some(1));
    m.key_action(KeyAction::LastNotification);
    assert_eq!(m.notifications().selected_id(), Some(3));
    m.key_action(KeyAction::FirstNotification);
    assert_eq!(m.notifications().selected_id(), Some(1));
    m.key_action(KeyAction::PreviousNotification);
    assert_eq!(m.notifications().selected_id(), Some(3));
}

#[test]
fn dismiss_key_dismisses_selected() {
    let mut m = daemon_with(2);
    m.key_action(KeyAction::NextNotification);
    let acts = m.key_action(KeyAction::DismissNotification);
    assert!(acts.iter().any(|a| matches!(
        a,
        Action::Emit(EmitEvent::NotificationClosed { id: 1, reason: Reason::DismissedByUser })
    )));
    assert_eq!(m.notifications().selected_id(), Some(2));
}

#[test]
fn mode_and_toggles() {
    let mut m = daemon_with(1);
    m.key_action(KeyAction::HintMode);
    assert_eq!(m.mode(), Mode::Hint);
    m.key_action(KeyAction::NormalMode);
    assert_eq!(m.mode(), Mode::Normal);
    assert!(matches!(m.key_action(KeyAction::ToggleMute)[..], [Action::MuteAudio]));
    assert!(matches!(m.key_action(KeyAction::ToggleMute)[..], [Action::UnmuteAudio]));
    m.key_action(KeyAction::ToggleInhibit);
    assert!(m.notifications().inhibited());
}

#[test]
fn unfocus_needs_surface() {
    let mut m = daemon_with(1);
    m.key_action(KeyAction::NextNotification);
    assert!(m.key_action(KeyAction::Unfocus).is_empty());
    m.set_surface(true);
    let acts = m.key_action(KeyAction::Unfocus);
    assert!(matches!(acts[0], Action::UnfocusSurface));
    assert!(matches!(acts.last(), Some(Action::StopKeyRepeat)));
    assert_eq!(m.notifications().selected_id(), None);
}

#[test]
fn hints_pick_buttons() {
    let mut m = daemon_with(2);
    m.set_surface(true);
    m.key_action(KeyAction::NextNotification);
    let acts = m.hint_pressed(Some(HintButton::Action { action: "default".to_string() }), Some("tok".to_string()));
    assert!(matches!(
        &acts[0],
        Action::Emit(EmitEvent::ActionInvoked { id: 1, action_key, token: Some(t) }) if action_key == "default" && t == "tok"
    ));
    assert_eq!(m.notifications().notifications().len(), 1);
    // a link opens, clears the selection and returns to normal mode
    m.key_action(KeyAction::NextNotification);
    m.key_action(KeyAction::HintMode);
    let acts = m.hint_pressed(Some(HintButton::Anchor { href: "https://x".to_string() }), None);
    assert!(matches!(&acts[0], Action::Emit(EmitEvent::Open { uri, token: None }) if uri == "https://x"));
    assert_eq!(m.notifications().selected_id(), None);
    assert_eq!(m.mode(), Mode::Normal);
}

#[test]
fn unbound_keys_pick_hint_labels() {
    let mut m = daemon_with(1);
    m.key_action(KeyAction::NextNotification);
    let km = Keymaps::default();
    let mut pending = keys("q");
    let buttons = vec![("q".to_string(), HintButton::Dismiss)];
    let acts = m.handle_key(&km, &mut pending, &buttons, None);
    assert!(acts.iter().any(|a| matches!(a, Action::Emit(EmitEvent::NotificationClosed { id: 1, .. }))));
    assert!(m.notifications().notifications().is_empty());
}

#[test]
fn buttons_in_hint_order() {
    let data = NotificationData {
        id: 7,
        actions: vec![
            ("default".to_string(), "Open".to_string()),
            ("reply".to_string(), "Reply".to_string()),
        ],
        ..Default::default()
    };
    let hrefs = vec!["https://a".to_string()];
    let b = notification_buttons(&data, &hrefs);
    assert_eq!(
        b,
        vec![
            HintButton::Dismiss,
            HintButton::Action { action: "default".to_string() },
            HintButton::Action { action: "reply".to_string() },
            HintButton::Anchor { href: "https://a".to_string() },
        ]
    );
    let counter = NotificationData { app_name: "next_notification_count".to_string(), ..data };
    assert_eq!(notification_buttons(&counter, &hrefs), vec![HintButton::Dismiss]);
    let labelled = labelled_buttons(&b, &vec!['a', 'b', 'c']);
    let labels: Vec<&str> = labelled.iter().map(|(l, _)| l.as_str()).collect();
    assert_eq!(labels, vec!["a", "b", "c", "aa"]);
    assert_eq!(labelled[3].1, HintButton::Anchor { href: "https://a".to_string() });
}

#[test]
fn action_click_emits_and_dismisses() {
    let mut m = daemon_with(2);
    m.set_surface(true);
    let acts = m.action_clicked(1, "default".to_string(), Some("t".to_string()));
    assert!(matches!(
        &acts[0],
        Action::Emit(EmitEvent::ActionInvoked { id: 1, action_key, token: Some(t) }) if action_key == "default" && t == "t"
    ));
    // dismissed without a reason: clients hear of the action, not of a close
    assert!(!acts.iter().any(|a| matches!(a, Action::Emit(EmitEvent::NotificationClosed { .. }))));
    let ids: Vec<u32> = m.notifications().notifications().iter().map(|n| n.id()).collect();
    assert_eq!(ids, vec![2]);
}

#[test]
fn action_click_keeps_resident_and_needs_surface_to_emit() {
    let sounds = Sounds { urgency_low: None, urgency_normal: None, urgency_critical: None };
    let mut m = Moxnotify::new(NotificationManager::new(Queue::Unordered, 5, TimeoutPolicy::new()), true, sounds, 10);
    let mut data = NotificationData { id: 3, ..Default::default() };
    data.hints.resident = true;
    m.handle_app_event(Event::Notify(Box::new(data)), Outside { sound_lookup: None, last_rowid: 0 });
    let acts = m.action_clicked(3, "default".to_string(), None);
    assert!(acts.is_empty());
    assert_eq!(m.notifications().notifications().len(), 1);
}

#[test]
fn modes_parse_in_any_case() {
    assert_eq!(Mode::parse("normal"), Ok(Mode::Normal));
    assert_eq!(Mode::parse("HINT"), Ok(Mode::Hint));
    assert_eq!("Hint".parse::<Mode>(), Ok(Mode::Hint));
    assert_eq!(Mode::parse("Visual"), Err("Invalid mode: Visual".to_string()));
}

#[test]
fn shared_mode_round_trip() {
    let m = AtomicMode::default();
    assert_eq!(m.load(Ordering::SeqCst), Mode::Normal);
    m.store(Mode::Hint, Ordering::SeqCst);
    assert_eq!(m.swap(Mode::Normal, Ordering::SeqCst), Mode::Hint);
    assert_eq!(m.compare_exchange(Mode::Hint, Mode::Hint, Ordering::SeqCst, Ordering::SeqCst), Err(Mode::Normal));
    assert_eq!(m.compare_exchange(Mode::Normal, Mode::Hint, Ordering::SeqCst, Ordering::SeqCst), Ok(Mode::Normal));
    assert_eq!(m.load(Ordering::SeqCst), Mode::Hint);
}

#[test]
fn two_key_bindings_wait_for_their_second_key() {
    let mut m = daemon_with(3);
    let km = Keymaps::default();
    m.key_action(KeyAction::NextNotification);
    m.key_action(KeyAction::NextNotification);
    assert_eq!(m.notifications().selected_id(), Some(2));
    let mut pending = keys("g");
    let acts = m.handle_key(&km, &mut pending, &vec![], None);
    assert!(matches!(acts[..], [Action::Render]));
    assert_eq!(pending, keys("g"));
    assert_eq!(m.notifications().selected_id(), Some(2));
    pending.0.push(keys("g").0[0]);
    m.handle_key(&km, &mut pending, &vec![], None);
    assert!(pending.0.is_empty());
    assert_eq!(m.notifications().selected_id(), Some(1));
}

#[test]
fn key_table_binds_sequences() {
    let table = vec![
        ("d".to_string(), Mode::Normal, KeyAction::DismissNotification),
        ("ge".to_string(), Mode::Normal, KeyAction::LastNotification),
    ];
    let km = Keymaps::from_table(&table).unwrap();
    assert_eq!(km.find(&keys("d"), Mode::Normal).unwrap().action, KeyAction::DismissNotification);
    assert_eq!(km.find(&keys("ge"), Mode::Normal).unwrap().action, KeyAction::LastNotification);
    assert_eq!(km.find(&keys("gg"), Mode::Normal).unwrap().action, KeyAction::FirstNotification);
}
