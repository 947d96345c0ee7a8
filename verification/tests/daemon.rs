use moxnotify::config::{Queue, TimeoutPolicy};
use moxnotify::daemon::{sound_path, Action, EmitEvent, Event, Moxnotify, Outside, Sounds};
use moxnotify::manager::{NotificationManager, TimerAction};
use moxnotify::notification::{History, NotificationData, NotificationHints, Reason, Urgency};

fn sounds() -> Sounds {
    Sounds {
        urgency_low: None,
        urgency_normal: Some("/normal.ogg".to_string()),
        urgency_critical: Some("/critical.ogg".to_string()),
    }
}

fn daemon() -> Moxnotify {
    Moxnotify::new(NotificationManager::new(Queue::Unordered, 5, TimeoutPolicy::new()), true, sounds(), 10)
}

fn outside() -> Outside {
    Outside { sound_lookup: None, last_rowid: 0 }
}

fn notify(m: &mut Moxnotify, id: u32) -> Vec<Action> {
    let data = NotificationData { id, ..Default::default() };
    m.handle_app_event(Event::Notify(Box::new(data)), outside())
}

fn closed(a: &Action) -> Option<(u32, Reason)> {
    match a {
        Action::Emit(EmitEvent::NotificationClosed { id, reason }) => Some((*id, *reason)),
        _ => None,
    }
}

#[test]
fn notify_shows_plays_and_stores() {
    let mut m = daemon();
    let acts = notify(&mut m, 1);
    assert_eq!(m.notifications().notifications().len(), 1);
    assert!(matches!(&acts[0], Action::PlaySound(p) if p == "/normal.ogg"));
    assert!(matches!(acts[1], Action::StoreLast));
    assert!(matches!(acts[2], Action::Render));
    assert_eq!(acts.len(), 3);
}

#[test]
fn sound_choice() {
    let mut h = NotificationHints::default();
    assert_eq!(sound_path(&h, None, &sounds()).as_deref(), Some("/normal.ogg"));
    h.urgency = Urgency::Low;
    assert_eq!(sound_path(&h, None, &sounds()), None);
    h.sound_name = Some("bell".to_string());
    assert_eq!(sound_path(&h, Some("/bell.ogg".to_string()), &sounds()).as_deref(), Some("/bell.ogg"));
    h.sound_file = Some("/file.ogg".to_string());
    assert_eq!(sound_path(&h, Some("/bell.ogg".to_string()), &sounds()).as_deref(), Some("/file.ogg"));
}

#[test]
fn suppressed_or_inhibited_notifications_are_silent() {
    let mut m = daemon();
    let mut data = NotificationData { id: 1, ..Default::default() };
    data.hints.suppress_sound = true;
    let acts = m.handle_app_event(Event::Notify(Box::new(data)), outside());
    assert!(!acts.iter().any(|a| matches!(a, Action::PlaySound(_))));

    m.handle_app_event(Event::Inhibit, outside());
    let acts = notify(&mut m, 2);
    assert!(!acts.iter().any(|a| matches!(a, Action::PlaySound(_))));
    assert_eq!(m.notifications().waiting(), 1);
    assert_eq!(m.notifications().notifications().len(), 1);
}

#[test]
fn close_notification_emits_reason() {
    let mut m = daemon();
    notify(&mut m, 1);
    notify(&mut m, 2);
    let acts = m.handle_app_event(Event::CloseNotification(1), outside());
    assert_eq!(acts.iter().filter_map(closed).collect::<Vec<_>>(), vec![(1, Reason::CloseNotificationCall)]);
    assert_eq!(m.notifications().notifications().len(), 1);
    // closing a notification that is not shown only redraws
    let acts = m.handle_app_event(Event::CloseNotification(9), outside());
    assert!(acts.iter().all(|a| matches!(a, Action::Render)));
}

#[test]
fn dismiss_requests() {
    let mut m = daemon();
    for id in 1..=3 {
        notify(&mut m, id);
    }
    let acts = m.handle_app_event(Event::Dismiss { all: false, id: 0 }, outside());
    assert_eq!(acts.iter().filter_map(closed).collect::<Vec<_>>(), vec![(1, Reason::DismissedByUser)]);
    let acts = m.handle_app_event(Event::Dismiss { all: true, id: 0 }, outside());
    assert_eq!(
        acts.iter().filter_map(closed).collect::<Vec<_>>(),
        vec![(2, Reason::DismissedByUser), (3, Reason::DismissedByUser)]
    );
    assert!(m.notifications().notifications().is_empty());
}

#[test]
fn dismissing_selected_moves_selection_and_mode() {
    let mut m = daemon();
    for id in 1..=3 {
        notify(&mut m, id);
    }
    m.set_surface(true);
    m.handle_app_event(Event::FocusSurface, outside());
    assert_eq!(m.notifications().selected_id(), Some(1));
    m.dismiss_by_id(1, Some(Reason::DismissedByUser));
    assert_eq!(m.notifications().selected_id(), Some(2));
    m.dismiss_by_id(3, None);
    m.dismiss_by_id(2, None);
    assert_eq!(m.notifications().selected_id(), None);
    let acts = m.dismiss_by_id(2, None);
    assert!(matches!(acts[..], [Action::Render, Action::StopKeyRepeat]));
}

#[test]
fn mute_and_query() {
    let mut m = daemon();
    let acts = m.handle_app_event(Event::Mute, outside());
    assert!(matches!(acts[0], Action::Emit(EmitEvent::MuteStateChanged(true))));
    assert!(matches!(acts[1], Action::MuteAudio));
    let acts = m.handle_app_event(Event::GetMuted, outside());
    assert!(matches!(acts[..], [Action::Emit(EmitEvent::Muted(true))]));
    assert!(m.handle_app_event(Event::Mute, outside()).is_empty());
    let acts = m.handle_app_event(Event::Unmute, outside());
    assert!(matches!(acts[1], Action::Emit(EmitEvent::MuteStateChanged(false))));
    let mut silent = Moxnotify::new(NotificationManager::new(Queue::Unordered, 5, TimeoutPolicy::new()), false, sounds(), 10);
    let acts = silent.handle_app_event(Event::GetMuted, outside());
    assert!(matches!(acts[..], [Action::Emit(EmitEvent::Muted(true))]));
}

#[test]
fn history_round_trip() {
    let mut m = daemon();
    notify(&mut m, 1);
    let acts = m.handle_app_event(Event::ShowHistory, outside());
    assert_eq!(m.history(), History::Shown);
    assert!(matches!(acts[0], Action::TrimHistory { keep: 10, spare: 0 }));
    assert!(matches!(acts[1], Action::Emit(EmitEvent::HistoryStateChanged(History::Shown))));
    assert_eq!(acts.iter().filter_map(closed).collect::<Vec<_>>(), vec![(1, Reason::Expired)]);
    assert!(acts.iter().any(|a| matches!(a, Action::LoadHistory)));
    m.load_history(vec![NotificationData { id: 7, ..Default::default() }]);
    assert_eq!(m.notifications().notifications().len(), 1);
    // with the history shown, a new notification takes its stored row identifier
    let data = NotificationData { id: 1, ..Default::default() };
    m.handle_app_event(Event::Notify(Box::new(data)), Outside { sound_lookup: None, last_rowid: 12 });
    assert_eq!(m.notifications().notifications()[1].id(), 12);
    let acts = m.dismiss_by_id(12, None);
    assert!(matches!(acts[0], Action::DeleteFromHistory(12)));
    let acts = m.handle_app_event(Event::HideHistory, outside());
    assert_eq!(m.history(), History::Hidden);
    assert!(matches!(acts[0], Action::TrimHistory { keep: 10, spare: 1 }));
    assert!(acts.iter().filter_map(closed).next().is_none());
    assert!(m.notifications().notifications().is_empty());
    let acts = m.handle_app_event(Event::GetHistory, outside());
    assert!(matches!(acts[..], [Action::Emit(EmitEvent::HistoryState(History::Hidden))]));
}

#[test]
fn inhibit_round_trip() {
    let mut m = daemon();
    let acts = m.handle_app_event(Event::Inhibit, outside());
    assert!(matches!(acts[0], Action::Emit(EmitEvent::InhibitStateChanged(true))));
    notify(&mut m, 1);
    notify(&mut m, 2);
    let acts = m.handle_app_event(Event::Waiting, outside());
    assert!(matches!(acts[..], [Action::Emit(EmitEvent::Waiting(2))]));
    let acts = m.handle_app_event(Event::Uninhibit, outside());
    assert!(matches!(acts[1], Action::ReplayWaiting(2)));
    assert_eq!(m.notifications().waiting(), 0);
    let mut data = NotificationData { id: 5, ..Default::default() };
    data.timeout = 100;
    let acts = m.replay(data);
    assert!(matches!(acts[..], [Action::Timer(TimerAction::Start { id: 5, ms: 100, .. })]));
    let acts = m.handle_app_event(Event::GetInhibited, outside());
    assert!(matches!(acts[..], [Action::Emit(EmitEvent::Inhibited(false))]));
}

#[test]
fn list_request() {
    let mut m = daemon();
    let acts = m.handle_app_event(Event::List, outside());
    assert!(matches!(acts[..], [Action::ListNotifications]));
}

#[test]
fn dismiss_range_partial() {
    let mut m = daemon();
    for id in 1..=4 {
        notify(&mut m, id);
    }
    let acts = m.dismiss_range(1, 3, Some(Reason::Expired));
    assert_eq!(acts.iter().filter_map(closed).collect::<Vec<_>>(), vec![(2, Reason::Expired), (3, Reason::Expired)]);
    let ids: Vec<u32> = m.notifications().notifications().iter().map(|n| n.id()).collect();
    assert_eq!(ids, vec![1, 4]);
}


#[test]
fn muted_daemon_plays_no_sound() {
    let mut m = daemon();
    m.handle_app_event(Event::Mute, outside());
    let acts = notify(&mut m, 1);
    assert!(!acts.iter().any(|a| matches!(a, Action::PlaySound(_))));
    m.handle_app_event(Event::Unmute, outside());
    let acts = notify(&mut m, 2);
    assert!(acts.iter().any(|a| matches!(a, Action::PlaySound(p) if p == "/normal.ogg")));
}
