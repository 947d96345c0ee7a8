use moxnotify::config::{Queue, TimeoutPolicy};
use moxnotify::manager::{NotificationManager, TimerAction};
use moxnotify::notification::NotificationData;

fn manager() -> NotificationManager {
    NotificationManager::new(Queue::default(), 5, TimeoutPolicy::new())
}

fn data(id: u32) -> NotificationData {
    NotificationData {
        id,
        ..Default::default()
    }
}

#[test]
fn test_add() {
    let mut manager = manager();
    let data = NotificationData::default();
    manager.add(data);

    assert_eq!(manager.notifications().len(), 1);
}

#[test]
fn test_add_with_duplicate_id() {
    let mut manager = manager();
    let data = NotificationData {
        id: 42,
        ..Default::default()
    };

    manager.add(data.clone());

    manager.add(data);

    assert_eq!(manager.notifications().len(), 1);
}

#[test]
fn test_add_many() {
    let mut manager = manager();

    let mut notifications = Vec::new();
    for i in 1..=5 {
        let data = NotificationData {
            id: i,
            ..Default::default()
        };
        notifications.push(data);
    }

    manager.add_many(notifications);
    assert_eq!(manager.notifications().len(), 5);
}

#[test]
fn test_dismiss() {
    let mut manager = manager();
    let data = NotificationData {
        id: 123,
        ..Default::default()
    };
    manager.add(data);

    assert_eq!(manager.notifications().len(), 1);

    manager.dismiss(123);
    assert_eq!(manager.notifications().len(), 0);
}

#[test]
fn test_select_and_deselect() {
    let mut manager = manager();
    let data = NotificationData {
        id: 1,
        ..Default::default()
    };
    manager.add(data);

    assert_eq!(manager.selected_id(), None);

    manager.select(1);
    assert_eq!(manager.selected_id(), Some(1));

    let notification = manager.selected_notification().unwrap();
    assert!(notification.hovered());

    manager.deselect();
    assert_eq!(manager.selected_id(), None);
}

#[test]
fn test_next_and_prev() {
    let mut manager = manager();

    for i in 1..=3 {
        let data = NotificationData {
            id: i,
            ..Default::default()
        };
        manager.add(data);
    }

    manager.next();
    assert_eq!(manager.selected_id(), Some(1));

    manager.next();
    assert_eq!(manager.selected_id(), Some(2));

    manager.next();
    assert_eq!(manager.selected_id(), Some(3));

    manager.next();
    assert_eq!(manager.selected_id(), Some(1));

    manager.prev();
    assert_eq!(manager.selected_id(), Some(3));

    manager.prev();
    assert_eq!(manager.selected_id(), Some(2));
}

#[test]
fn test_inhibit() {
    let mut manager = manager();
    let data = NotificationData {
        id: 0,
        ..Default::default()
    };
    manager.add(data);

    assert_eq!(manager.notifications().len(), 1);

    manager.inhibit();

    let data = NotificationData {
        id: 1,
        ..Default::default()
    };
    manager.add(data);

    assert_eq!(manager.notifications().len(), 1);
    assert_eq!(manager.waiting(), 1);

    manager.uninhibit();

    assert_eq!(manager.notifications().len(), 1);
    assert_eq!(manager.waiting(), 0);
}

#[test]
fn add_starts_timer_for_timed_notification() {
    let mut manager = manager();
    let mut d = data(7);
    d.timeout = 3000;
    let acts = manager.add(d);
    assert_eq!(acts, vec![TimerAction::Start { key: 0, id: 7, ms: 3000 }]);
    assert_eq!(manager.notifications()[0].timer, Some(0));
}

#[test]
fn add_default_timeout_uses_urgency_seconds() {
    let mut manager = manager();
    let mut d = data(7);
    d.timeout = -1;
    let acts = manager.add(d);
    assert_eq!(acts, vec![TimerAction::Start { key: 0, id: 7, ms: 10000 }]);
}

#[test]
fn add_zero_timeout_has_no_timer() {
    let mut manager = manager();
    let acts = manager.add(data(7));
    assert!(acts.is_empty());
    assert_eq!(manager.notifications()[0].timeout(), None);
}

#[test]
fn replacing_cancels_old_timer() {
    let mut manager = manager();
    let mut d = data(9);
    d.timeout = 1000;
    manager.add(d.clone());
    let acts = manager.add(d);
    assert_eq!(
        acts,
        vec![TimerAction::Start { key: 1, id: 9, ms: 1000 }, TimerAction::Cancel { key: 0 }]
    );
    assert_eq!(manager.notifications().len(), 1);
}

#[test]
fn ordered_queue_times_only_first() {
    let mut manager = NotificationManager::new(Queue::Ordered, 5, TimeoutPolicy::new());
    let mut a = data(1);
    a.timeout = 1000;
    let mut b = data(2);
    b.timeout = 2000;
    assert_eq!(manager.add(a), vec![TimerAction::Start { key: 0, id: 1, ms: 1000 }]);
    assert!(manager.add(b).is_empty());
    // dismissing the first starts the timer of the new first
    let acts = manager.dismiss(1);
    assert_eq!(
        acts,
        vec![TimerAction::Cancel { key: 0 }, TimerAction::Start { key: 1, id: 2, ms: 2000 }]
    );
}

#[test]
fn select_pauses_and_deselect_resumes_timer() {
    let mut manager = manager();
    let mut d = data(4);
    d.timeout = 500;
    manager.add(d);
    assert_eq!(manager.select(4), vec![TimerAction::Cancel { key: 0 }]);
    assert_eq!(manager.notifications()[0].timer, None);
    assert_eq!(manager.deselect(), vec![TimerAction::Start { key: 1, id: 4, ms: 500 }]);
}

#[test]
fn dismissing_selected_selects_next() {
    let mut manager = manager();
    for i in 1..=3 {
        manager.add(data(i));
    }
    manager.select(2);
    manager.dismiss(2);
    assert_eq!(manager.selected_id(), Some(3));
    manager.dismiss(3);
    assert_eq!(manager.selected_id(), None);
}

#[test]
fn window_scrolls_with_selection() {
    let mut manager = NotificationManager::new(Queue::Unordered, 2, TimeoutPolicy::new());
    for i in 1..=4 {
        manager.add(data(i));
    }
    assert_eq!(manager.hidden_below(), 2);
    manager.next();
    manager.next();
    manager.next();
    assert_eq!(manager.selected_id(), Some(3));
    assert_eq!(manager.first_visible(), 1);
    assert!(manager.is_visible(2));
    assert!(!manager.is_visible(0));
    assert_eq!(manager.hidden_above(), 1);
    assert_eq!(manager.hidden_below(), 1);
    manager.prev();
    manager.prev();
    manager.prev();
    assert_eq!(manager.selected_id(), Some(4));
    assert_eq!(manager.first_visible(), 2);
}

#[test]
fn next_then_prev_returns() {
    let mut manager = manager();
    for i in 1..=4 {
        manager.add(data(i));
    }
    manager.select(3);
    manager.next();
    manager.prev();
    assert_eq!(manager.selected_id(), Some(3));
}

#[test]
fn clear_keeps_selection_and_waiting() {
    let mut manager = manager();
    manager.add(data(1));
    manager.select(1);
    manager.clear();
    assert!(manager.notifications().is_empty());
    assert_eq!(manager.selected_id(), Some(1));
}
