use moxnotify::keymaps::{Key, KeyWithModifiers, Keys, Modifiers};
use moxnotify::repeat::{KeyRepeat, RepeatAction, RepeatEvent};

fn kwm(c: char) -> KeyWithModifiers {
    KeyWithModifiers { key: Key::Character(c), modifiers: Modifiers::default() }
}

#[test]
fn held_key_repeats_at_the_rate() {
    let mut r = KeyRepeat::default();
    let none = Keys(vec![]);
    assert!(r.step(RepeatEvent::Info { rate: 25, delay: 600 }, &none).is_empty());
    let acts = r.step(
        RepeatEvent::Pressed { key: Some(Key::Character('j')), modifiers: Modifiers::default(), repeats: true },
        &none,
    );
    assert_eq!(
        acts,
        vec![
            RepeatAction::PushKey(kwm('j')),
            RepeatAction::StartTimer { first_ms: 600, every_ms: 40 },
            RepeatAction::HandleKey,
        ]
    );
    assert!(r.armed);
    let tick = r.step(RepeatEvent::Tick { modifiers: Modifiers::default() }, &none);
    assert_eq!(tick, vec![RepeatAction::PushKey(kwm('j')), RepeatAction::HandleKey]);
    // pressing again replaces the timer
    let again = r.step(
        RepeatEvent::Pressed { key: Some(Key::Character('k')), modifiers: Modifiers::default(), repeats: true },
        &none,
    );
    assert_eq!(again[1], RepeatAction::CancelTimer);
    // releasing a key that is not the only key typed keeps the timer
    let typed = Keys(vec![kwm('g'), kwm('k')]);
    let rel = r.step(RepeatEvent::Released { key: Some(Key::Character('k')), modifiers: Modifiers::default() }, &typed);
    assert!(rel.is_empty());
    assert!(r.armed);
    assert_eq!(r.key, None);
    // releasing the only key typed removes it
    let rel = r.step(
        RepeatEvent::Released { key: Some(Key::Character('k')), modifiers: Modifiers::default() },
        &Keys(vec![kwm('k')]),
    );
    assert_eq!(rel, vec![RepeatAction::CancelTimer]);
    assert!(!r.armed);
    let tick = r.step(RepeatEvent::Tick { modifiers: Modifiers::default() }, &none);
    assert_eq!(tick, vec![RepeatAction::HandleKey]);
}

#[test]
fn non_repeating_key_is_typed_once() {
    let mut r = KeyRepeat { key: None, rate: 33, delay: 200, armed: false };
    let acts = r.step(RepeatEvent::Pressed { key: None, modifiers: Modifiers::default(), repeats: false }, &Keys(vec![]));
    assert_eq!(acts, vec![RepeatAction::HandleKey]);
    assert!(!r.armed);
    let mut neg = KeyRepeat { key: None, rate: -3, delay: 1, armed: false };
    let acts = neg.step(
        RepeatEvent::Pressed { key: Some(Key::Character('x')), modifiers: Modifiers::default(), repeats: true },
        &Keys(vec![]),
    );
    assert_eq!(acts[1], RepeatAction::StartTimer { first_ms: 1, every_ms: (1000i32 / -3) as u64 });
}
