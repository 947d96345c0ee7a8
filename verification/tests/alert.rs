use moxnotify::alert::{
    default_max_icon_size, default_max_visible, deserialize_keycombination_inner,
    deserialize_keycombination_map, Color, Key, KeyAction, KeyCombination, Modifiers, Queue,
    SpecialKeyCode,
};
use std::str::FromStr;

#[test]
fn colors_read_hex() {
    assert_eq!(Color::from_str("#fff").unwrap().rgba, [255, 255, 255, 255]);
    assert_eq!(Color::from_str("#12345678").unwrap().rgba, [0x12, 0x34, 0x56, 0x78]);
    assert_eq!(Color::from_str("fff").unwrap_err(), "Hex string must start with '#'");
    assert_eq!(
        Color::from_str("#12345").unwrap_err(),
        "Invalid hex length: 5 (expected 3, 4, 6, or 8 characters)"
    );
}

#[test]
fn defaults() {
    assert_eq!(default_max_visible(), 5);
    assert_eq!(default_max_icon_size(), 64);
    assert_eq!(Queue::default(), Queue::Ordered);
    assert_eq!(Key::default(), Key::Character('\0'));
}

#[test]
fn key_combinations() {
    let k = KeyCombination::from_str("ctrl+shift+X").unwrap();
    assert_eq!(
        k,
        KeyCombination {
            modifiers: Modifiers { control: true, shift: true, alt: false, meta: false },
            key: Key::Character('x'),
        }
    );
    let k = deserialize_keycombination_inner("alt+Enter").unwrap();
    assert_eq!(k.key, Key::SpecialKey(SpecialKeyCode::Enter));
    assert!(k.modifiers.alt);
    assert_eq!(
        deserialize_keycombination_inner("space").unwrap().key,
        Key::SpecialKey(SpecialKeyCode::Space)
    );
    assert_eq!(deserialize_keycombination_inner("hyper+x").unwrap_err(), "Invalid modifier: hyper");
    assert_eq!(deserialize_keycombination_inner("ctrl+Foo").unwrap_err(), "Invalid key: foo");
    assert_eq!(deserialize_keycombination_inner("é").unwrap_err(), "Invalid key: é");
}

#[test]
fn keymaps_fill_defaults() {
    let m = deserialize_keycombination_map(&vec![("n".to_string(), KeyAction::NextNotification)]).unwrap();
    let plain = |key| KeyCombination { modifiers: Modifiers::default(), key };
    assert_eq!(
        m,
        vec![
            (plain(Key::Character('n')), KeyAction::NextNotification),
            (plain(Key::Character('k')), KeyAction::PreviousNotification),
            (plain(Key::Character('x')), KeyAction::DismissNotification),
            (plain(Key::SpecialKey(SpecialKeyCode::Enter)), KeyAction::InvokeAction),
        ]
    );
}

#[test]
fn keymaps_default_may_replace_user_binding() {
    let m = deserialize_keycombination_map(&vec![("j".to_string(), KeyAction::InvokeAction)]).unwrap();
    let plain = |key| KeyCombination { modifiers: Modifiers::default(), key };
    assert_eq!(m[0], (plain(Key::Character('j')), KeyAction::NextNotification));
    assert!(m.iter().any(|(_, a)| *a == KeyAction::InvokeAction));
}

#[test]
fn keymaps_report_bad_binding() {
    let r = deserialize_keycombination_map(&vec![
        ("j".to_string(), KeyAction::NextNotification),
        ("bad+j".to_string(), KeyAction::InvokeAction),
    ]);
    assert_eq!(r.unwrap_err(), "Invalid modifier: bad");
}
