//! Key repeat on the keyboard of the seat: what pressing, releasing, a timer tick and
//! the compositor's repeat settings do, as a step from state and event to the next
//! state and the actions to perform (timers, typed keys, handling the keys).
use crate::keymaps::{Key, KeyWithModifiers, Keys, Modifiers};
use vstd::prelude::*;

verus! {

/// The key held for repeating, the compositor's repeat rate (keys per second) and
/// delay (milliseconds), and whether a repeat timer is registered.
#[derive(Debug, Clone, Copy, PartialEq)]
pub struct KeyRepeat {
    pub key: Option<Key>,
    pub rate: i32,
    pub delay: i32,
    pub armed: bool,
}

/// What the keyboard reports.
#[derive(Debug, Clone, Copy, PartialEq)]
pub enum RepeatEvent {
    /// New repeat settings.
    Info { rate: i32, delay: i32 },
    /// A key went down (`None` for a key that stands for none, such as a modifier),
    /// with the modifiers held and whether the keymap repeats it.
    Pressed { key: Option<Key>, modifiers: Modifiers, repeats: bool },
    /// A key went up.
    Released { key: Option<Key>, modifiers: Modifiers },
    /// The repeat timer fired.
    Tick { modifiers: Modifiers },
}

/// What the seat does in turn.
#[derive(Debug, Clone, Copy, PartialEq)]
pub enum RepeatAction {
    /// Remove the registered repeat timer.
    CancelTimer,
    /// Register a repeat timer: first after `first_ms`, then every `every_ms`.
    StartTimer { first_ms: u64, every_ms: u64 },
    /// Add a key to the keys typed so far.
    PushKey(KeyWithModifiers),
    /// Handle the keys typed so far (see `Moxnotify::handle_key`).
    HandleKey,
}

impl Default for KeyRepeat {
    fn default() -> (r: Self)
        ensures
            r == (KeyRepeat { key: None, rate: 0, delay: 0, armed: false }),
    {
        KeyRepeat { key: None, rate: 0, delay: 0, armed: false }
    }
}

/// The interval between repeats for `rate` keys per second: `1000 / rate` in
/// milliseconds, divided with truncation and taken as a `u64` (a negative quotient
/// wraps around).
pub open spec fn repeat_ms(rate: i32) -> u64 {
    (if rate > 0 {
        1000int / (rate as int)
    } else {
        -(1000int / (-(rate as int)))
    }) as u64
}

/// The key held, with the modifiers held.
pub open spec fn held(key: Key, modifiers: Modifiers) -> KeyWithModifiers {
    KeyWithModifiers { key, modifiers }
}

/// One step of key repeat, given the keys typed so far (`pending`):
/// - new settings are kept;
/// - a key pressed becomes the key held and is typed; where the keymap repeats it, a
///   registered timer is removed and a new one set up (first after the delay, then at
///   the rate); where it does not, a registered timer is removed (and still counted as
///   registered); then the typed keys are handled;
/// - a key released is no longer held; unless it is a key that is not the only key
///   typed, a registered timer is removed;
/// - a tick types the key held again, if any, and handles the typed keys.
pub open spec fn repeat_spec(s: KeyRepeat, e: RepeatEvent, pending: Seq<KeyWithModifiers>) -> (
    KeyRepeat,
    Seq<RepeatAction>,
) {
    match e {
        RepeatEvent::Info { rate, delay } => (KeyRepeat { rate, delay, ..s }, Seq::empty()),
        RepeatEvent::Pressed { key, modifiers, repeats } => {
            let typed = match key {
                Some(k) => seq![RepeatAction::PushKey(held(k, modifiers))],
                None => Seq::empty(),
            };
            let cancel = if s.armed {
                seq![RepeatAction::CancelTimer]
            } else {
                Seq::empty()
            };
            if repeats {
                (
                    KeyRepeat { key, armed: true, ..s },
                    typed + cancel + seq![
                        RepeatAction::StartTimer {
                            first_ms: s.delay as u64,
                            every_ms: repeat_ms(s.rate),
                        },
                        RepeatAction::HandleKey,
                    ],
                )
            } else {
                (KeyRepeat { key, ..s }, typed + cancel + seq![RepeatAction::HandleKey])
            }
        },
        RepeatEvent::Released { key, modifiers } => {
            let s1 = KeyRepeat { key: None, ..s };
            if key is Some && pending != seq![held(key->0, modifiers)] {
                (s1, Seq::empty())
            } else if s.armed {
                (KeyRepeat { armed: false, ..s1 }, seq![RepeatAction::CancelTimer])
            } else {
                (s1, Seq::empty())
            }
        },
        RepeatEvent::Tick { modifiers } => match s.key {
            Some(k) => (s, seq![RepeatAction::PushKey(held(k, modifiers)), RepeatAction::HandleKey]),
            None => (s, seq![RepeatAction::HandleKey]),
        },
    }
}

/// `1000 / rate` milliseconds (see `repeat_ms`).
fn interval(rate: i32) -> (ms: u64)
    requires
        rate != 0,
    ensures
        ms == repeat_ms(rate),
{
    let q: i64 = if rate > 0 {
        1000i64 / (rate as i64)
    } else {
        -(1000i64 / (-(rate as i64)))
    };
    q as u64
}

/// Whether the typed keys are exactly `k`.
fn only_key(pending: &Keys, k: KeyWithModifiers) -> (b: bool)
    ensures
        b == (pending@ == seq![k]),
{
    if pending.0.len() == 1 && pending.0[0] == k {
        assert(pending@ =~= seq![k]);
        true
    } else {
        assert(pending@.len() != 1 || pending@[0] != k);
        false
    }
}

impl KeyRepeat {
    /// One step of key repeat (see `repeat_spec`). A repeating key pressed while the
    /// rate is 0 has no interval: the rate divides 1000.
    pub fn step(&mut self, e: RepeatEvent, pending: &Keys) -> (acts: Vec<RepeatAction>)
        requires
            (e matches RepeatEvent::Pressed { repeats, .. } && repeats) ==> old(self).rate != 0,
        ensures
            *final(self) == repeat_spec(*old(self), e, pending@).0,
            acts@ == repeat_spec(*old(self), e, pending@).1,
    {
        let mut acts: Vec<RepeatAction> = Vec::new();
        match e {
            RepeatEvent::Info { rate, delay } => {
                self.rate = rate;
                self.delay = delay;
            },
            RepeatEvent::Pressed { key, modifiers, repeats } => {
                self.key = key;
                match key {
                    Some(k) => acts.push(RepeatAction::PushKey(KeyWithModifiers { key: k, modifiers })),
                    None => {},
                }
                if self.armed {
                    acts.push(RepeatAction::CancelTimer);
                }
                if repeats {
                    let every = interval(self.rate);
                    acts.push(RepeatAction::StartTimer { first_ms: self.delay as u64, every_ms: every });
                    self.armed = true;
                }
                acts.push(RepeatAction::HandleKey);
                assert(acts@ =~= repeat_spec(*old(self), e, pending@).1);
            },
            RepeatEvent::Released { key, modifiers } => {
                self.key = None;
                let other = match key {
                    Some(k) => !only_key(pending, KeyWithModifiers { key: k, modifiers }),
                    None => false,
                };
                if !other && self.armed {
                    acts.push(RepeatAction::CancelTimer);
                    self.armed = false;
                }
                assert(acts@ =~= repeat_spec(*old(self), e, pending@).1);
            },
            RepeatEvent::Tick { modifiers } => {
                match self.key {
                    Some(k) => acts.push(RepeatAction::PushKey(KeyWithModifiers { key: k, modifiers })),
                    None => {},
                }
                acts.push(RepeatAction::HandleKey);
                assert(acts@ =~= repeat_spec(*old(self), e, pending@).1);
            },
        }
        acts
    }
}

} // verus!
