//! What the daemon decides on each request: which notifications to show or close,
//! which signals to emit, what to store in or load from the history, which sound to play.
//!
//! The event loop performs the returned `Action`s in order; where an action needs an
//! answer from outside (stored history rows), it calls back into `Moxnotify` with it.
use crate::manager::{
    add_spec, deselect_spec, dismiss_spec, fast_forward, first_id, next_spec, pos, prev_spec,
    rewind, select_spec, unique_ids, ManagerView, NotificationManager, TimerAction,
};
use crate::buttons::find_hint;
use crate::keymaps::{
    awaits_more, default_bindings, find_binding, is_prefix, keys_text, matches_spec, one_key, KeyAction,
    Keymaps, Keys, Mode, SpecBinding,
    KeyWithModifiers,
};
use crate::notification::{
    id_of_row, row_id, History, NotificationData, NotificationHints, NotificationId, Reason,
    Urgency,
};
use vstd::prelude::*;

verus! {

/// What the daemon tells its clients.
#[derive(Debug, Clone)]
pub enum EmitEvent {
    Waiting(u32),
    ActionInvoked { id: NotificationId, action_key: String, token: Option<String> },
    NotificationClosed { id: NotificationId, reason: Reason },
    Open { uri: String, token: Option<String> },
    List(Vec<String>),
    MuteStateChanged(bool),
    HistoryStateChanged(History),
    InhibitStateChanged(bool),
    Muted(bool),
    HistoryState(History),
    Inhibited(bool),
}

/// A request to the daemon.
#[derive(Debug)]
pub enum Event {
    Waiting,
    Dismiss { all: bool, id: NotificationId },
    Notify(Box<NotificationData>),
    CloseNotification(u32),
    List,
    FocusSurface,
    Mute,
    Unmute,
    GetMuted,
    ShowHistory,
    HideHistory,
    GetHistory,
    Inhibit,
    Uninhibit,
    GetInhibited,
}

/// What the event loop does for the daemon.
#[derive(Debug)]
pub enum Action {
    /// Start or stop an expiry timer.
    Timer(TimerAction),
    /// Send an event to the clients.
    Emit(EmitEvent),
    /// Delete the stored notification with this row identifier.
    DeleteFromHistory(NotificationId),
    /// Store the last notification on screen.
    StoreLast,
    /// Delete the oldest stored notifications, all but `keep - spare` of them.
    TrimHistory { keep: u32, spare: u32 },
    /// Load the stored notifications, newest first, and hand them to `load_history`.
    LoadHistory,
    /// Load the newest `n` stored notifications and hand each to `replay`.
    ReplayWaiting(u32),
    /// Play the sound file at this path.
    PlaySound(String),
    MuteAudio,
    UnmuteAudio,
    /// Give the surface keyboard focus.
    FocusSurface,
    /// Send the clients the notifications on screen (an `EmitEvent::List`).
    ListNotifications,
    /// Resize and redraw the surface.
    Render,
    /// Stop repeating a held key.
    StopKeyRepeat,
    /// Take keyboard focus from the surface.
    UnfocusSurface,
}

/// A button of the selected notification that a hint picks.
#[derive(Debug, Clone, PartialEq)]
pub enum HintButton {
    Dismiss,
    Action { action: String },
    Anchor { href: String },
}

/// The sound files played by default, per urgency.
#[derive(Debug, Clone)]
pub struct Sounds {
    pub urgency_low: Option<String>,
    pub urgency_normal: Option<String>,
    pub urgency_critical: Option<String>,
}

/// The default sound for an urgency.
pub open spec fn default_sound(s: Sounds, u: Urgency) -> Option<String> {
    match u {
        Urgency::Low => s.urgency_low,
        Urgency::Normal => s.urgency_normal,
        Urgency::Critical => s.urgency_critical,
    }
}

/// The sound of a notification: its `sound-file`; else, for a `sound-name`, the file
/// that the sound theme has for it (`lookup`); else the default for its urgency.
pub open spec fn sound_spec(h: NotificationHints, lookup: Option<String>, s: Sounds) -> Option<String> {
    match h.sound_file {
        Some(f) => Some(f),
        None => match h.sound_name {
            Some(_) => lookup,
            None => default_sound(s, h.urgency),
        },
    }
}

/// The sound file to play for a notification with hints `h`; `lookup` is what the
/// sound theme has for its `sound-name`.
pub fn sound_path(h: &NotificationHints, lookup: Option<String>, s: &Sounds) -> (p: Option<String>)
    ensures
        p == sound_spec(*h, lookup, *s),
{
    match &h.sound_file {
        Some(f) => Some(f.clone()),
        None => match &h.sound_name {
            Some(_) => lookup,
            None => match h.urgency {
                Urgency::Low => s.urgency_low.clone(),
                Urgency::Normal => s.urgency_normal.clone(),
                Urgency::Critical => s.urgency_critical.clone(),
            },
        },
    }
}


/// The daemon as the contracts see it: the notifications on screen, whether past ones
/// are shown, the audio device (`None`: there is none; else whether it is muted), the
/// key mode, the surface (`None`: there is none; else whether it has focus), the
/// selection to restore on focus, the default sounds, and how many past notifications
/// are kept.
pub struct MoxView {
    pub manager: ManagerView,
    pub history: History,
    pub audio: Option<bool>,
    pub mode: Mode,
    pub surface: Option<bool>,
    pub last_selected: Option<NotificationId>,
    pub sounds: Sounds,
    pub history_size: u32,
}

/// The daemon's state.
pub struct Moxnotify {
    notifications: NotificationManager,
    history: History,
    audio: Option<bool>,
    mode: Mode,
    surface: Option<bool>,
    last_selected: Option<NotificationId>,
    sounds: Sounds,
    history_size: u32,
}

impl View for Moxnotify {
    type V = MoxView;

    closed spec fn view(&self) -> MoxView {
        MoxView {
            manager: self.notifications@,
            history: self.history,
            audio: self.audio,
            mode: self.mode,
            surface: self.surface,
            last_selected: self.last_selected,
            sounds: self.sounds,
            history_size: self.history_size,
        }
    }
}

/// Timer changes as actions.
pub open spec fn timers(ts: Seq<TimerAction>) -> Seq<Action> {
    ts.map_values(|t: TimerAction| Action::Timer(t))
}

/// A redraw, and where nothing is left on screen, the end of key repeat.
pub open spec fn redraw(v: ManagerView) -> Seq<Action> {
    if v.entries.len() == 0 {
        seq![Action::Render, Action::StopKeyRepeat]
    } else {
        seq![Action::Render]
    }
}

/// A `NotificationClosed` event for `id`, where there is a reason.
pub open spec fn closed_event(id: NotificationId, reason: Option<Reason>) -> Seq<Action> {
    match reason {
        Some(r) => seq![Action::Emit(EmitEvent::NotificationClosed { id, reason: r })],
        None => Seq::empty(),
    }
}

/// `dismiss_by_id`: with the history shown, the stored row goes too; otherwise a
/// notification on screen is dismissed, clients learn why, a selection of it moves to
/// the one now at its place (or the last), and the key mode returns to normal.
pub open spec fn dismiss_by_id_spec(m: MoxView, id: NotificationId, reason: Option<Reason>) -> (MoxView, Seq<Action>) {
    match m.history {
        History::Shown => {
            let (mv, ts) = dismiss_spec(m.manager, id);
            (
                MoxView { manager: mv, ..m },
                seq![Action::DeleteFromHistory(id)] + timers(ts) + redraw(mv),
            )
        },
        History::Hidden => {
            let e = m.manager.entries;
            let index = pos(e, id);
            if index < e.len() {
                let mode = if m.manager.selected == Some(id) {
                    Mode::Normal
                } else {
                    m.mode
                };
                let (mv, ts) = dismiss_spec(m.manager, id);
                let len = mv.entries.len();
                let ni = if index >= len {
                    if len > 0 {
                        len - 1
                    } else {
                        0
                    }
                } else {
                    index
                };
                let (mv2, ts2) = if mv.selected == Some(id) && ni < len {
                    select_spec(mv, mv.entries[ni].data.id)
                } else {
                    (mv, Seq::<TimerAction>::empty())
                };
                (
                    MoxView { manager: mv2, mode, ..m },
                    timers(ts) + closed_event(id, reason) + timers(ts2) + redraw(mv2),
                )
            } else {
                (m, redraw(m.manager))
            }
        },
    }
}

/// `NotificationClosed` events for the identifiers `ids`, in order, where there is a
/// reason.
pub open spec fn closed_events(ids: Seq<NotificationId>, reason: Option<Reason>) -> Seq<Action> {
    match reason {
        Some(r) => ids.map_values(
            |id: NotificationId| Action::Emit(EmitEvent::NotificationClosed { id, reason: r }),
        ),
        None => Seq::empty(),
    }
}

/// The identifiers of notifications.
pub open spec fn ids_of(e: Seq<crate::manager::Notification>) -> Seq<NotificationId> {
    e.map_values(|n: crate::manager::Notification| n.data.id)
}

/// Dismissing the notifications with identifiers `ids`, one after another.
pub open spec fn dismiss_each(v: ManagerView, ids: Seq<NotificationId>) -> (ManagerView, Seq<TimerAction>)
    decreases ids.len(),
{
    if ids.len() == 0 {
        (v, Seq::empty())
    } else {
        let (v1, a1) = dismiss_each(v, ids.drop_last());
        let (v2, a2) = dismiss_spec(v1, ids.last());
        (v2, a1 + a2)
    }
}

/// `dismiss_range`: clients learn that the notifications at `start..end` close; all of
/// them at once are cleared (their timers left running), otherwise each is dismissed.
pub open spec fn dismiss_range_spec(m: MoxView, start: int, end: int, reason: Option<Reason>) -> (MoxView, Seq<Action>) {
    let ids = ids_of(m.manager.entries.subrange(start, end));
    let events = closed_events(ids, reason);
    if end - start == m.manager.entries.len() {
        (
            MoxView { manager: ManagerView { entries: Seq::empty(), ..m.manager }, ..m },
            events,
        )
    } else {
        let (mv, ts) = dismiss_each(m.manager, ids);
        (MoxView { manager: mv, ..m }, events + timers(ts))
    }
}


/// Answers from outside that a request may need: the file that the sound theme has for
/// the notification's `sound-name`, and the row identifier of the last stored
/// notification.
#[derive(Debug)]
pub struct Outside {
    pub sound_lookup: Option<String>,
    pub last_rowid: i64,
}

/// A redraw at the end of a request.
pub open spec fn render() -> Seq<Action> {
    seq![Action::Render]
}

/// `Notify`: the notification is added (under its stored row identifier while the
/// history is shown), its sound plays where there is an unmuted audio device, unless
/// inhibited or suppressed, and the last notification on screen is stored.
pub open spec fn notify_spec(m: MoxView, d: NotificationData, o: Outside) -> (MoxView, Seq<Action>) {
    let path = sound_spec(d.hints, o.sound_lookup, m.sounds);
    let id = match m.history {
        History::Shown => row_id(o.last_rowid),
        History::Hidden => d.id,
    };
    let (mv, ts) = add_spec(m.manager, NotificationData { id, ..d });
    let sound = if !mv.inhibited && !d.hints.suppress_sound && m.audio == Some(false) && path is Some {
        seq![Action::PlaySound(path->0)]
    } else {
        Seq::empty()
    };
    let store = if mv.entries.len() > 0 {
        seq![Action::StoreLast]
    } else {
        Seq::empty()
    };
    (MoxView { manager: mv, ..m }, timers(ts) + sound + store)
}

/// `FocusSurface`: an unfocused surface gets focus, and the remembered selection comes
/// back where it is still on screen, else the selection moves on (`next`).
pub open spec fn focus_spec(m: MoxView) -> (MoxView, Seq<Action>) {
    if m.surface == Some(false) {
        let m1 = MoxView { surface: Some(true), ..m };
        if m.last_selected is Some && pos(m.manager.entries, m.last_selected->0)
            < m.manager.entries.len() {
            (
                MoxView {
                    manager: ManagerView { selected: m.last_selected, ..m.manager },
                    ..m1
                },
                seq![Action::FocusSurface],
            )
        } else {
            let (mv, ts) = next_spec(m.manager);
            (MoxView { manager: mv, ..m1 }, seq![Action::FocusSurface] + timers(ts))
        }
    } else {
        (m, Seq::empty())
    }
}

/// `ShowHistory`: while hidden, the store is trimmed to its size, the history is shown,
/// clients learn it, what is on screen closes (expired), and the stored notifications
/// are loaded.
pub open spec fn show_history_spec(m: MoxView) -> (MoxView, Seq<Action>) {
    if m.history == History::Hidden {
        let m1 = MoxView { history: History::Shown, ..m };
        let (m2, a) = dismiss_range_spec(m1, 0, m.manager.entries.len() as int, Some(Reason::Expired));
        (
            m2,
            seq![
                Action::TrimHistory { keep: m.history_size, spare: 0 },
                Action::Emit(EmitEvent::HistoryStateChanged(History::Shown)),
            ] + a + seq![Action::LoadHistory],
        )
    } else {
        (m, Seq::empty())
    }
}

/// `HideHistory`: while shown, the store is trimmed to one less than its size, the
/// history is hidden, clients learn it, and what is on screen goes (with no reason).
pub open spec fn hide_history_spec(m: MoxView) -> (MoxView, Seq<Action>) {
    if m.history == History::Shown {
        let m1 = MoxView { history: History::Hidden, ..m };
        let (m2, a) = dismiss_range_spec(m1, 0, m.manager.entries.len() as int, None);
        (
            m2,
            seq![
                Action::TrimHistory { keep: m.history_size, spare: 1 },
                Action::Emit(EmitEvent::HistoryStateChanged(History::Hidden)),
            ] + a,
        )
    } else {
        (m, Seq::empty())
    }
}

/// `Dismiss`: all notifications, or the first (`id` 0), or the one with `id`, closed by
/// the user.
pub open spec fn dismiss_event_spec(m: MoxView, all: bool, id: NotificationId) -> (MoxView, Seq<Action>) {
    if all {
        dismiss_range_spec(m, 0, m.manager.entries.len() as int, Some(Reason::DismissedByUser))
    } else if id == 0 {
        if m.manager.entries.len() > 0 {
            dismiss_by_id_spec(m, m.manager.entries[0].data.id, Some(Reason::DismissedByUser))
        } else {
            (m, Seq::empty())
        }
    } else {
        dismiss_by_id_spec(m, id, Some(Reason::DismissedByUser))
    }
}

/// What the daemon does on a request, and what it asks the event loop to do.
pub open spec fn app_event_spec(m: MoxView, e: Event, o: Outside) -> (MoxView, Seq<Action>) {
    match e {
        Event::Waiting => (m, seq![Action::Emit(EmitEvent::Waiting(m.manager.waiting))]),
        Event::Dismiss { all, id } => {
            let (m1, a) = dismiss_event_spec(m, all, id);
            (m1, a + render())
        },
        Event::Notify(d) => {
            let (m1, a) = notify_spec(m, *d, o);
            (m1, a + render())
        },
        Event::CloseNotification(id) => {
            let (m1, a) = dismiss_by_id_spec(m, id, Some(Reason::CloseNotificationCall));
            (m1, a + render())
        },
        Event::List => (m, seq![Action::ListNotifications]),
        Event::FocusSurface => {
            let (m1, a) = focus_spec(m);
            (m1, a + render())
        },
        Event::Mute => if m.audio == Some(false) {
            (
                MoxView { audio: Some(true), ..m },
                seq![Action::Emit(EmitEvent::MuteStateChanged(true)), Action::MuteAudio],
            )
        } else {
            (m, Seq::empty())
        },
        Event::Unmute => if m.audio == Some(true) {
            (
                MoxView { audio: Some(false), ..m },
                seq![Action::UnmuteAudio, Action::Emit(EmitEvent::MuteStateChanged(false))],
            )
        } else {
            (m, Seq::empty())
        },
        Event::GetMuted => (
            m,
            seq![
                Action::Emit(
                    EmitEvent::Muted(
                        match m.audio {
                            Some(b) => b,
                            None => true,
                        },
                    ),
                ),
            ],
        ),
        Event::ShowHistory => {
            let (m1, a) = show_history_spec(m);
            (m1, a + render())
        },
        Event::HideHistory => {
            let (m1, a) = hide_history_spec(m);
            (m1, a + render())
        },
        Event::GetHistory => (m, seq![Action::Emit(EmitEvent::HistoryState(m.history))]),
        Event::Inhibit => if !m.manager.inhibited {
            (
                MoxView { manager: ManagerView { inhibited: true, ..m.manager }, ..m },
                seq![Action::Emit(EmitEvent::InhibitStateChanged(true))] + render(),
            )
        } else {
            (m, render())
        },
        Event::Uninhibit => if m.manager.inhibited {
            (
                MoxView {
                    manager: ManagerView { inhibited: false, waiting: 0, ..m.manager },
                    ..m
                },
                seq![
                    Action::Emit(EmitEvent::InhibitStateChanged(false)),
                    Action::ReplayWaiting(m.manager.waiting),
                ] + render(),
            )
        } else {
            (m, render())
        },
        Event::GetInhibited => (m, seq![Action::Emit(EmitEvent::Inhibited(m.manager.inhibited))]),
    }
}

/// What a bound key does (before the redraw that follows every key).
pub open spec fn key_action_spec(m: MoxView, action: KeyAction) -> (MoxView, Seq<Action>) {
    match action {
        KeyAction::Noop => (m, Seq::empty()),
        KeyAction::NextNotification => {
            let (mv, ts) = next_spec(m.manager);
            (MoxView { manager: mv, ..m }, timers(ts))
        },
        KeyAction::PreviousNotification => {
            let (mv, ts) = prev_spec(m.manager);
            (MoxView { manager: mv, ..m }, timers(ts))
        },
        KeyAction::FirstNotification => {
            let (mv, ts) = rewind(m.manager, (m.manager.entries.len() + 1) as nat);
            (MoxView { manager: mv, ..m }, timers(ts))
        },
        KeyAction::LastNotification => {
            let (mv, ts) = fast_forward(m.manager, (m.manager.entries.len() + 1) as nat);
            (MoxView { manager: mv, ..m }, timers(ts))
        },
        KeyAction::DismissNotification => match m.manager.selected {
            Some(id) => dismiss_by_id_spec(m, id, Some(Reason::DismissedByUser)),
            None => (m, Seq::empty()),
        },
        KeyAction::Unfocus => if m.surface is Some {
            let (mv, ts) = deselect_spec(m.manager);
            (
                MoxView { manager: mv, surface: Some(false), ..m },
                seq![Action::UnfocusSurface] + timers(ts) + seq![Action::StopKeyRepeat],
            )
        } else {
            (m, Seq::empty())
        },
        KeyAction::HintMode => (MoxView { mode: Mode::Hint, ..m }, Seq::empty()),
        KeyAction::NormalMode => (MoxView { mode: Mode::Normal, ..m }, Seq::empty()),
        KeyAction::ShowHistory => show_history_spec(m),
        KeyAction::HideHistory => hide_history_spec(m),
        KeyAction::ToggleHistory => if m.history == History::Shown {
            hide_history_spec(m)
        } else {
            show_history_spec(m)
        },
        KeyAction::Uninhibit => (
            MoxView { manager: ManagerView { inhibited: false, ..m.manager }, ..m },
            Seq::empty(),
        ),
        KeyAction::Ihibit => (
            MoxView { manager: ManagerView { inhibited: true, ..m.manager }, ..m },
            Seq::empty(),
        ),
        KeyAction::ToggleInhibit => (
            MoxView {
                manager: ManagerView { inhibited: !m.manager.inhibited, ..m.manager },
                ..m
            },
            Seq::empty(),
        ),
        KeyAction::Mute => if m.audio is Some {
            (MoxView { audio: Some(true), ..m }, seq![Action::MuteAudio])
        } else {
            (m, Seq::empty())
        },
        KeyAction::Unmute => if m.audio is Some {
            (MoxView { audio: Some(false), ..m }, seq![Action::UnmuteAudio])
        } else {
            (m, Seq::empty())
        },
        KeyAction::ToggleMute => match m.audio {
            Some(true) => (MoxView { audio: Some(false), ..m }, seq![Action::UnmuteAudio]),
            Some(false) => (MoxView { audio: Some(true), ..m }, seq![Action::MuteAudio]),
            None => (m, Seq::empty()),
        },
    }
}

/// Whether a key action may be taken: moving to the first notification needs a
/// notification or no selection, and moving to the last also distinct identifiers
/// (otherwise the daemon would loop for ever).
pub open spec fn key_action_ok(m: MoxView, action: KeyAction) -> bool {
    &&& action == KeyAction::FirstNotification ==> (m.manager.entries.len() > 0
        || m.manager.selected is None)
    &&& action == KeyAction::LastNotification ==> (m.manager.entries.len() > 0
        || m.manager.selected is None) && unique_ids(m.manager.entries)
}

/// What a hint that picks `button` of the selected notification does: dismiss it; for
/// an action, tell clients (with the surface's activation token) and dismiss it unless
/// it is resident (then return to normal mode); for a link, ask to open it, clear the
/// selection and return to normal mode. Links and actions need a surface.
pub open spec fn hint_spec(m: MoxView, button: Option<HintButton>, token: Option<String>) -> (MoxView, Seq<Action>) {
    let e = m.manager.entries;
    if m.manager.selected is Some && pos(e, m.manager.selected->0) < e.len() {
        let id = m.manager.selected->0;
        let n = e[pos(e, id)];
        match button {
            Some(HintButton::Dismiss) => dismiss_by_id_spec(m, id, Some(Reason::DismissedByUser)),
            Some(HintButton::Action { action }) => {
                let emit = if m.surface is Some {
                    seq![Action::Emit(EmitEvent::ActionInvoked { id, action_key: action, token })]
                } else {
                    Seq::empty()
                };
                if !n.data.hints.resident {
                    let (m1, a) = dismiss_by_id_spec(m, id, Some(Reason::DismissedByUser));
                    (m1, emit + a)
                } else {
                    (MoxView { mode: Mode::Normal, ..m }, emit)
                }
            },
            Some(HintButton::Anchor { href }) => if m.surface is Some {
                let (mv, ts) = deselect_spec(m.manager);
                (
                    MoxView { manager: mv, mode: Mode::Normal, ..m },
                    seq![Action::Emit(EmitEvent::Open { uri: href, token })] + timers(ts),
                )
            } else {
                (m, Seq::empty())
            },
            None => (m, Seq::empty()),
        }
    } else {
        (m, Seq::empty())
    }
}

/// The button whose hint is `label`, among the selected notification's buttons.
pub open spec fn button_for(buttons: Seq<(String, HintButton)>, label: Seq<char>) -> Option<HintButton>
    decreases buttons.len(),
{
    if buttons.len() == 0 {
        None
    } else if buttons[0].0@ == label {
        Some(buttons[0].1)
    } else {
        button_for(buttons.drop_first(), label)
    }
}

/// The keys typed so far after a new key: kept where some binding starts with them,
/// else only the newest key.
pub open spec fn trimmed_keys(km: Seq<SpecBinding>, pending: Seq<KeyWithModifiers>) -> Seq<KeyWithModifiers> {
    if matches_spec(km, pending) || pending.len() == 0 {
        pending
    } else {
        seq![pending.last()]
    }
}

/// What the typed keys do: the action of a binding of them in the current mode; else
/// nothing yet while a longer binding of the mode begins with them; else a hint among
/// the selected notification's buttons. Then a redraw.
pub open spec fn handle_key_spec(
    m: MoxView,
    km: Seq<SpecBinding>,
    pending: Seq<KeyWithModifiers>,
    buttons: Seq<(String, HintButton)>,
    token: Option<String>,
) -> (MoxView, Seq<Action>) {
    let keys = trimmed_keys(km, pending);
    let j = find_binding(km, m.mode, keys);
    let (m1, a) = if j >= 0 {
        key_action_spec(m, km[j].action)
    } else if awaits_more(km, m.mode, keys) {
        (m, Seq::empty())
    } else {
        hint_spec(m, button_for(buttons, keys_text(keys)), token)
    };
    (m1, a + seq![Action::Render])
}

/// The keys still typed after `handle_key`: kept while no binding of the current mode
/// fires and a longer one may still be completed; otherwise none.
pub open spec fn keys_after(m: MoxView, km: Seq<SpecBinding>, pending: Seq<KeyWithModifiers>) -> Seq<KeyWithModifiers> {
    let keys = trimmed_keys(km, pending);
    if find_binding(km, m.mode, keys) < 0 && awaits_more(km, m.mode, keys) {
        keys
    } else {
        Seq::empty()
    }
}

/// Whether the typed keys may be handled (see `key_action_ok`).
pub open spec fn handle_key_ok(m: MoxView, km: Seq<SpecBinding>, pending: Seq<KeyWithModifiers>) -> bool {
    let j = find_binding(km, m.mode, trimmed_keys(km, pending));
    j >= 0 ==> key_action_ok(m, km[j].action)
}

/// The buttons of a notification, in hint order: the dismiss button, then one per
/// action, then one per link of its body; a counter of hidden notifications has only
/// the dismiss button.
pub open spec fn buttons_spec(d: NotificationData, hrefs: Seq<String>) -> Seq<HintButton> {
    if d.app_name@ == "next_notification_count"@ || d.app_name@ == "prev_notification_count"@ {
        seq![HintButton::Dismiss]
    } else {
        seq![HintButton::Dismiss] + d.actions@.map_values(
            |a: (String, String)| HintButton::Action { action: a.0 },
        ) + hrefs.map_values(|h: String| HintButton::Anchor { href: h })
    }
}

/// A click on an action button of notification `id`: clients learn it (with the
/// surface's activation token) where there is a surface, and the notification is
/// dismissed (with no reason) unless it is resident.
pub open spec fn action_clicked_spec(m: MoxView, id: NotificationId, action_key: String, token: Option<String>) -> (MoxView, Seq<Action>) {
    let e = m.manager.entries;
    let emit = if m.surface is Some {
        seq![Action::Emit(EmitEvent::ActionInvoked { id, action_key, token })]
    } else {
        Seq::empty()
    };
    let resident = pos(e, id) < e.len() && e[pos(e, id)].data.hints.resident;
    if !resident {
        let (m1, a) = dismiss_by_id_spec(m, id, None);
        (m1, emit + a)
    } else {
        (m, emit)
    }
}

/// Appends the actions `b`.
fn push_all(acts: &mut Vec<Action>, b: Vec<Action>)
    ensures
        final(acts)@ == old(acts)@ + b@,
{
    let mut b = b;
    acts.append(&mut b);
}

/// The buttons of a notification whose body has links to `hrefs` (see `buttons_spec`).
pub fn notification_buttons(data: &NotificationData, hrefs: &Vec<String>) -> (b: Vec<HintButton>)
    ensures
        b@ == buttons_spec(*data, hrefs@),
{
    let mut b: Vec<HintButton> = vec![HintButton::Dismiss];
    if crate::text::str_eq(data.app_name.as_str(), "next_notification_count")
        || crate::text::str_eq(data.app_name.as_str(), "prev_notification_count") {
        assert(b@ =~= buttons_spec(*data, hrefs@));
        return b;
    }
    let ghost acts = data.actions@.map_values(|a: (String, String)| HintButton::Action { action: a.0 });
    let mut i: usize = 0;
    while i < data.actions.len()
        invariant
            i <= data.actions.len(),
            acts == data.actions@.map_values(|a: (String, String)| HintButton::Action { action: a.0 }),
            b@ == seq![HintButton::Dismiss] + acts.take(i as int),
        decreases data.actions.len() - i,
    {
        b.push(HintButton::Action { action: data.actions[i].0.clone() });
        assert(acts.take(i + 1) =~= acts.take(i as int).push(acts[i as int]));
        assert(b@ =~= seq![HintButton::Dismiss] + acts.take(i + 1));
        i = i + 1;
    }
    assert(acts.take(data.actions.len() as int) =~= acts);
    let ghost links = hrefs@.map_values(|h: String| HintButton::Anchor { href: h });
    let ghost head = b@;
    let mut j: usize = 0;
    while j < hrefs.len()
        invariant
            j <= hrefs.len(),
            links == hrefs@.map_values(|h: String| HintButton::Anchor { href: h }),
            b@ == head + links.take(j as int),
        decreases hrefs.len() - j,
    {
        b.push(HintButton::Anchor { href: hrefs[j].clone() });
        assert(links.take(j + 1) =~= links.take(j as int).push(links[j as int]));
        assert(b@ =~= head + links.take(j + 1));
        j = j + 1;
    }
    assert(links.take(hrefs.len() as int) =~= links);
    assert(b@ =~= buttons_spec(*data, hrefs@));
    b
}

/// The buttons with their hint labels over `hint_chars`, in order.
pub fn labelled_buttons(buttons: &Vec<HintButton>, hint_chars: &Vec<char>) -> (r: Vec<(String, HintButton)>)
    requires
        hint_chars.len() > 0,
    ensures
        r@.len() == buttons@.len(),
        forall|i: int|
            0 <= i < buttons@.len() ==> #[trigger] r@[i].0@ == crate::buttons::hint_label(
                i as nat,
                hint_chars@,
            ) && r@[i].1 == buttons@[i],
{
    let labels = crate::buttons::hint_combinations(buttons.len(), hint_chars);
    let mut r: Vec<(String, HintButton)> = Vec::new();
    let mut i: usize = 0;
    while i < buttons.len()
        invariant
            i <= buttons.len(),
            labels@.len() == buttons@.len(),
            forall|k: int| 0 <= k < buttons@.len() ==> #[trigger] labels@[k]@ == crate::buttons::hint_label(
                k as nat,
                hint_chars@,
            ),
            r@.len() == i,
            forall|k: int|
                0 <= k < i ==> #[trigger] r@[k].0@ == crate::buttons::hint_label(k as nat, hint_chars@)
                    && r@[k].1 == buttons@[k],
        decreases buttons.len() - i,
    {
        r.push((labels[i].clone(), copy_button(&buttons[i])));
        i = i + 1;
    }
    r
}

/// A copy of a hint button.
fn copy_button(b: &HintButton) -> (r: HintButton)
    ensures
        r == *b,
{
    match b {
        HintButton::Dismiss => HintButton::Dismiss,
        HintButton::Action { action } => HintButton::Action { action: action.clone() },
        HintButton::Anchor { href } => HintButton::Anchor { href: href.clone() },
    }
}

/// The button whose hint is `label` (see `button_for`).
fn button_of(buttons: &Vec<(String, HintButton)>, label: &str) -> (r: Option<HintButton>)
    ensures
        r == button_for(buttons@, label@),
{
    let mut i: usize = 0;
    assert(buttons@.skip(0) =~= buttons@);
    while i < buttons.len()
        invariant
            i <= buttons.len(),
            button_for(buttons@, label@) == button_for(buttons@.skip(i as int), label@),
        decreases buttons.len() - i,
    {
        assert(buttons@.skip(i as int).drop_first() =~= buttons@.skip(i + 1));
        if crate::text::str_eq(buttons[i].0.as_str(), label) {
            return Some(copy_button(&buttons[i].1));
        }
        i = i + 1;
    }
    None
}

/// Appends timer changes as actions.
fn push_timers(acts: &mut Vec<Action>, ts: Vec<TimerAction>)
    ensures
        final(acts)@ == old(acts)@ + timers(ts@),
{
    let ghost start = acts@;
    let mut i: usize = 0;
    while i < ts.len()
        invariant
            i <= ts.len(),
            acts@ == start + timers(ts@.take(i as int)),
        decreases ts.len() - i,
    {
        acts.push(Action::Timer(ts[i]));
        assert(timers(ts@.take(i + 1)) =~= timers(ts@.take(i as int)).push(Action::Timer(ts@[i as int])));
        i = i + 1;
    }
    assert(ts@.take(ts.len() as int) =~= ts@);
}

/// Appends a redraw, and where nothing is left on screen, the end of key repeat.
fn push_redraw(acts: &mut Vec<Action>, m: &NotificationManager)
    ensures
        final(acts)@ == old(acts)@ + redraw(m@),
{
    acts.push(Action::Render);
    if m.notifications().len() == 0 {
        acts.push(Action::StopKeyRepeat);
    }
    assert(acts@ =~= old(acts)@ + redraw(m@));
}

impl Moxnotify {
    /// The daemon at start: no notifications, history hidden, normal key mode, no surface
    /// yet; `audio` says whether there is an audio device (then unmuted).
    pub fn new(notifications: NotificationManager, audio: bool, sounds: Sounds, history_size: u32) -> (m: Moxnotify)
        ensures
            m@.manager == notifications@,
            m@.history == History::Hidden,
            m@.audio == (if audio {
                Some(false)
            } else {
                None::<bool>
            }),
            m@.mode == Mode::Normal,
            m@.surface is None,
            m@.last_selected is None,
            m@.sounds == sounds,
            m@.history_size == history_size,
    {
        Moxnotify {
            notifications,
            history: History::Hidden,
            audio: if audio {
                Some(false)
            } else {
                None
            },
            mode: Mode::Normal,
            surface: None,
            last_selected: None,
            sounds,
            history_size,
        }
    }

    /// The notifications on screen.
    pub fn notifications(&self) -> (n: &NotificationManager)
        ensures
            n@ == self@.manager,
    {
        &self.notifications
    }

    /// Whether past notifications are shown.
    pub fn history(&self) -> (h: History)
        ensures
            h == self@.history,
    {
        self.history
    }

    /// The key mode.
    pub fn mode(&self) -> (md: Mode)
        ensures
            md == self@.mode,
    {
        self.mode
    }

    /// Records that a surface now exists (unfocused) or is gone.
    pub fn set_surface(&mut self, present: bool)
        ensures
            final(self)@ == (MoxView {
                surface: if present {
                    Some(false)
                } else {
                    None::<bool>
                },
                ..old(self)@
            }),
    {
        self.surface = if present {
            Some(false)
        } else {
            None
        };
    }

    /// Tells clients that the notifications at `start..end` close (where there is a
    /// reason) and takes them away (see `dismiss_range_spec`).
    #[verifier::spinoff_prover]
    #[verifier::rlimit(40)]
    pub fn dismiss_range(&mut self, start: usize, end: usize, reason: Option<Reason>) -> (acts: Vec<Action>)
        requires
            start <= end <= old(self)@.manager.entries.len(),
        ensures
            final(self)@ == dismiss_range_spec(old(self)@, start as int, end as int, reason).0,
            acts@ == dismiss_range_spec(old(self)@, start as int, end as int, reason).1,
    {
        let ghost m = self@;
        let ghost sub = self@.manager.entries.subrange(start as int, end as int);
        let mut ids: Vec<NotificationId> = Vec::new();
        let mut i: usize = start;
        while i < end
            invariant
                self@ == m,
                start <= i <= end <= m.manager.entries.len(),
                sub == m.manager.entries.subrange(start as int, end as int),
                ids@ == ids_of(sub.take(i - start)),
            decreases end - i,
        {
            ids.push(self.notifications.notifications()[i].data.id);
            assert(sub.take(i + 1 - start) =~= sub.take(i - start).push(sub[i - start]));
            assert(ids_of(sub.take(i + 1 - start)) =~= ids_of(sub.take(i - start)).push(
                sub[i - start].data.id,
            ));
            i = i + 1;
        }
        assert(sub.take(end - start) =~= sub);
        let mut acts: Vec<Action> = Vec::new();
        match reason {
            Some(r) => {
                let mut k: usize = 0;
                while k < ids.len()
                    invariant
                        k <= ids.len(),
                        acts@ == closed_events(ids@.take(k as int), Some(r)),
                    decreases ids.len() - k,
                {
                    acts.push(Action::Emit(EmitEvent::NotificationClosed { id: ids[k], reason: r }));
                    assert(closed_events(ids@.take(k + 1), Some(r)) =~= closed_events(
                        ids@.take(k as int),
                        Some(r),
                    ).push(Action::Emit(EmitEvent::NotificationClosed { id: ids@[k as int], reason: r })));
                    k = k + 1;
                }
                assert(ids@.take(ids.len() as int) =~= ids@);
            },
            None => {
                assert(acts@ =~= closed_events(ids@, None));
            },
        }
        if end - start == self.notifications.notifications().len() {
            self.notifications.clear();
            return acts;
        }
        let ghost events = acts@;
        let mut k: usize = 0;
        while k < ids.len()
            invariant
                k <= ids.len(),
                self@ == (MoxView { manager: dismiss_each(m.manager, ids@.take(k as int)).0, ..m }),
                acts@ == events + timers(dismiss_each(m.manager, ids@.take(k as int)).1),
            decreases ids.len() - k,
        {
            let ghost before = dismiss_each(m.manager, ids@.take(k as int));
            let ts = self.notifications.dismiss(ids[k]);
            proof {
                assert(ids@.take(k + 1).drop_last() =~= ids@.take(k as int));
                let after = dismiss_each(m.manager, ids@.take(k + 1));
                assert(timers(after.1) =~= timers(before.1) + timers(ts@));
            }
            push_timers(&mut acts, ts);
            k = k + 1;
        }
        assert(ids@.take(ids.len() as int) =~= ids@);
        acts
    }

    /// Shows a notification (see `notify_spec`).
    fn notify(&mut self, d: NotificationData, o: Outside) -> (acts: Vec<Action>)
        requires
            old(self)@.manager.inhibited ==> old(self)@.manager.waiting < u32::MAX,
        ensures
            final(self)@ == notify_spec(old(self)@, d, o).0,
            acts@ == notify_spec(old(self)@, d, o).1,
    {
        let ghost m = self@;
        let path = sound_path(&d.hints, o.sound_lookup, &self.sounds);
        let suppress = d.hints.suppress_sound;
        let id: NotificationId = match self.history {
            History::Shown => id_of_row(o.last_rowid),
            History::Hidden => d.id,
        };
        let data = NotificationData { id, ..d };
        let ts = self.notifications.add(data);
        let mut acts: Vec<Action> = Vec::new();
        push_timers(&mut acts, ts);
        let unmuted = match self.audio {
            Some(muted) => !muted,
            None => false,
        };
        if !self.notifications.inhibited() && !suppress && unmuted {
            match path {
                Some(p) => {
                    acts.push(Action::PlaySound(p));
                },
                None => {},
            }
        }
        if self.notifications.notifications().len() > 0 {
            acts.push(Action::StoreLast);
        }
        proof {
            assert(acts@ =~= notify_spec(m, d, o).1);
        }
        acts
    }

    /// See `focus_spec`.
    fn focus(&mut self) -> (acts: Vec<Action>)
        ensures
            final(self)@ == focus_spec(old(self)@).0,
            acts@ == focus_spec(old(self)@).1,
    {
        let ghost m = self@;
        let mut acts: Vec<Action> = Vec::new();
        if self.surface == Some(false) {
            acts.push(Action::FocusSurface);
            self.surface = Some(true);
            let restore = match self.last_selected {
                Some(l) => self.notifications.position(l) < self.notifications.notifications().len(),
                None => false,
            };
            if restore {
                match self.last_selected {
                    Some(l) => {
                        self.notifications.set_selected(l);
                    },
                    None => {},
                }
            } else {
                let ts = self.notifications.next();
                push_timers(&mut acts, ts);
            }
        }
        proof {
            assert(acts@ =~= focus_spec(m).1);
        }
        acts
    }

    /// See `show_history_spec`.
    fn show_history(&mut self) -> (acts: Vec<Action>)
        ensures
            final(self)@ == show_history_spec(old(self)@).0,
            acts@ == show_history_spec(old(self)@).1,
    {
        let ghost m = self@;
        let mut acts: Vec<Action> = Vec::new();
        if self.history == History::Hidden {
            acts.push(Action::TrimHistory { keep: self.history_size, spare: 0 });
            self.history = History::Shown;
            acts.push(Action::Emit(EmitEvent::HistoryStateChanged(History::Shown)));
            let len = self.notifications.notifications().len();
            let more = self.dismiss_range(0, len, Some(Reason::Expired));
            push_all(&mut acts, more);
            acts.push(Action::LoadHistory);
        }
        proof {
            assert(acts@ =~= show_history_spec(m).1);
        }
        acts
    }

    /// See `hide_history_spec`.
    fn hide_history(&mut self) -> (acts: Vec<Action>)
        ensures
            final(self)@ == hide_history_spec(old(self)@).0,
            acts@ == hide_history_spec(old(self)@).1,
    {
        let ghost m = self@;
        let mut acts: Vec<Action> = Vec::new();
        if self.history == History::Shown {
            acts.push(Action::TrimHistory { keep: self.history_size, spare: 1 });
            self.history = History::Hidden;
            acts.push(Action::Emit(EmitEvent::HistoryStateChanged(History::Hidden)));
            let len = self.notifications.notifications().len();
            let more = self.dismiss_range(0, len, None);
            push_all(&mut acts, more);
        }
        proof {
            assert(acts@ =~= hide_history_spec(m).1);
        }
        acts
    }

    /// See `dismiss_event_spec`.
    fn dismiss_event(&mut self, all: bool, id: NotificationId) -> (acts: Vec<Action>)
        ensures
            final(self)@ == dismiss_event_spec(old(self)@, all, id).0,
            acts@ == dismiss_event_spec(old(self)@, all, id).1,
    {
        if all {
            let len = self.notifications.notifications().len();
            self.dismiss_range(0, len, Some(Reason::DismissedByUser))
        } else if id == 0 {
            if self.notifications.notifications().len() > 0 {
                let first = self.notifications.notifications()[0].data.id;
                self.dismiss_by_id(first, Some(Reason::DismissedByUser))
            } else {
                Vec::new()
            }
        } else {
            self.dismiss_by_id(id, Some(Reason::DismissedByUser))
        }
    }

    /// Handles a request (see `app_event_spec`); `o` holds the answers from outside that
    /// a `Notify` request needs.
    #[verifier::spinoff_prover]
    #[verifier::rlimit(40)]
    pub fn handle_app_event(&mut self, event: Event, o: Outside) -> (acts: Vec<Action>)
        requires
            event is Notify ==> (old(self)@.manager.inhibited ==> old(self)@.manager.waiting
                < u32::MAX),
        ensures
            final(self)@ == app_event_spec(old(self)@, event, o).0,
            acts@ == app_event_spec(old(self)@, event, o).1,
    {
        let ghost m = self@;
        let mut acts: Vec<Action> = Vec::new();
        match event {
            Event::Waiting => {
                acts.push(Action::Emit(EmitEvent::Waiting(self.notifications.waiting())));
                return acts;
            },
            Event::Dismiss { all, id } => {
                acts = self.dismiss_event(all, id);
            },
            Event::Notify(d) => {
                acts = self.notify(*d, o);
            },
            Event::CloseNotification(id) => {
                acts = self.dismiss_by_id(id, Some(Reason::CloseNotificationCall));
            },
            Event::List => {
                acts.push(Action::ListNotifications);
                return acts;
            },
            Event::FocusSurface => {
                acts = self.focus();
            },
            Event::Mute => {
                if self.audio == Some(false) {
                    acts.push(Action::Emit(EmitEvent::MuteStateChanged(true)));
                    acts.push(Action::MuteAudio);
                    self.audio = Some(true);
                }
                return acts;
            },
            Event::Unmute => {
                if self.audio == Some(true) {
                    acts.push(Action::UnmuteAudio);
                    self.audio = Some(false);
                    acts.push(Action::Emit(EmitEvent::MuteStateChanged(false)));
                }
                return acts;
            },
            Event::GetMuted => {
                let muted = match self.audio {
                    Some(b) => b,
                    None => true,
                };
                acts.push(Action::Emit(EmitEvent::Muted(muted)));
                return acts;
            },
            Event::ShowHistory => {
                acts = self.show_history();
            },
            Event::HideHistory => {
                acts = self.hide_history();
            },
            Event::GetHistory => {
                acts.push(Action::Emit(EmitEvent::HistoryState(self.history)));
                return acts;
            },
            Event::Inhibit => {
                if !self.notifications.inhibited() {
                    self.notifications.inhibit();
                    acts.push(Action::Emit(EmitEvent::InhibitStateChanged(true)));
                }
            },
            Event::Uninhibit => {
                if self.notifications.inhibited() {
                    let count = self.notifications.waiting();
                    self.notifications.uninhibit();
                    acts.push(Action::Emit(EmitEvent::InhibitStateChanged(false)));
                    acts.push(Action::ReplayWaiting(count));
                }
            },
            Event::GetInhibited => {
                acts.push(Action::Emit(EmitEvent::Inhibited(self.notifications.inhibited())));
                return acts;
            },
        }
        acts.push(Action::Render);
        acts
    }

    /// Shows the stored notifications (the answer to `Action::LoadHistory`).
    pub fn load_history(&mut self, rows: Vec<NotificationData>)
        ensures
            final(self)@ == (MoxView {
                manager: crate::manager::add_many_spec(old(self)@.manager, rows@),
                ..old(self)@
            }),
    {
        self.notifications.add_many(rows);
    }

    /// Shows a notification that waited while inhibited (an answer to
    /// `Action::ReplayWaiting`).
    pub fn replay(&mut self, data: NotificationData) -> (acts: Vec<Action>)
        requires
            old(self)@.manager.inhibited ==> old(self)@.manager.waiting < u32::MAX,
        ensures
            final(self)@ == (MoxView { manager: add_spec(old(self)@.manager, data).0, ..old(self)@ }),
            acts@ == timers(add_spec(old(self)@.manager, data).1),
    {
        let ts = self.notifications.add(data);
        let mut acts: Vec<Action> = Vec::new();
        push_timers(&mut acts, ts);
        acts
    }

    /// Takes the action of a bound key (see `key_action_spec`).
    pub fn key_action(&mut self, action: KeyAction) -> (acts: Vec<Action>)
        requires
            key_action_ok(old(self)@, action),
        ensures
            final(self)@ == key_action_spec(old(self)@, action).0,
            acts@ == key_action_spec(old(self)@, action).1,
    {
        let ghost m = self@;
        let mut acts: Vec<Action> = Vec::new();
        match action {
            KeyAction::Noop => {},
            KeyAction::NextNotification => {
                let ts = self.notifications.next();
                push_timers(&mut acts, ts);
            },
            KeyAction::PreviousNotification => {
                let ts = self.notifications.prev();
                push_timers(&mut acts, ts);
            },
            KeyAction::FirstNotification => {
                let ts = self.notifications.select_first();
                push_timers(&mut acts, ts);
            },
            KeyAction::LastNotification => {
                let ts = self.notifications.select_last();
                push_timers(&mut acts, ts);
            },
            KeyAction::DismissNotification => {
                match self.notifications.selected_id() {
                    Some(id) => {
                        acts = self.dismiss_by_id(id, Some(Reason::DismissedByUser));
                    },
                    None => {},
                }
            },
            KeyAction::Unfocus => {
                if self.surface.is_some() {
                    acts.push(Action::UnfocusSurface);
                    let ts = self.notifications.deselect();
                    push_timers(&mut acts, ts);
                    acts.push(Action::StopKeyRepeat);
                    self.surface = Some(false);
                }
            },
            KeyAction::HintMode => {
                self.mode = Mode::Hint;
            },
            KeyAction::NormalMode => {
                self.mode = Mode::Normal;
            },
            KeyAction::ShowHistory => {
                acts = self.show_history();
            },
            KeyAction::HideHistory => {
                acts = self.hide_history();
            },
            KeyAction::ToggleHistory => {
                if self.history == History::Shown {
                    acts = self.hide_history();
                } else {
                    acts = self.show_history();
                }
            },
            KeyAction::Uninhibit => {
                self.notifications.set_inhibited(false);
            },
            KeyAction::Ihibit => {
                self.notifications.set_inhibited(true);
            },
            KeyAction::ToggleInhibit => {
                let b = self.notifications.inhibited();
                self.notifications.set_inhibited(!b);
            },
            KeyAction::Mute => {
                if self.audio.is_some() {
                    self.audio = Some(true);
                    acts.push(Action::MuteAudio);
                }
            },
            KeyAction::Unmute => {
                if self.audio.is_some() {
                    self.audio = Some(false);
                    acts.push(Action::UnmuteAudio);
                }
            },
            KeyAction::ToggleMute => {
                match self.audio {
                    Some(true) => {
                        self.audio = Some(false);
                        acts.push(Action::UnmuteAudio);
                    },
                    Some(false) => {
                        self.audio = Some(true);
                        acts.push(Action::MuteAudio);
                    },
                    None => {},
                }
            },
        }
        proof {
            assert(acts@ =~= key_action_spec(m, action).1);
        }
        acts
    }

    /// Acts on a hint that picks `button` of the selected notification (see `hint_spec`);
    /// `token` is the surface's activation token.
    pub fn hint_pressed(&mut self, button: Option<HintButton>, token: Option<String>) -> (acts: Vec<Action>)
        ensures
            final(self)@ == hint_spec(old(self)@, button, token).0,
            acts@ == hint_spec(old(self)@, button, token).1,
    {
        let ghost m = self@;
        let mut acts: Vec<Action> = Vec::new();
        let (id, resident) = match self.notifications.selected_notification() {
            Some(n) => (n.data.id, n.data.hints.resident),
            None => {
                return acts;
            },
        };
        proof {
            crate::manager::lemma_pos_range(m.manager.entries, 0, m.manager.selected->0);
        }
        match button {
            Some(HintButton::Dismiss) => {
                acts = self.dismiss_by_id(id, Some(Reason::DismissedByUser));
            },
            Some(HintButton::Action { action }) => {
                if self.surface.is_some() {
                    acts.push(Action::Emit(EmitEvent::ActionInvoked { id, action_key: action, token }));
                }
                if !resident {
                    let more = self.dismiss_by_id(id, Some(Reason::DismissedByUser));
                    push_all(&mut acts, more);
                } else {
                    self.mode = Mode::Normal;
                }
            },
            Some(HintButton::Anchor { href }) => {
                if self.surface.is_some() {
                    acts.push(Action::Emit(EmitEvent::Open { uri: href, token }));
                    let ts = self.notifications.deselect();
                    push_timers(&mut acts, ts);
                    self.mode = Mode::Normal;
                }
            },
            None => {},
        }
        proof {
            assert(acts@ =~= hint_spec(m, button, token).1);
        }
        acts
    }

    /// Whether the typed keys may be handled (see `handle_key_ok`).
    pub fn key_allowed(&self, keymaps: &Keymaps, pending: &Keys) -> (b: bool)
        ensures
            b == handle_key_ok(self@, keymaps@, pending@),
    {
        let mut keys = Keys(pending.0.clone());
        proof {
            assert(keys@ =~= pending@);
        }
        keymaps.trim_pending(&mut keys);
        match keymaps.find(&keys, self.mode) {
            Some(binding) => match binding.action {
                KeyAction::FirstNotification => self.notifications.notifications().len() > 0
                    || self.notifications.selected_id().is_none(),
                KeyAction::LastNotification => (self.notifications.notifications().len() > 0
                    || self.notifications.selected_id().is_none())
                    && self.notifications.ids_distinct(),
                _ => true,
            },
            None => true,
        }
    }

    /// Handles the keys typed so far (see `handle_key_spec`): `buttons` are the hint
    /// labels and buttons of the selected notification, `token` the surface's activation
    /// token. The typed keys are consumed.
    pub fn handle_key(
        &mut self,
        keymaps: &Keymaps,
        pending: &mut Keys,
        buttons: &Vec<(String, HintButton)>,
        token: Option<String>,
    ) -> (acts: Vec<Action>)
        requires
            handle_key_ok(old(self)@, keymaps@, old(pending)@),
        ensures
            final(self)@ == handle_key_spec(old(self)@, keymaps@, old(pending)@, buttons@, token).0,
            acts@ == handle_key_spec(old(self)@, keymaps@, old(pending)@, buttons@, token).1,
            final(pending)@ == keys_after(old(self)@, keymaps@, old(pending)@),
    {
        let ghost m = self@;
        keymaps.trim_pending(pending);
        let mut keep = false;
        let mut acts = match keymaps.find(pending, self.mode) {
            Some(binding) => self.key_action(binding.action),
            None => {
                if keymaps.awaits_more(pending, self.mode) {
                    keep = true;
                    Vec::new()
                } else {
                    let label = pending.to_string();
                    let button = button_of(buttons, label.as_str());
                    self.hint_pressed(button, token)
                }
            },
        };
        acts.push(Action::Render);
        if !keep {
            pending.0.clear();
        }
        proof {
            assert(acts@ =~= handle_key_spec(m, keymaps@, old(pending)@, buttons@, token).1);
            assert(pending@ =~= keys_after(m, keymaps@, old(pending)@));
        }
        acts
    }

    /// A click on an action button (see `action_clicked_spec`).
    pub fn action_clicked(&mut self, id: NotificationId, action_key: String, token: Option<String>) -> (acts: Vec<Action>)
        ensures
            final(self)@ == action_clicked_spec(old(self)@, id, action_key, token).0,
            acts@ == action_clicked_spec(old(self)@, id, action_key, token).1,
    {
        let ghost m = self@;
        let mut acts: Vec<Action> = Vec::new();
        if self.surface.is_some() {
            acts.push(Action::Emit(EmitEvent::ActionInvoked { id, action_key, token }));
        }
        let i = self.notifications.position(id);
        let resident = i < self.notifications.notifications().len()
            && self.notifications.notifications()[i].data.hints.resident;
        if !resident {
            let more = self.dismiss_by_id(id, None);
            push_all(&mut acts, more);
        }
        proof {
            assert(acts@ =~= action_clicked_spec(m, id, action_key, token).1);
        }
        acts
    }

    /// Dismisses the notification `id` for `reason` (see `dismiss_by_id_spec`).
    pub fn dismiss_by_id(&mut self, id: NotificationId, reason: Option<Reason>) -> (acts: Vec<Action>)
        ensures
            final(self)@ == dismiss_by_id_spec(old(self)@, id, reason).0,
            acts@ == dismiss_by_id_spec(old(self)@, id, reason).1,
    {
        let mut acts: Vec<Action> = Vec::new();
        match self.history {
            History::Shown => {
                acts.push(Action::DeleteFromHistory(id));
                let ts = self.notifications.dismiss(id);
                push_timers(&mut acts, ts);
            },
            History::Hidden => {
                let index = self.notifications.position(id);
                if index < self.notifications.notifications().len() {
                    if self.notifications.selected_id() == Some(id) {
                        self.mode = Mode::Normal;
                    }
                    let ts = self.notifications.dismiss(id);
                    push_timers(&mut acts, ts);
                    match reason {
                        Some(r) => {
                            acts.push(Action::Emit(EmitEvent::NotificationClosed { id, reason: r }));
                        },
                        None => {},
                    }
                    let len = self.notifications.notifications().len();
                    let ni = if index >= len {
                        if len > 0 {
                            len - 1
                        } else {
                            0
                        }
                    } else {
                        index
                    };
                    if self.notifications.selected_id() == Some(id) && ni < len {
                        let next_id = self.notifications.notifications()[ni].data.id;
                        let ts2 = self.notifications.select(next_id);
                        push_timers(&mut acts, ts2);
                    }
                }
            },
        }
        push_redraw(&mut acts, &self.notifications);
        proof {
            let sp = dismiss_by_id_spec(old(self)@, id, reason);
            assert(acts@ =~= sp.1);
        }
        acts
    }
}


// ----- laws -----------------------------------------------------------------------------
/// Muting is what a later query of the mute state reports, and so is unmuting (where
/// there is an audio device).
pub proof fn law_mute_state_reported(m: MoxView, o1: Outside, o2: Outside)
    requires
        m.audio is Some,
    ensures
        ({
            let muted = app_event_spec(m, Event::Mute, o1).0;
            app_event_spec(muted, Event::GetMuted, o2).1 == seq![Action::Emit(EmitEvent::Muted(true))]
        }),
        ({
            let unmuted = app_event_spec(m, Event::Unmute, o1).0;
            app_event_spec(unmuted, Event::GetMuted, o2).1 == seq![
                Action::Emit(EmitEvent::Muted(false)),
            ]
        }),
{
}

/// With the built-in bindings in normal mode, pressing `g` does nothing yet but redraw
/// and keeps the key; pressing `g` again selects the first notification (the `gg`
/// binding) and clears the keys.
pub proof fn law_gg_selects_first(
    m: MoxView,
    buttons: Seq<(String, HintButton)>,
    token: Option<String>,
)
    requires
        m.mode == Mode::Normal,
        m.manager.entries.len() > 0 || m.manager.selected is None,
    ensures
        handle_key_ok(m, default_bindings(), one_key('g')),
        handle_key_spec(m, default_bindings(), one_key('g'), buttons, token) == (m, seq![Action::Render]),
        keys_after(m, default_bindings(), one_key('g')) == one_key('g'),
        handle_key_ok(m, default_bindings(), one_key('g') + one_key('g')),
        handle_key_spec(m, default_bindings(), one_key('g') + one_key('g'), buttons, token).0
            == key_action_spec(m, KeyAction::FirstNotification).0,
        handle_key_spec(m, default_bindings(), one_key('g') + one_key('g'), buttons, token).0.manager.selected
            == first_id(m.manager),
        keys_after(m, default_bindings(), one_key('g') + one_key('g')).len() == 0,
{
    let km = default_bindings();
    let g = one_key('g');
    let gg = one_key('g') + one_key('g');
    assert(km[5].keys == gg);
    assert(km[5].mode == Mode::Normal);
    assert(is_prefix(g, km[5].keys)) by {
        assert(gg.take(1) =~= g);
    }
    assert(matches_spec(km, g));
    assert(trimmed_keys(km, g) == g);
    assert(km.len() == 12);
    assert forall|i: int| 0 <= i < km.len() implies !(#[trigger] km[i].mode == Mode::Normal && km[i].keys
        == g) by {
            if i == 0 {
                assert(km[i].keys.len() != 1 || km[i].keys[0] != g[0] || km[i].mode != Mode::Normal);
            } else if i == 1 {
                assert(km[i].keys.len() != 1 || km[i].keys[0] != g[0] || km[i].mode != Mode::Normal);
            } else if i == 2 {
                assert(km[i].keys.len() != 1 || km[i].keys[0] != g[0] || km[i].mode != Mode::Normal);
            } else if i == 3 {
                assert(km[i].keys.len() != 1 || km[i].keys[0] != g[0] || km[i].mode != Mode::Normal);
            } else if i == 4 {
                assert(km[i].keys.len() != 1 || km[i].keys[0] != g[0] || km[i].mode != Mode::Normal);
            } else if i == 5 {
                assert(km[i].keys.len() != 1 || km[i].keys[0] != g[0] || km[i].mode != Mode::Normal);
            } else if i == 6 {
                assert(km[i].keys.len() != 1 || km[i].keys[0] != g[0] || km[i].mode != Mode::Normal);
            } else if i == 7 {
                assert(km[i].keys.len() != 1 || km[i].keys[0] != g[0] || km[i].mode != Mode::Normal);
            } else if i == 8 {
                assert(km[i].keys.len() != 1 || km[i].keys[0] != g[0] || km[i].mode != Mode::Normal);
            } else if i == 9 {
                assert(km[i].keys.len() != 1 || km[i].keys[0] != g[0] || km[i].mode != Mode::Normal);
            } else if i == 10 {
                assert(km[i].keys.len() != 1 || km[i].keys[0] != g[0] || km[i].mode != Mode::Normal);
            } else if i == 11 {
                assert(km[i].keys.len() != 1 || km[i].keys[0] != g[0] || km[i].mode != Mode::Normal);
            }
    }
    crate::keymaps::lemma_find_from_at(km, Mode::Normal, g, 0, km.len() as int);
    assert(awaits_more(km, Mode::Normal, g));
    assert(is_prefix(gg, km[5].keys)) by {
        assert(gg.take(2) =~= gg);
    }
    assert(matches_spec(km, gg));
    assert(trimmed_keys(km, gg) == gg);
    assert forall|i: int| 0 <= i < 5 implies !(#[trigger] km[i].mode == Mode::Normal && km[i].keys == gg)
        by {
            if i == 0 {
                assert(km[i].keys.len() != 2 || km[i].keys[0] != gg[0]);
            } else if i == 1 {
                assert(km[i].keys.len() != 2 || km[i].keys[0] != gg[0]);
            } else if i == 2 {
                assert(km[i].keys.len() != 2 || km[i].keys[0] != gg[0]);
            } else if i == 3 {
                assert(km[i].keys.len() != 2 || km[i].keys[0] != gg[0]);
            } else if i == 4 {
                assert(km[i].keys.len() != 2 || km[i].keys[0] != gg[0]);
            }
    }
    crate::keymaps::lemma_find_from_at(km, Mode::Normal, gg, 0, 5);
    assert(km[5].action == KeyAction::FirstNotification);
    assert(seq![Action::Render] =~= Seq::<Action>::empty() + seq![Action::Render]);
    if let Some(id) = m.manager.selected {
        crate::manager::lemma_pos_range(m.manager.entries, 0, id);
    }
    crate::manager::lemma_rewind_first(m.manager, (m.manager.entries.len() + 1) as nat);
}

/// `Inhibit` leaves notifications inhibited, and tells clients so only when they were
/// not inhibited before; what is shown and waiting stays as it was, so a second
/// `Inhibit` changes and tells nothing.
pub proof fn law_inhibit(m: MoxView, o: Outside)
    ensures
        ({
            let (m1, a) = app_event_spec(m, Event::Inhibit, o);
            &&& m1.manager.inhibited
            &&& m1.manager.entries == m.manager.entries
            &&& m1.manager.waiting == m.manager.waiting
            &&& m1.manager.selected == m.manager.selected
            &&& a == (if m.manager.inhibited {
                Seq::empty()
            } else {
                seq![Action::Emit(EmitEvent::InhibitStateChanged(true))]
            }) + render()
        }),
        ({
            let m1 = app_event_spec(m, Event::Inhibit, o).0;
            app_event_spec(m1, Event::Inhibit, o) == (m1, render())
        }),
{
    if m.manager.inhibited {
        assert(Seq::<Action>::empty() + render() =~= render());
    }
}

/// Showing the history is what a later query reports, and hiding it too; showing it
/// twice does nothing more than once.
#[verifier::spinoff_prover]
#[verifier::rlimit(60)]
pub proof fn law_history_state_reported(m: MoxView, o1: Outside, o2: Outside, o3: Outside)
    ensures
        ({
            let shown = app_event_spec(m, Event::ShowHistory, o1).0;
            &&& app_event_spec(shown, Event::GetHistory, o2).1 == seq![
                Action::Emit(EmitEvent::HistoryState(History::Shown)),
            ]
            &&& app_event_spec(shown, Event::ShowHistory, o3) == (shown, seq![Action::Render])
        }),
        ({
            let hidden = app_event_spec(m, Event::HideHistory, o1).0;
            app_event_spec(hidden, Event::GetHistory, o2).1 == seq![
                Action::Emit(EmitEvent::HistoryState(History::Hidden)),
            ]
        }),
{
    let shown = app_event_spec(m, Event::ShowHistory, o1).0;
    assert(Seq::<Action>::empty() + seq![Action::Render] =~= seq![Action::Render]);
}

/// While inhibited, notifications are only counted; lifting the inhibition asks for
/// exactly that many to be shown again and clears the count.
#[verifier::spinoff_prover]
#[verifier::rlimit(60)]
pub proof fn law_inhibited_notifications_replayed(m: MoxView, d: NotificationData, o: Outside, o2: Outside)
    requires
        m.manager.inhibited,
        m.manager.waiting < u32::MAX,
    ensures
        ({
            let m1 = app_event_spec(m, Event::Notify(Box::new(d)), o).0;
            let (m2, acts) = app_event_spec(m1, Event::Uninhibit, o2);
            &&& m1.manager.entries == m.manager.entries
            &&& m1.manager.waiting == m.manager.waiting + 1
            &&& acts.contains(Action::ReplayWaiting((m.manager.waiting + 1) as u32))
            &&& m2.manager.waiting == 0
            &&& !m2.manager.inhibited
        }),
{
    let m1 = app_event_spec(m, Event::Notify(Box::new(d)), o).0;
    let acts = app_event_spec(m1, Event::Uninhibit, o2).1;
    assert(acts[1] == Action::ReplayWaiting((m.manager.waiting + 1) as u32));
}

/// With distinct identifiers and the history hidden, a `CloseNotification` call for a
/// notification on screen takes it away and tells clients so, with reason 3.
pub proof fn law_close_notification(m: MoxView, id: NotificationId, o: Outside)
    requires
        m.history == History::Hidden,
        unique_ids(m.manager.entries),
        pos(m.manager.entries, id) < m.manager.entries.len(),
    ensures
        ({
            let (m1, acts) = app_event_spec(m, Event::CloseNotification(id), o);
            &&& pos(m1.manager.entries, id) == m1.manager.entries.len()
            &&& m1.manager.entries.len() + 1 == m.manager.entries.len()
            &&& acts.contains(
                Action::Emit(EmitEvent::NotificationClosed { id, reason: Reason::CloseNotificationCall }),
            )
        }),
{
    let e = m.manager.entries;
    crate::manager::law_dismiss_removes(m.manager, id);
    let (mv, ts) = dismiss_spec(m.manager, id);
    crate::manager::lemma_pos_range(e, 0, id);
    e.remove_ensures(pos(e, id));
    let index = pos(e, id);
    let len = mv.entries.len();
    let ni = if index >= len {
        if len > 0 {
            len - 1
        } else {
            0
        }
    } else {
        index
    };
    if mv.selected == Some(id) && ni < len {
        crate::manager::law_select_pauses(mv, mv.entries[ni].data.id);
        let w = select_spec(mv, mv.entries[ni].data.id).0;
        crate::manager::lemma_pos_same_items(mv.entries, w.entries, id, 0);
    }
    let (m1, acts) = app_event_spec(m, Event::CloseNotification(id), o);
    let k = timers(ts).len() as int;
    let ev = Action::Emit(EmitEvent::NotificationClosed { id, reason: Reason::CloseNotificationCall });
    assert(acts[k] == ev);
}

/// With the history hidden and nothing inhibited, a notification that arrives is shown
/// under its own identifier.
pub proof fn law_notify_shows(m: MoxView, d: NotificationData, o: Outside)
    requires
        m.history == History::Hidden,
        !m.manager.inhibited,
    ensures
        ({
            let m1 = app_event_spec(m, Event::Notify(Box::new(d)), o).0;
            pos(m1.manager.entries, d.id) < m1.manager.entries.len()
        }),
{
    let data = NotificationData { id: d.id, ..d };
    assert(data == d);
    crate::manager::law_add_shows(m.manager, d);
}

} // verus!
