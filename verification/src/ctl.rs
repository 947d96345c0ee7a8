//! The control client: which request a command line names, which calls to the daemon
//! it takes (a toggle asks for the state first), and what it prints.
use crate::text::{dec, dec_chars, string_of};
use vstd::prelude::*;

verus! {

/// A request of the control client.
#[derive(PartialEq, Eq, Structural, Debug, Clone, Copy)]
pub enum Event {
    Count,
    Focus,
    List,
    DismissAll,
    DismissOne(u32),
    Mute,
    Unmute,
    ShowHistory,
    HideHistory,
    HistoryState,
    Inhibit,
    Uninhibit,
    InhibitState,
    ToggleHistory,
    ToggleInhibit,
    ToggleMute,
    MuteState,
}

/// Whether the daemon shows past notifications.
#[derive(PartialEq, Eq, Structural, Debug, Clone, Copy)]
pub enum History {
    Hidden,
    Shown,
}

impl Default for History {
    fn default() -> (h: Self)
        ensures
            h == History::Hidden,
    {
        History::Hidden
    }
}

/// What a switch command does.
#[derive(PartialEq, Eq, Structural, Debug, Clone, Copy)]
pub enum SwitchAction {
    On,
    Off,
    Toggle,
    State,
}

/// A command line of the control client.
#[derive(PartialEq, Eq, Structural, Debug, Clone, Copy)]
pub enum NotifyCommand {
    Focus,
    Dismiss { all: bool, notification: Option<u32> },
    List,
    Waiting,
    Mute { action: SwitchAction },
    History { action: SwitchAction },
    Inhibit { action: SwitchAction },
}

/// The request a command names; `dismiss` without `--all` dismisses the notification
/// given, or the first (0) where none is.
pub open spec fn event_spec(c: NotifyCommand) -> Event {
    match c {
        NotifyCommand::Waiting => Event::Count,
        NotifyCommand::Focus => Event::Focus,
        NotifyCommand::List => Event::List,
        NotifyCommand::Dismiss { all, notification } => if all {
            Event::DismissAll
        } else {
            Event::DismissOne(
                match notification {
                    Some(n) => n,
                    None => 0,
                },
            )
        },
        NotifyCommand::Mute { action } => match action {
            SwitchAction::On => Event::Mute,
            SwitchAction::Off => Event::Unmute,
            SwitchAction::Toggle => Event::ToggleMute,
            SwitchAction::State => Event::MuteState,
        },
        NotifyCommand::History { action } => match action {
            SwitchAction::On => Event::ShowHistory,
            SwitchAction::Off => Event::HideHistory,
            SwitchAction::Toggle => Event::ToggleHistory,
            SwitchAction::State => Event::HistoryState,
        },
        NotifyCommand::Inhibit { action } => match action {
            SwitchAction::On => Event::Inhibit,
            SwitchAction::Off => Event::Uninhibit,
            SwitchAction::Toggle => Event::ToggleInhibit,
            SwitchAction::State => Event::InhibitState,
        },
    }
}

impl NotifyCommand {
    /// The request this command names.
    pub fn event(self) -> (e: Event)
        ensures
            e == event_spec(self),
    {
        match self {
            NotifyCommand::Waiting => Event::Count,
            NotifyCommand::Focus => Event::Focus,
            NotifyCommand::List => Event::List,
            NotifyCommand::Dismiss { all, notification } => {
                if all {
                    Event::DismissAll
                } else {
                    Event::DismissOne(
                        match notification {
                            Some(n) => n,
                            None => 0,
                        },
                    )
                }
            },
            NotifyCommand::Mute { action } => match action {
                SwitchAction::On => Event::Mute,
                SwitchAction::Off => Event::Unmute,
                SwitchAction::Toggle => Event::ToggleMute,
                SwitchAction::State => Event::MuteState,
            },
            NotifyCommand::History { action } => match action {
                SwitchAction::On => Event::ShowHistory,
                SwitchAction::Off => Event::HideHistory,
                SwitchAction::Toggle => Event::ToggleHistory,
                SwitchAction::State => Event::HistoryState,
            },
            NotifyCommand::Inhibit { action } => match action {
                SwitchAction::On => Event::Inhibit,
                SwitchAction::Off => Event::Uninhibit,
                SwitchAction::Toggle => Event::ToggleInhibit,
                SwitchAction::State => Event::InhibitState,
            },
        }
    }
}

/// A method of the daemon's control interface.
#[derive(PartialEq, Eq, Structural, Debug, Clone, Copy)]
pub enum Call {
    Focus,
    Count,
    List,
    Dismiss { all: bool, id: u32 },
    Mute,
    Unmute,
    Muted,
    ShowHistory,
    HideHistory,
    History,
    Inhibit,
    Uninhibit,
    Inhibited,
}

/// What a call answered.
#[derive(Debug, Clone)]
pub enum Answer {
    Nothing,
    Count(u32),
    List(Vec<String>),
    Flag(bool),
    History(History),
}

/// The first call a request makes; a toggle and a state query first ask for the state.
pub open spec fn first_call_spec(e: Event) -> Call {
    match e {
        Event::Count => Call::Count,
        Event::Focus => Call::Focus,
        Event::List => Call::List,
        Event::DismissAll => Call::Dismiss { all: true, id: 0 },
        Event::DismissOne(n) => Call::Dismiss { all: false, id: n },
        Event::Mute => Call::Mute,
        Event::Unmute => Call::Unmute,
        Event::ShowHistory => Call::ShowHistory,
        Event::HideHistory => Call::HideHistory,
        Event::HistoryState => Call::History,
        Event::Inhibit => Call::Inhibit,
        Event::Uninhibit => Call::Uninhibit,
        Event::InhibitState => Call::Inhibited,
        Event::ToggleHistory => Call::History,
        Event::ToggleInhibit => Call::Inhibited,
        Event::ToggleMute => Call::Muted,
        Event::MuteState => Call::Muted,
    }
}

/// The call a toggle makes once it knows the state: the opposite switch.
pub open spec fn follow_up_spec(e: Event, a: Answer) -> Option<Call> {
    match (e, a) {
        (Event::ToggleMute, Answer::Flag(muted)) => Some(
            if muted {
                Call::Unmute
            } else {
                Call::Mute
            },
        ),
        (Event::ToggleHistory, Answer::History(h)) => Some(
            if h == History::Shown {
                Call::HideHistory
            } else {
                Call::ShowHistory
            },
        ),
        (Event::ToggleInhibit, Answer::Flag(inhibited)) => Some(
            if inhibited {
                Call::Uninhibit
            } else {
                Call::Inhibit
            },
        ),
        _ => None,
    }
}

/// The first call of a request.
pub fn first_call(e: Event) -> (c: Call)
    ensures
        c == first_call_spec(e),
{
    match e {
        Event::Count => Call::Count,
        Event::Focus => Call::Focus,
        Event::List => Call::List,
        Event::DismissAll => Call::Dismiss { all: true, id: 0 },
        Event::DismissOne(n) => Call::Dismiss { all: false, id: n },
        Event::Mute => Call::Mute,
        Event::Unmute => Call::Unmute,
        Event::ShowHistory => Call::ShowHistory,
        Event::HideHistory => Call::HideHistory,
        Event::HistoryState => Call::History,
        Event::Inhibit => Call::Inhibit,
        Event::Uninhibit => Call::Uninhibit,
        Event::InhibitState => Call::Inhibited,
        Event::ToggleHistory => Call::History,
        Event::ToggleInhibit => Call::Inhibited,
        Event::ToggleMute => Call::Muted,
        Event::MuteState => Call::Muted,
    }
}

/// Whether a call leaves the daemon muted (`Some(true)`), unmuted (`Some(false)`), or
/// says nothing of it.
pub open spec fn muted_after(c: Call) -> Option<bool> {
    match c {
        Call::Mute => Some(true),
        Call::Unmute => Some(false),
        _ => None,
    }
}

/// Whether a call leaves notifications inhibited, not inhibited, or says nothing of it.
pub open spec fn inhibited_after(c: Call) -> Option<bool> {
    match c {
        Call::Inhibit => Some(true),
        Call::Uninhibit => Some(false),
        _ => None,
    }
}

/// Whether a call leaves the history shown, hidden, or says nothing of it.
pub open spec fn shown_after(c: Call) -> Option<bool> {
    match c {
        Call::ShowHistory => Some(true),
        Call::HideHistory => Some(false),
        _ => None,
    }
}

/// A toggle asks for the state first, then makes the call that switches to the other
/// state: muted becomes unmuted and back, inhibited becomes not inhibited and back,
/// a shown history is hidden and a hidden one shown.
pub proof fn law_toggles_switch(state: bool, h: History)
    ensures
        first_call_spec(Event::ToggleMute) == Call::Muted,
        first_call_spec(Event::ToggleInhibit) == Call::Inhibited,
        first_call_spec(Event::ToggleHistory) == Call::History,
        follow_up_spec(Event::ToggleMute, Answer::Flag(state)) matches Some(c) && muted_after(c) == Some(
            !state,
        ),
        follow_up_spec(Event::ToggleInhibit, Answer::Flag(state)) matches Some(c) && inhibited_after(c)
            == Some(!state),
        follow_up_spec(Event::ToggleHistory, Answer::History(h)) matches Some(c) && shown_after(c)
            == Some(h != History::Shown),
{
}

/// The second call of a toggle, given the answer to the first.
pub fn follow_up(e: Event, a: &Answer) -> (c: Option<Call>)
    ensures
        c == follow_up_spec(e, *a),
{
    match (e, a) {
        (Event::ToggleMute, Answer::Flag(muted)) => Some(
            if *muted {
                Call::Unmute
            } else {
                Call::Mute
            },
        ),
        (Event::ToggleHistory, Answer::History(h)) => Some(
            if *h == History::Shown {
                Call::HideHistory
            } else {
                Call::ShowHistory
            },
        ),
        (Event::ToggleInhibit, Answer::Flag(inhibited)) => Some(
            if *inhibited {
                Call::Uninhibit
            } else {
                Call::Inhibit
            },
        ),
        _ => None,
    }
}

/// The lines a request prints for the answer to its first call.
pub open spec fn output_spec(e: Event, a: Answer) -> Seq<Seq<char>> {
    match (e, a) {
        (Event::Count, Answer::Count(n)) => seq![dec(n as nat)],
        (Event::List, Answer::List(items)) => items@.map_values(|s: String| s@),
        (Event::MuteState, Answer::Flag(muted)) => seq![
            if muted {
                "muted"@
            } else {
                "unmuted"@
            },
        ],
        (Event::HistoryState, Answer::History(h)) => seq![
            if h == History::Shown {
                "shown"@
            } else {
                "hidden"@
            },
        ],
        (Event::InhibitState, Answer::Flag(inhibited)) => seq![
            if inhibited {
                "inhibited"@
            } else {
                "uninhibited"@
            },
        ],
        _ => Seq::empty(),
    }
}

/// The lines a request prints for the answer to its first call.
pub fn output(e: Event, a: &Answer) -> (lines: Vec<String>)
    ensures
        lines@.map_values(|s: String| s@) == output_spec(e, *a),
{
    let mut lines: Vec<String> = Vec::new();
    match (e, a) {
        (Event::Count, Answer::Count(n)) => {
            let d = dec_chars(*n as usize);
            lines.push(string_of(&d));
        },
        (Event::List, Answer::List(items)) => {
            let mut i: usize = 0;
            while i < items.len()
                invariant
                    i <= items.len(),
                    lines@.map_values(|s: String| s@) == items@.take(i as int).map_values(
                        |s: String| s@,
                    ),
                decreases items.len() - i,
            {
                lines.push(items[i].clone());
                assert(items@.take(i + 1).map_values(|s: String| s@) =~= items@.take(
                    i as int,
                ).map_values(|s: String| s@).push(items@[i as int]@));
                assert(lines@.map_values(|s: String| s@) =~= items@.take(i as int).map_values(
                    |s: String| s@,
                ).push(items@[i as int]@));
                i = i + 1;
            }
            assert(items@.take(items.len() as int) =~= items@);
        },
        (Event::MuteState, Answer::Flag(muted)) => {
            lines.push(
                if *muted {
                    "muted".to_string()
                } else {
                    "unmuted".to_string()
                },
            );
        },
        (Event::HistoryState, Answer::History(h)) => {
            lines.push(
                if *h == History::Shown {
                    "shown".to_string()
                } else {
                    "hidden".to_string()
                },
            );
        },
        (Event::InhibitState, Answer::Flag(inhibited)) => {
            lines.push(
                if *inhibited {
                    "inhibited".to_string()
                } else {
                    "uninhibited".to_string()
                },
            );
        },
        _ => {},
    }
    assert(lines@.map_values(|s: String| s@) =~= output_spec(e, *a));
    lines
}

} // verus!
