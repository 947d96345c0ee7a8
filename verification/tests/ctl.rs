use moxnotify::ctl::{
    first_call, follow_up, output, Answer, Call, Event, History, NotifyCommand, SwitchAction,
};

#[test]
fn commands_name_events() {
    assert_eq!(NotifyCommand::Dismiss { all: true, notification: Some(3) }.event(), Event::DismissAll);
    assert_eq!(NotifyCommand::Dismiss { all: false, notification: None }.event(), Event::DismissOne(0));
    assert_eq!(NotifyCommand::Mute { action: SwitchAction::Toggle }.event(), Event::ToggleMute);
    assert_eq!(NotifyCommand::History { action: SwitchAction::State }.event(), Event::HistoryState);
    assert_eq!(NotifyCommand::Inhibit { action: SwitchAction::Off }.event(), Event::Uninhibit);
    assert_eq!(NotifyCommand::Waiting.event(), Event::Count);
}

#[test]
fn toggles_ask_then_switch() {
    assert_eq!(first_call(Event::ToggleMute), Call::Muted);
    assert_eq!(follow_up(Event::ToggleMute, &Answer::Flag(true)), Some(Call::Unmute));
    assert_eq!(follow_up(Event::ToggleHistory, &Answer::History(History::Hidden)), Some(Call::ShowHistory));
    assert_eq!(follow_up(Event::ToggleInhibit, &Answer::Flag(false)), Some(Call::Inhibit));
    assert_eq!(follow_up(Event::Mute, &Answer::Nothing), None);
    assert_eq!(first_call(Event::DismissOne(4)), Call::Dismiss { all: false, id: 4 });
}

#[test]
fn outputs() {
    assert_eq!(output(Event::MuteState, &Answer::Flag(true)), vec!["muted"]);
    assert_eq!(output(Event::HistoryState, &Answer::History(History::Shown)), vec!["shown"]);
    assert_eq!(output(Event::InhibitState, &Answer::Flag(false)), vec!["uninhibited"]);
    assert_eq!(output(Event::Count, &Answer::Count(42)), vec!["42"]);
    assert_eq!(
        output(Event::List, &Answer::List(vec!["a".to_string(), "b".to_string()])),
        vec!["a", "b"]
    );
    assert!(output(Event::Focus, &Answer::Nothing).is_empty());
}
