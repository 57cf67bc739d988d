use srtui::channels::channel;
use srtui::config::PersistedConfig;
use srtui::control::{command_for, initial_theme, Action, App, Command, Key};
use srtui::recording::RecordingFormat;
use srtui::theme::{Rgb, Theme};

fn theme(name: &str) -> Theme {
    let black = Rgb { red: 0, green: 0, blue: 0 };
    Theme {
        name: name.to_string(),
        background: black,
        foreground: black,
        accent: black,
        secondary: black,
    }
}

fn app(channels: usize, themes: usize) -> App {
    App::new(
        (0..channels).map(|i| channel(&format!("C{i}"), &format!("u{i}"))).collect(),
        (0..themes).map(|i| theme(&format!("T{i}"))).collect(),
        0,
        PersistedConfig::default(),
    )
}

#[test]
fn keys_are_bound() {
    let bindings = [
        (Key::Char('q'), Command::Quit),
        (Key::Down, Command::NextChannel),
        (Key::Char('j'), Command::NextChannel),
        (Key::Up, Command::PrevChannel),
        (Key::Char('k'), Command::PrevChannel),
        (Key::Enter, Command::Play),
        (Key::Char(' '), Command::TogglePause),
        (Key::Char('+'), Command::Louder),
        (Key::Char('='), Command::Louder),
        (Key::Char('-'), Command::Quieter),
        (Key::Char('1'), Command::RewindMinutes(1)),
        (Key::Char('2'), Command::RewindMinutes(2)),
        (Key::Char('3'), Command::RewindMinutes(3)),
        (Key::Char('l'), Command::GoLive),
        (Key::Char('t'), Command::NextTheme),
        (Key::Char('T'), Command::PrevTheme),
        (Key::Char('m'), Command::NextFormat),
        (Key::Char('r'), Command::ToggleRecording),
        (Key::Char('Q'), Command::Nothing),
        (Key::Other, Command::Nothing),
    ];
    for (key, command) in bindings {
        assert_eq!(command_for(key, true), command);
        assert_eq!(command_for(key, false), Command::Nothing);
    }
}

#[test]
fn channels_go_round() {
    let mut app = app(3, 1);
    assert_eq!(app.selected, Some(0));
    for wanted in [1, 2, 0] {
        app.next_channel();
        assert_eq!(app.selected, Some(wanted));
    }
    for wanted in [2, 1, 0] {
        app.prev_channel();
        assert_eq!(app.selected, Some(wanted));
    }
    app.selected = None;
    app.prev_channel();
    assert_eq!(app.selected, Some(2));
    app.selected = None;
    app.next_channel();
    assert_eq!(app.selected, Some(0));
}

#[test]
fn channel_steps_undo_each_other() {
    for start in 0..3 {
        let mut app = app(3, 1);
        app.selected = Some(start);
        app.next_channel();
        app.prev_channel();
        assert_eq!(app.selected, Some(start));
        app.prev_channel();
        app.next_channel();
        assert_eq!(app.selected, Some(start));
    }
}

#[test]
fn without_channels_there_is_nothing_to_play() {
    let mut app = app(0, 1);
    app.next_channel();
    app.prev_channel();
    assert_eq!(app.selected, Some(0));
    assert!(app.selected_channel().is_none());
    assert!(matches!(app.obey(Command::Play), Action::Nothing));
    app.selected = None;
    assert!(app.selected_channel().is_none());
}

#[test]
fn themes_go_round_and_are_remembered() {
    let mut app = app(1, 3);
    for wanted in [1, 2, 0] {
        assert!(matches!(app.obey(Command::NextTheme), Action::SaveConfig));
        assert_eq!(app.theme_index, wanted);
        assert_eq!(app.config.theme_name, format!("T{wanted}"));
    }
    for wanted in [2, 1, 0] {
        assert!(matches!(app.obey(Command::PrevTheme), Action::SaveConfig));
        assert_eq!(app.theme_index, wanted);
        assert_eq!(app.config.theme_name, format!("T{wanted}"));
    }
    assert_eq!(initial_theme(&app.themes, &app.config.theme_name), app.theme_index);
    app.persist_theme();
    assert_eq!(app.config.theme_name, "T0");
}

#[test]
fn commands_call_for_actions() {
    let mut app = app(2, 2);
    assert!(matches!(app.obey(Command::NextChannel), Action::Nothing));
    match app.obey(Command::Play) {
        Action::Play(chosen) => assert_eq!((chosen.name.as_str(), chosen.url.as_str()), ("C1", "u1")),
        other => panic!("{other:?}"),
    }
    assert!(matches!(app.obey(Command::PrevChannel), Action::Nothing));
    assert_eq!(app.selected, Some(0));
    assert!(matches!(app.obey(Command::Quit), Action::Quit));
    assert!(matches!(app.obey(Command::TogglePause), Action::TogglePause));
    assert!(matches!(app.obey(Command::Louder), Action::Louder));
    assert!(matches!(app.obey(Command::Quieter), Action::Quieter));
    assert!(matches!(app.obey(Command::RewindMinutes(2)), Action::RewindMinutes(2)));
    assert!(matches!(app.obey(Command::GoLive), Action::GoLive));
    assert!(matches!(app.obey(Command::NextFormat), Action::CycleFormat));
    assert!(matches!(app.obey(Command::ToggleRecording), Action::ToggleRecording));
    assert!(matches!(app.obey(Command::Nothing), Action::Nothing));
    app.next_recording_format(RecordingFormat::Flac);
    assert_eq!(app.config.recording_format, RecordingFormat::Flac);
}

#[test]
fn the_remembered_theme_is_found() {
    let themes = [theme("dracula"), theme("Tokyo_Night"), theme("tokyo_night")];
    assert_eq!(initial_theme(&themes, "tokyo_night"), 1);
    assert_eq!(initial_theme(&themes, "DRACULA"), 0);
    assert_eq!(initial_theme(&themes, "gone"), 0);
    assert_eq!(initial_theme(&[], "gone"), 0);
}
