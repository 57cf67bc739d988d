//! The controls: which key does what, and how the choices of channel and theme move.

use crate::channels::{channel_pairs, Channel};
use crate::config::PersistedConfig;
use crate::recording::RecordingFormat;
use crate::text::{equal_ignoring_ascii_case, same_ignoring_ascii_case};
use crate::theme::{theme_views, Theme, ThemeView};
use vstd::prelude::*;

verus! {

/// A key.
#[derive(Clone, Copy, Debug, PartialEq, Eq, Structural)]
pub enum Key {
    Char(char),
    Up,
    Down,
    Enter,
    /// Any other key.
    Other,
}

/// What a key asks for.
#[derive(Clone, Copy, Debug, PartialEq, Eq, Structural)]
pub enum Command {
    Quit,
    NextChannel,
    PrevChannel,
    Play,
    TogglePause,
    Louder,
    Quieter,
    RewindMinutes(u64),
    GoLive,
    NextTheme,
    PrevTheme,
    NextFormat,
    ToggleRecording,
    Nothing,
}

/// The key bindings.
pub open spec fn binding(key: Key) -> Command {
    match key {
        Key::Down => Command::NextChannel,
        Key::Up => Command::PrevChannel,
        Key::Enter => Command::Play,
        Key::Other => Command::Nothing,
        Key::Char(c) => if c == 'q' {
            Command::Quit
        } else if c == 'j' {
            Command::NextChannel
        } else if c == 'k' {
            Command::PrevChannel
        } else if c == ' ' {
            Command::TogglePause
        } else if c == '+' || c == '=' {
            Command::Louder
        } else if c == '-' {
            Command::Quieter
        } else if c == '1' {
            Command::RewindMinutes(1)
        } else if c == '2' {
            Command::RewindMinutes(2)
        } else if c == '3' {
            Command::RewindMinutes(3)
        } else if c == 'l' {
            Command::GoLive
        } else if c == 't' {
            Command::NextTheme
        } else if c == 'T' {
            Command::PrevTheme
        } else if c == 'm' {
            Command::NextFormat
        } else if c == 'r' {
            Command::ToggleRecording
        } else {
            Command::Nothing
        },
    }
}

/// What a key asks for. Only pressing it counts, not holding it down or letting it go.
pub fn command_for(key: Key, pressed: bool) -> (command: Command)
    ensures
        command == (if pressed {
            binding(key)
        } else {
            Command::Nothing
        }),
{
    if !pressed {
        return Command::Nothing;
    }
    match key {
        Key::Down => Command::NextChannel,
        Key::Up => Command::PrevChannel,
        Key::Enter => Command::Play,
        Key::Other => Command::Nothing,
        Key::Char(c) => match c {
            'q' => Command::Quit,
            'j' => Command::NextChannel,
            'k' => Command::PrevChannel,
            ' ' => Command::TogglePause,
            '+' | '=' => Command::Louder,
            '-' => Command::Quieter,
            '1' => Command::RewindMinutes(1),
            '2' => Command::RewindMinutes(2),
            '3' => Command::RewindMinutes(3),
            'l' => Command::GoLive,
            't' => Command::NextTheme,
            'T' => Command::PrevTheme,
            'm' => Command::NextFormat,
            'r' => Command::ToggleRecording,
            _ => Command::Nothing,
        },
    }
}

/// What remains to be done for a command outside the controls.
#[derive(Debug)]
pub enum Action {
    Nothing,
    Quit,
    /// Play a channel.
    Play(Channel),
    TogglePause,
    Louder,
    Quieter,
    RewindMinutes(u64),
    GoLive,
    /// Choose the next recording format, and tell the controls which it is.
    CycleFormat,
    ToggleRecording,
    /// Keep the choices on disk.
    SaveConfig,
}

/// The player's controls.
pub struct App {
    pub channels: Vec<Channel>,
    /// Which channel is selected.
    pub selected: Option<usize>,
    pub themes: Vec<Theme>,
    /// Which theme is in use.
    pub theme_index: usize,
    pub config: PersistedConfig,
}

/// The controls as a mathematical value.
#[verifier::ext_equal]
pub struct AppView {
    pub channels: Seq<(Seq<char>, Seq<char>)>,
    pub selected: Option<int>,
    pub themes: Seq<ThemeView>,
    pub theme_index: int,
    pub config: (Seq<char>, RecordingFormat),
}

impl View for App {
    type V = AppView;

    open spec fn view(&self) -> AppView {
        AppView {
            channels: channel_pairs(self.channels@),
            selected: match self.selected {
                Some(index) => Some(index as int),
                None => None,
            },
            themes: theme_views(self.themes@),
            theme_index: self.theme_index as int,
            config: self.config.pair(),
        }
    }
}

/// The channel behind the selected one; behind the last, or without a selection, the first.
pub open spec fn index_after(selected: Option<int>, count: int) -> int {
    match selected {
        Some(index) if index + 1 < count => index + 1,
        _ => 0,
    }
}

/// The channel before the selected one; before the first, or without a selection, the last.
pub open spec fn index_before(selected: Option<int>, count: int) -> int {
    match selected {
        Some(index) if index > 0 => index - 1,
        _ => if count > 0 {
            count - 1
        } else {
            0
        },
    }
}

impl AppView {
    /// What always holds: the theme in use is there, and so is the selected channel, if there
    /// are channels.
    pub open spec fn wf(self) -> bool {
        &&& 0 <= self.theme_index < self.themes.len()
        &&& self.selected matches Some(index) ==> 0 <= index && (index < self.channels.len()
            || index == 0)
    }

    /// The controls with the channel behind selected.
    pub open spec fn channel_after(self) -> AppView {
        AppView {
            selected: Some(index_after(self.selected, self.channels.len() as int)),
            ..self
        }
    }

    /// The controls with the channel before selected.
    pub open spec fn channel_before(self) -> AppView {
        AppView {
            selected: Some(index_before(self.selected, self.channels.len() as int)),
            ..self
        }
    }

    /// The controls with another theme in use, which is also the one to be remembered.
    pub open spec fn with_theme(self, index: int) -> AppView {
        AppView {
            theme_index: index,
            config: (self.themes[index].name, self.config.1),
            ..self
        }
    }

    /// The theme behind the one in use; behind the last, the first.
    pub open spec fn theme_after(self) -> AppView {
        self.with_theme(index_after(Some(self.theme_index), self.themes.len() as int))
    }

    /// The theme before the one in use; before the first, the last.
    pub open spec fn theme_before(self) -> AppView {
        self.with_theme(index_before(Some(self.theme_index), self.themes.len() as int))
    }

    /// The selected channel.
    pub open spec fn selected_pair(self) -> Option<(Seq<char>, Seq<char>)> {
        match self.selected {
            Some(index) if index < self.channels.len() => Some(self.channels[index]),
            _ => None,
        }
    }

    /// The controls once a command has been obeyed.
    pub open spec fn obeyed(self, command: Command) -> AppView {
        match command {
            Command::NextChannel => self.channel_after(),
            Command::PrevChannel => self.channel_before(),
            Command::NextTheme => self.theme_after(),
            Command::PrevTheme => self.theme_before(),
            _ => self,
        }
    }

    /// `action` is what remains to be done for a command.
    pub open spec fn calls_for(self, command: Command, action: Action) -> bool {
        match command {
            Command::Quit => action is Quit,
            Command::NextChannel | Command::PrevChannel | Command::Nothing => action is Nothing,
            Command::Play => match self.selected_pair() {
                Some(pair) => action matches Action::Play(channel) && channel.pair() == pair,
                None => action is Nothing,
            },
            Command::TogglePause => action is TogglePause,
            Command::Louder => action is Louder,
            Command::Quieter => action is Quieter,
            Command::RewindMinutes(minutes) => action == Action::RewindMinutes(minutes),
            Command::GoLive => action is GoLive,
            Command::NextTheme | Command::PrevTheme => action is SaveConfig,
            Command::NextFormat => action is CycleFormat,
            Command::ToggleRecording => action is ToggleRecording,
        }
    }
}

impl App {
    /// Controls with the first channel selected.
    pub fn new(
        channels: Vec<Channel>,
        themes: Vec<Theme>,
        theme_index: usize,
        config: PersistedConfig,
    ) -> (app: Self)
        requires
            theme_index < themes@.len(),
        ensures
            app@ == (AppView {
                channels: channel_pairs(channels@),
                selected: Some(0),
                themes: theme_views(themes@),
                theme_index: theme_index as int,
                config: config.pair(),
            }),
            app@.wf(),
    {
        App { channels, selected: Some(0), themes, theme_index, config }
    }

    /// Selects the next channel.
    pub fn next_channel(&mut self)
        requires
            old(self)@.wf(),
        ensures
            final(self)@ == old(self)@.channel_after(),
            final(self)@.wf(),
            old(self).selected is Some && old(self).selected->0 + 1 < old(self).channels@.len()
                ==> final(self).selected == Some((old(self).selected->0 + 1) as usize),
            old(self).selected is None || old(self).selected->0 + 1 >= old(self).channels@.len()
                ==> final(self).selected == Some(0usize),
    {
        let next: usize = match self.selected {
            Some(index) => if index < self.channels.len() && index + 1 < self.channels.len() {
                index + 1
            } else {
                0
            },
            None => 0,
        };
        self.selected = Some(next);
    }

    /// Selects the previous channel.
    pub fn prev_channel(&mut self)
        requires
            old(self)@.wf(),
        ensures
            final(self)@ == old(self)@.channel_before(),
            final(self)@.wf(),
            old(self).selected is Some && old(self).selected->0 > 0 ==> final(self).selected
                == Some((old(self).selected->0 - 1) as usize),
            (old(self).selected is None || old(self).selected->0 == 0) && old(
                self,
            ).channels@.len() > 0 ==> final(self).selected == Some(
                (old(self).channels@.len() - 1) as usize,
            ),
    {
        let last: usize = if self.channels.len() > 0 {
            self.channels.len() - 1
        } else {
            0
        };
        let prev: usize = match self.selected {
            Some(index) => if index > 0 {
                index - 1
            } else {
                last
            },
            None => last,
        };
        self.selected = Some(prev);
    }

    /// Uses the next theme.
    pub fn next_theme(&mut self)
        requires
            old(self)@.wf(),
        ensures
            final(self)@ == old(self)@.theme_after(),
            final(self)@.wf(),
            old(self).theme_index + 1 < old(self).themes@.len() ==> final(self).theme_index
                == old(self).theme_index + 1,
            old(self).theme_index + 1 >= old(self).themes@.len() ==> final(self).theme_index == 0,
            final(self).config.theme_name@ == old(
                self,
            ).themes@[final(self).theme_index as int].name@,
    {
        self.theme_index = if self.theme_index < self.themes.len() - 1 {
            self.theme_index + 1
        } else {
            0
        };
        self.persist_theme();
    }

    /// Uses the previous theme.
    pub fn prev_theme(&mut self)
        requires
            old(self)@.wf(),
        ensures
            final(self)@ == old(self)@.theme_before(),
            final(self)@.wf(),
            old(self).theme_index > 0 ==> final(self).theme_index == old(self).theme_index - 1,
            old(self).theme_index == 0 ==> final(self).theme_index == old(self).themes@.len() - 1,
            final(self).config.theme_name@ == old(
                self,
            ).themes@[final(self).theme_index as int].name@,
    {
        self.theme_index = if self.theme_index == 0 {
            self.themes.len() - 1
        } else {
            self.theme_index - 1
        };
        self.persist_theme();
    }

    /// Makes the theme in use the one to be remembered.
    pub fn persist_theme(&mut self)
        requires
            old(self)@.wf(),
        ensures
            final(self)@ == old(self)@.with_theme(old(self)@.theme_index),
            final(self)@.wf(),
            final(self).theme_index == old(self).theme_index,
            final(self).themes == old(self).themes,
            final(self).config.theme_name@ == old(self).themes@[old(
                self,
            ).theme_index as int].name@,
    {
        self.config.theme_name = self.themes[self.theme_index].name.clone();
    }

    /// Makes a recording format the one to be remembered.
    pub fn next_recording_format(&mut self, format: RecordingFormat)
        requires
            old(self)@.wf(),
        ensures
            final(self)@ == (AppView { config: (old(self)@.config.0, format), ..old(self)@ }),
            final(self)@.wf(),
    {
        self.config.recording_format = format;
    }

    /// The selected channel.
    pub fn selected_channel(&self) -> (channel: Option<Channel>)
        requires
            self@.wf(),
        ensures
            match channel {
                Some(channel) => self@.selected_pair() == Some(channel.pair()),
                None => self@.selected_pair() is None,
            },
            self.selected is Some && self.selected->0 < self.channels@.len() ==> channel is Some
                && channel->0.name@ == self.channels@[self.selected->0 as int].name@
                && channel->0.url@ == self.channels@[self.selected->0 as int].url@,
            self.selected is None ==> channel is None,
    {
        match self.selected {
            Some(index) => if index < self.channels.len() {
                Some(self.channels[index].clone())
            } else {
                None
            },
            None => None,
        }
    }

    /// Obeys a command as far as the controls go, and says what remains to be done for it.
    pub fn obey(&mut self, command: Command) -> (action: Action)
        requires
            old(self)@.wf(),
        ensures
            final(self)@ == old(self)@.obeyed(command),
            old(self)@.calls_for(command, action),
            final(self)@.wf(),
    {
        match command {
            Command::Quit => Action::Quit,
            Command::NextChannel => {
                self.next_channel();
                Action::Nothing
            },
            Command::PrevChannel => {
                self.prev_channel();
                Action::Nothing
            },
            Command::Play => match self.selected_channel() {
                Some(channel) => Action::Play(channel),
                None => Action::Nothing,
            },
            Command::TogglePause => Action::TogglePause,
            Command::Louder => Action::Louder,
            Command::Quieter => Action::Quieter,
            Command::RewindMinutes(minutes) => Action::RewindMinutes(minutes),
            Command::GoLive => Action::GoLive,
            Command::NextTheme => {
                self.next_theme();
                Action::SaveConfig
            },
            Command::PrevTheme => {
                self.prev_theme();
                Action::SaveConfig
            },
            Command::NextFormat => Action::CycleFormat,
            Command::ToggleRecording => Action::ToggleRecording,
            Command::Nothing => Action::Nothing,
        }
    }
}

/// The theme at `index` goes by `name`, without regard to the case of ASCII letters.
pub open spec fn goes_by(themes: Seq<ThemeView>, index: int, name: Seq<char>) -> bool {
    same_ignoring_ascii_case(themes[index].name, name)
}

/// `index` is that of the first theme that goes by `name`, or 0 where none does.
pub open spec fn is_initial_theme(themes: Seq<ThemeView>, name: Seq<char>, index: int) -> bool {
    ||| 0 <= index < themes.len() && goes_by(themes, index, name) && forall|k: int|
        0 <= k < index ==> !(#[trigger] goes_by(themes, k, name))
    ||| index == 0 && forall|k: int|
        0 <= k < themes.len() ==> !(#[trigger] goes_by(themes, k, name))
}

/// The theme to begin with: the remembered one, or the first where it is no longer there.
pub fn initial_theme(themes: &[Theme], name: &str) -> (index: usize)
    ensures
        is_initial_theme(theme_views(themes@), name@, index as int),
        forall|k: int|
            0 <= k < index ==> !same_ignoring_ascii_case((#[trigger] themes@[k]).name@, name@),
        index > 0 ==> index < themes@.len() && same_ignoring_ascii_case(
            themes@[index as int].name@,
            name@,
        ),
        index == 0 && themes@.len() > 0 && !same_ignoring_ascii_case(themes@[0].name@, name@)
            ==> forall|k: int|
            0 <= k < themes@.len() ==> !same_ignoring_ascii_case(
                (#[trigger] themes@[k]).name@,
                name@,
            ),
{
    let mut i: usize = 0;
    while i < themes.len()
        invariant
            i <= themes@.len(),
            forall|k: int| 0 <= k < i ==> !(#[trigger] goes_by(theme_views(themes@), k, name@)),
            forall|k: int|
                0 <= k < i ==> !same_ignoring_ascii_case((#[trigger] themes@[k]).name@, name@),
        decreases themes@.len() - i,
    {
        if equal_ignoring_ascii_case(themes[i].name.as_str(), name) {
            assert(goes_by(theme_views(themes@), i as int, name@));
            return i;
        }
        i = i + 1;
    }
    0
}

/// Going one channel on and one back leads to the same channel, in either order.
pub proof fn channel_steps_undo_each_other(app: AppView)
    requires
        app.wf(),
        app.channels.len() > 0,
        app.selected is Some,
    ensures
        app.channel_after().channel_before() == app,
        app.channel_before().channel_after() == app,
{
}

/// Going one theme on and one back leads to the same theme, in either order.
pub proof fn theme_steps_undo_each_other(app: AppView)
    requires
        app.wf(),
    ensures
        app.theme_after().theme_before() == app.with_theme(app.theme_index),
        app.theme_before().theme_after() == app.with_theme(app.theme_index),
{
}

/// The controls `steps` channels further on.
pub open spec fn channels_on(app: AppView, steps: nat) -> AppView
    decreases steps,
{
    if steps == 0 {
        app
    } else {
        channels_on(app, (steps - 1) as nat).channel_after()
    }
}

/// Going on channel by channel comes past every channel, and round to the first one again.
pub proof fn channel_steps_reach_every_channel(app: AppView, steps: nat)
    requires
        app.wf(),
        app.selected == Some(0int),
        steps <= app.channels.len(),
    ensures
        steps < app.channels.len() ==> channels_on(app, steps).selected == Some(steps as int),
        steps == app.channels.len() ==> channels_on(app, steps) == app,
    decreases steps,
{
    if steps > 0 {
        channel_steps_reach_every_channel(app, (steps - 1) as nat);
        lemma_channels_on_moves_the_selection(app, steps);
        lemma_channels_on_moves_the_selection(app, (steps - 1) as nat);
    }
}

proof fn lemma_channels_on_moves_the_selection(app: AppView, steps: nat)
    ensures
        channels_on(app, steps) == (AppView {
            selected: channels_on(app, steps).selected,
            ..app
        }),
    decreases steps,
{
    if steps > 0 {
        lemma_channels_on_moves_the_selection(app, (steps - 1) as nat);
    }
}

/// A theme that was in use is found again by the name that was remembered, if no theme before
/// it goes by the same name.
pub proof fn remembered_theme_is_found(app: AppView, index: int)
    requires
        app.wf(),
        app.config.0 == app.themes[app.theme_index].name,
        forall|k: int|
            0 <= k < app.theme_index ==> !(#[trigger] goes_by(app.themes, k, app.config.0)),
        is_initial_theme(app.themes, app.config.0, index),
    ensures
        index == app.theme_index,
{
    assert(goes_by(app.themes, app.theme_index, app.config.0));
}

/// Every key does what the help says of it, and any other key nothing.
pub proof fn keys_do_what_the_help_says(c: char)
    ensures
        binding(Key::Up) == Command::PrevChannel && binding(Key::Char('k')) == Command::PrevChannel,
        binding(Key::Down) == Command::NextChannel && binding(Key::Char('j'))
            == Command::NextChannel,
        binding(Key::Enter) == Command::Play && binding(Key::Char(' ')) == Command::TogglePause,
        binding(Key::Char('+')) == Command::Louder && binding(Key::Char('=')) == Command::Louder,
        binding(Key::Char('-')) == Command::Quieter,
        '1' <= c <= '3' ==> binding(Key::Char(c)) == Command::RewindMinutes((c as u32 - 48) as u64),
        binding(Key::Char('l')) == Command::GoLive,
        binding(Key::Char('t')) == Command::NextTheme && binding(Key::Char('T'))
            == Command::PrevTheme,
        binding(Key::Char('m')) == Command::NextFormat && binding(Key::Char('r'))
            == Command::ToggleRecording,
        binding(Key::Char('q')) == Command::Quit,
        binding(Key::Other) == Command::Nothing,
        c != 'q' && c != 'j' && c != 'k' && c != ' ' && c != '+' && c != '=' && c != '-' && !('1'
            <= c <= '3') && c != 'l' && c != 't' && c != 'T' && c != 'm' && c != 'r' ==> binding(
            Key::Char(c),
        ) == Command::Nothing,
{
}

/// Going on by one channel adds one to the place of the selected one, and going back takes one off,
/// round the ends of the list; without a selection they go to the first and to the last. Nothing
/// else changes.
pub proof fn channels_are_stepped_through_in_order(app: AppView)
    requires
        app.wf(),
        app.channels.len() > 0,
    ensures
        ({
            let count = app.channels.len() as int;
            let on = app.channel_after();
            let back = app.channel_before();
            &&& on.selected is Some && back.selected is Some
            &&& app.selected is Some && app.selected->0 + 1 < count ==> on.selected->0
                == app.selected->0 + 1
            &&& app.selected is Some && app.selected->0 + 1 == count ==> on.selected->0 == 0
            &&& app.selected is Some && app.selected->0 > 0 ==> back.selected->0 == app.selected->0
                - 1
            &&& app.selected is Some && app.selected->0 == 0 ==> back.selected->0 == count - 1
            &&& app.selected is None ==> on.selected->0 == 0 && back.selected->0 == count - 1
            &&& on == (AppView { selected: on.selected, ..app })
            &&& back == (AppView { selected: back.selected, ..app })
        }),
{
}

/// Going on by one theme adds one to the place of the one in use, and going back takes one off, round
/// the ends of the list. The theme that is then in use is the one that is remembered, under its own
/// name, and nothing else changes.
pub proof fn themes_are_stepped_through_in_order(app: AppView)
    requires
        app.wf(),
    ensures
        ({
            let count = app.themes.len() as int;
            let on = app.theme_after();
            let back = app.theme_before();
            &&& app.theme_index + 1 < count ==> on.theme_index == app.theme_index + 1
            &&& app.theme_index + 1 == count ==> on.theme_index == 0
            &&& app.theme_index > 0 ==> back.theme_index == app.theme_index - 1
            &&& app.theme_index == 0 ==> back.theme_index == count - 1
            &&& on.config.0 == app.themes[on.theme_index].name
            &&& back.config.0 == app.themes[back.theme_index].name
            &&& on.config.1 == app.config.1 && back.config.1 == app.config.1
            &&& on == (AppView { theme_index: on.theme_index, config: on.config, ..app })
            &&& back == (AppView { theme_index: back.theme_index, config: back.config, ..app })
        }),
{
}

/// Every command does its own thing and nothing else: playing plays the channel at the place that is
/// selected, stepping through channels moves the selection, stepping through themes changes the
/// theme, which is then to be kept, and all others leave the controls as they are.
pub proof fn commands_do_their_own_thing(app: AppView, command: Command, action: Action)
    requires
        app.wf(),
        app.calls_for(command, action),
    ensures
        command == Command::NextChannel ==> app.obeyed(command) == app.channel_after()
            && action is Nothing,
        command == Command::PrevChannel ==> app.obeyed(command) == app.channel_before()
            && action is Nothing,
        command == Command::NextTheme ==> app.obeyed(command) == app.theme_after()
            && action is SaveConfig,
        command == Command::PrevTheme ==> app.obeyed(command) == app.theme_before()
            && action is SaveConfig,
        command != Command::NextChannel && command != Command::PrevChannel && command
            != Command::NextTheme && command != Command::PrevTheme ==> app.obeyed(command) == app,
        command == Command::Play && app.selected is Some && app.selected->0 < app.channels.len()
            ==> action is Play && (action->Play_0.name@, action->Play_0.url@)
            == app.channels[app.selected->0],
        command == Command::Play && (app.selected is None || app.selected->0
            >= app.channels.len()) ==> action is Nothing,
        command == Command::Quit ==> action is Quit,
        command == Command::TogglePause ==> action is TogglePause,
        command == Command::Louder ==> action is Louder,
        command == Command::Quieter ==> action is Quieter,
        command is RewindMinutes ==> action == Action::RewindMinutes(command->RewindMinutes_0),
        command == Command::GoLive ==> action is GoLive,
        command == Command::NextFormat ==> action is CycleFormat,
        command == Command::ToggleRecording ==> action is ToggleRecording,
        command == Command::Nothing ==> action is Nothing,
{
}

/// The theme to begin with is the first one whose name differs from the remembered one at most in
/// the case of ASCII letters; and the first of all where there is none.
pub proof fn the_remembered_name_decides(themes: Seq<ThemeView>, name: Seq<char>, index: int)
    requires
        is_initial_theme(themes, name, index),
    ensures
        (exists|k: int|
            0 <= k < themes.len() && same_ignoring_ascii_case((#[trigger] themes[k]).name, name))
            ==> 0 <= index < themes.len() && same_ignoring_ascii_case(themes[index].name, name),
        forall|k: int|
            0 <= k < index ==> !same_ignoring_ascii_case((#[trigger] themes[k]).name, name),
        (forall|k: int|
            0 <= k < themes.len() ==> !same_ignoring_ascii_case((#[trigger] themes[k]).name, name))
            ==> index == 0,
{
    if exists|k: int|
        0 <= k < themes.len() && same_ignoring_ascii_case((#[trigger] themes[k]).name, name) {
        let k = choose|k: int|
            0 <= k < themes.len() && same_ignoring_ascii_case((#[trigger] themes[k]).name, name);
        assert(goes_by(themes, k, name));
    }
    assert forall|k: int| 0 <= k < index implies !same_ignoring_ascii_case(
        (#[trigger] themes[k]).name,
        name,
    ) by {
        assert(!goes_by(themes, k, name));
    }
    if 0 <= index < themes.len() {
        assert(goes_by(themes, index, name) == same_ignoring_ascii_case(themes[index].name, name));
    }
}

/// The controls as a mathematical value have every field as it is.
pub proof fn the_controls_are_seen_as_they_are(app: App)
    ensures
        app@.channels.len() == app.channels@.len(),
        forall|i: int|
            0 <= i < app.channels@.len() ==> #[trigger] app@.channels[i] == (
                app.channels@[i].name@,
                app.channels@[i].url@,
            ),
        app.selected is Some ==> app@.selected == Some(app.selected->0 as int),
        app.selected is None ==> app@.selected is None,
        app@.themes.len() == app.themes@.len(),
        forall|i: int|
            0 <= i < app.themes@.len() ==> (#[trigger] app@.themes[i]).name == app.themes@[i].name@,
        app@.theme_index == app.theme_index,
        app@.config.0 == app.config.theme_name@,
        app@.config.1 == app.config.recording_format,
{
}

} // verus!
