//! The debugger's front end: its state, and what keys and commands do to it.
use crate::addsig::AddSigState;
use crate::addsig::AddSigView;
use crate::help_modal::HelpModalState;
use crate::help_modal::HelpModalView;
use crate::text::head_word;
use crate::text::joined;
use crate::text::lines;
use crate::text::lines_push;
use crate::text::same_text;
use crate::text::split_command;
use crate::text::tail_words;
use crate::text::trim;
use crate::text::trimmed;
use crate::view::panels_of;
use crate::view::ExecutionSnapshot;
use crate::view::PanelLines;
use crate::view::ViewState;
use vstd::prelude::*;

verus! {

/// A key of the keyboard.
#[derive(Debug, Clone, Copy, PartialEq, Eq, Structural)]
pub enum KeyCode {
    Char(char),
    Enter,
    Backspace,
    Esc,
    Up,
    Down,
    PageUp,
    PageDown,
    Home,
    End,
    Other,
}

/// A key that was pressed, and whether the control key was held.
#[derive(Debug, Clone, Copy, PartialEq, Eq, Structural)]
pub struct KeyEvent {
    pub code: KeyCode,
    pub control: bool,
}

/// What is to be done outside after a key.
pub enum Effect<V> {
    /// Nothing.
    Nothing,
    /// Search for the signals that match the text in the search window, and offer them
    /// there.
    MatchSignals,
    /// Show the chosen signal.
    SelectSignal(V),
    /// Run a command, and hand back how it ended.
    RunCommand { name: String, args: String },
}

/// What is to be done outside after the debugger has moved.
#[derive(Debug, Clone, Copy, PartialEq, Eq, Structural)]
pub enum FollowUp {
    /// Nothing.
    Nothing,
    /// Bring the waveform viewer to the current time. That this fails changes nothing.
    Sync,
    /// Report the state of the program anew, then bring the waveform viewer to the
    /// current time. That this fails changes nothing.
    RefreshAndSync,
}

/// What an [`Effect`] stands for.
pub enum EffectView<V> {
    Nothing,
    MatchSignals,
    SelectSignal(V),
    RunCommand { name: Seq<char>, args: Seq<char> },
}

impl<V> View for Effect<V> {
    type V = EffectView<V>;

    open spec fn view(&self) -> EffectView<V> {
        match *self {
            Effect::Nothing => EffectView::Nothing,
            Effect::MatchSignals => EffectView::MatchSignals,
            Effect::SelectSignal(signal) => EffectView::SelectSignal(signal),
            Effect::RunCommand { name, args } => EffectView::RunCommand {
                name: name@,
                args: args@,
            },
        }
    }
}

/// The state of the front end. `V` is what the debugger knows a signal by.
pub struct App<V> {
    pub should_quit: bool,
    pub input_buffer: String,
    pub command_history: Vec<String>,
    pub view_state: ViewState,
    pub scroll_offset: usize,
    pub show_debug_panel: bool,
    pub debug_scroll_offset: usize,
    pub show_split_view: bool,
    /// The command that an empty line repeats.
    pub last_command: Option<String>,
    /// The commands that can be called back.
    pub user_command_history: Vec<String>,
    /// Which of them is called back.
    pub history_index: Option<usize>,
    pub addsig_state: AddSigState<V>,
    pub help_modal_state: HelpModalState,
    /// Whether a waveform viewer is connected.
    pub viewer_connected: bool,
}

/// What an [`App`] stands for.
pub struct AppView<V> {
    pub should_quit: bool,
    pub input: Seq<char>,
    pub output: Seq<Seq<char>>,
    pub panels: PanelLines,
    pub scroll_offset: usize,
    pub show_debug_panel: bool,
    pub debug_scroll_offset: usize,
    pub show_split_view: bool,
    pub last_command: Option<Seq<char>>,
    pub history: Seq<Seq<char>>,
    pub history_index: Option<usize>,
    pub addsig: AddSigView<V>,
    pub help: HelpModalView,
    pub viewer_connected: bool,
}

/// The text of a command that may be there.
pub open spec fn text_of(command: Option<String>) -> Option<Seq<char>> {
    match command {
        Some(text) => Some(text@),
        None => None,
    }
}

impl<V> View for App<V> {
    type V = AppView<V>;

    open spec fn view(&self) -> AppView<V> {
        AppView {
            should_quit: self.should_quit,
            input: self.input_buffer@,
            output: lines(self.command_history@),
            panels: self.view_state@,
            scroll_offset: self.scroll_offset,
            show_debug_panel: self.show_debug_panel,
            debug_scroll_offset: self.debug_scroll_offset,
            show_split_view: self.show_split_view,
            last_command: text_of(self.last_command),
            history: lines(self.user_command_history@),
            history_index: self.history_index,
            addsig: self.addsig_state@,
            help: self.help_modal_state@,
            viewer_connected: self.viewer_connected,
        }
    }
}

/// The commands that are neither repeated nor called back.
pub open spec fn is_transient(command: Seq<char>) -> bool {
    command == "quit"@ || command == "q"@ || command == "clear"@ || command == "cl"@
}

/// Whether a command is neither repeated nor called back.
fn transient(command: &str) -> (r: bool)
    ensures
        r == is_transient(command@),
{
    same_text(command, "quit") || same_text(command, "q") || same_text(command, "clear")
        || same_text(command, "cl")
}

/// A command as the output shows it.
pub open spec fn prompt_line(command: Seq<char>) -> Seq<char> {
    "(jpdb) "@ + command
}

/// The effect of running a command line.
pub open spec fn running<V>(command: Seq<char>) -> EffectView<V> {
    EffectView::RunCommand { name: head_word(command), args: tail_words(command) }
}

impl<V> AppView<V> {
    /// The command that is called back is one of those that can be, and the mark in the
    /// search window stands on a match.
    pub open spec fn wf(self) -> bool {
        &&& self.history_index matches Some(i) ==> i < self.history.len()
        &&& self.addsig.wf()
    }

    /// The line that is typed, emptied, and the output shown from its end: what follows a
    /// command.
    pub open spec fn ready(self) -> Self {
        AppView { input: Seq::empty(), scroll_offset: 0, ..self }
    }

    /// The line that is typed, taken as a command: what is noted of it before it runs. An
    /// empty line stands for the last command.
    pub open spec fn entered(self) -> (Self, Option<Seq<char>>) {
        let line = trimmed(self.input);
        if line.len() == 0 {
            match self.last_command {
                Some(command) => (
                    AppView { output: self.output.push(prompt_line(command)), ..self },
                    Some(command),
                ),
                None => (self, None),
            }
        } else {
            (
                AppView {
                    last_command: if is_transient(line) {
                        self.last_command
                    } else {
                        Some(line)
                    },
                    history: if is_transient(line) {
                        self.history
                    } else {
                        self.history.push(line)
                    },
                    history_index: None,
                    output: self.output.push(prompt_line(line)),
                    ..self
                },
                Some(line),
            )
        }
    }

    /// The state after a command has ended.
    pub open spec fn finished(self, error: Option<Seq<char>>) -> Self {
        let told = match error {
            Some(error) => AppView { output: self.output.push("error: "@ + error), ..self },
            None => self,
        };
        told.ready()
    }

    /// The state with a command called back into the line that is typed.
    pub open spec fn recalled(self, i: usize) -> Self {
        AppView { history_index: Some(i), input: self.history[i as int], ..self }
    }

    /// The previous command called back; before the oldest comes the newest.
    pub open spec fn older(self) -> Self {
        let newest = (self.history.len() - 1) as usize;
        if self.history.len() == 0 {
            self
        } else {
            match self.history_index {
                Some(i) => if i > 0 {
                    self.recalled((i - 1) as usize)
                } else {
                    self.recalled(newest)
                },
                None => self.recalled(newest),
            }
        }
    }

    /// The next command called back, where one is called back; after the newest comes the
    /// oldest.
    pub open spec fn newer(self) -> Self {
        if self.history.len() == 0 {
            self
        } else {
            match self.history_index {
                Some(i) => if i < self.history.len() - 1 {
                    self.recalled((i + 1) as usize)
                } else {
                    self.recalled(0)
                },
                None => self,
            }
        }
    }

    /// The debug panel scrolled up or down, as far as that goes.
    pub open spec fn log_scrolled(self, by: int) -> Self {
        let sum = self.debug_scroll_offset + by;
        AppView {
            debug_scroll_offset: if sum > usize::MAX {
                usize::MAX
            } else if sum < 0 {
                0
            } else {
                sum as usize
            },
            ..self
        }
    }

    /// What a key does while the help window is open.
    pub open spec fn help_key(self, code: KeyCode) -> Self {
        let help = match code {
            KeyCode::Up => self.help.up(1),
            KeyCode::Down => self.help.down(1),
            KeyCode::PageUp => self.help.up(5),
            KeyCode::PageDown => self.help.down(5),
            KeyCode::Home => self.help.up(self.help.content.len() as usize),
            KeyCode::End => self.help.down(usize::MAX),
            KeyCode::Esc => HelpModalView::closed(),
            KeyCode::Enter => HelpModalView::closed(),
            KeyCode::Char(c) => if c == 'q' {
                HelpModalView::closed()
            } else {
                self.help
            },
            _ => self.help,
        };
        AppView { help, ..self }
    }

    /// What a key does while the search window is open.
    pub open spec fn addsig_key(self, code: KeyCode) -> (Self, EffectView<V>) {
        match code {
            KeyCode::Char(c) => (
                AppView { addsig: self.addsig.searching(self.addsig.input.push(c)), ..self },
                EffectView::MatchSignals,
            ),
            KeyCode::Backspace => (
                AppView {
                    addsig: self.addsig.searching(
                        if self.addsig.input.len() == 0 {
                            self.addsig.input
                        } else {
                            self.addsig.input.drop_last()
                        },
                    ),
                    ..self
                },
                EffectView::MatchSignals,
            ),
            KeyCode::Up => (
                AppView { addsig: self.addsig.prev(), ..self },
                EffectView::Nothing,
            ),
            KeyCode::Down => (
                AppView { addsig: self.addsig.next(), ..self },
                EffectView::Nothing,
            ),
            KeyCode::Enter => (
                AppView { addsig: AddSigView::<V>::fresh(false), ..self },
                match self.addsig.marked() {
                    Some(found) => EffectView::SelectSignal(found.0),
                    None => EffectView::Nothing,
                },
            ),
            KeyCode::Esc => (
                AppView { addsig: AddSigView::<V>::fresh(false), ..self },
                EffectView::Nothing,
            ),
            _ => (self, EffectView::Nothing),
        }
    }

    /// What a key does while no window is open. `logged` is how many messages the log
    /// holds, where that is known.
    pub open spec fn plain_key(self, key: KeyEvent, logged: Option<usize>) -> (
        Self,
        EffectView<V>,
    ) {
        match key.code {
            KeyCode::Char(c) => if c == 'd' && key.control {
                (AppView { should_quit: true, ..self }, EffectView::Nothing)
            } else if c == 'l' && key.control {
                (
                    AppView { output: Seq::empty(), scroll_offset: 0, ..self },
                    EffectView::Nothing,
                )
            } else {
                (
                    AppView { input: self.input.push(c), history_index: None, ..self },
                    EffectView::Nothing,
                )
            },
            KeyCode::PageUp => (
                if self.show_debug_panel {
                    self.log_scrolled(5)
                } else {
                    self
                },
                EffectView::Nothing,
            ),
            KeyCode::PageDown => (
                if self.show_debug_panel {
                    self.log_scrolled(-5)
                } else {
                    self
                },
                EffectView::Nothing,
            ),
            KeyCode::Home => (
                match logged {
                    Some(n) => if self.show_debug_panel {
                        AppView {
                            debug_scroll_offset: if n == 0 {
                                0
                            } else {
                                (n - 1) as usize
                            },
                            ..self
                        }
                    } else {
                        self
                    },
                    None => self,
                },
                EffectView::Nothing,
            ),
            KeyCode::End => (
                if self.show_debug_panel {
                    AppView { debug_scroll_offset: 0, ..self }
                } else {
                    self
                },
                EffectView::Nothing,
            ),
            KeyCode::Enter => {
                let (noted, command) = self.entered();
                match command {
                    Some(command) => (noted, running(command)),
                    None => (noted.ready(), EffectView::Nothing),
                }
            },
            KeyCode::Backspace => (
                AppView {
                    input: if self.input.len() == 0 {
                        self.input
                    } else {
                        self.input.drop_last()
                    },
                    history_index: None,
                    ..self
                },
                EffectView::Nothing,
            ),
            KeyCode::Up => (self.older(), EffectView::Nothing),
            KeyCode::Down => (self.newer(), EffectView::Nothing),
            _ => (self, EffectView::Nothing),
        }
    }

    /// What a key does, and what is to be done outside after it. The help window takes
    /// every key while it is open, else the search window does.
    pub open spec fn on_key(self, key: KeyEvent, logged: Option<usize>) -> (Self, EffectView<V>) {
        if self.help.active {
            (self.help_key(key.code), EffectView::Nothing)
        } else if self.addsig.active {
            self.addsig_key(key.code)
        } else {
            self.plain_key(key, logged)
        }
    }
}

impl<V> App<V> {
    /// The front end at its start, on what the debugger reports then.
    pub fn new(
        execution: Option<ExecutionSnapshot>,
        source: Option<Vec<String>>,
        signals: Option<Vec<String>>,
    ) -> (r: Self)
        ensures
            r@ == (AppView {
                should_quit: false,
                input: Seq::empty(),
                output: Seq::empty(),
                panels: panels_of(execution, source, signals),
                scroll_offset: 0,
                show_debug_panel: false,
                debug_scroll_offset: 0,
                show_split_view: true,
                last_command: None,
                history: Seq::empty(),
                history_index: None,
                addsig: AddSigView::<V>::fresh(false),
                help: HelpModalView::closed(),
                viewer_connected: false,
            }),
            r@.wf(),
    {
        let r = App {
            should_quit: false,
            input_buffer: String::new(),
            command_history: Vec::new(),
            view_state: ViewState::from_snapshots(execution, source, signals),
            scroll_offset: 0,
            show_debug_panel: false,
            debug_scroll_offset: 0,
            show_split_view: true,
            last_command: None,
            user_command_history: Vec::new(),
            history_index: None,
            addsig_state: AddSigState::new(),
            help_modal_state: HelpModalState::new(),
            viewer_connected: false,
        };
        assert(r@.output =~= Seq::<Seq<char>>::empty());
        assert(r@.history =~= Seq::<Seq<char>>::empty());
        r
    }

    /// Adds a line to the output.
    fn tell(&mut self, line: String)
        ensures
            final(self)@ == (AppView { output: old(self)@.output.push(line@), ..old(self)@ }),
    {
        proof {
            lines_push(self.command_history@, line);
        }
        self.command_history.push(line);
    }

    /// Takes the line that is typed as a command: notes it, and gives the name and the
    /// arguments to run. An empty line repeats the last command, where there is one.
    pub fn process_command(&mut self) -> (r: Option<(String, String)>)
        ensures
            final(self)@ == old(self)@.entered().0,
            match old(self)@.entered().1 {
                Some(command) => r matches Some((name, args)) && name@ == head_word(command)
                    && args@ == tail_words(command),
                None => r is None,
            },
    {
        let input = trim(self.input_buffer.as_str());
        let command = if input.as_str().is_empty() {
            match &self.last_command {
                Some(last) => last.clone(),
                None => {
                    return None;
                },
            }
        } else {
            if !transient(input.as_str()) {
                self.last_command = Some(input.clone());
                proof {
                    lines_push(self.user_command_history@, input);
                }
                self.user_command_history.push(input.clone());
            }
            self.history_index = None;
            input
        };
        self.tell(joined("(jpdb) ", command.as_str()));
        Some(split_command(command.as_str()))
    }

    /// Notes how a command ended: an error is told in the output.
    pub fn finish_command(&mut self, result: Result<(), String>)
        ensures
            final(self)@ == old(self)@.finished(
                match result {
                    Ok(_) => None,
                    Err(error) => Some(error@),
                },
            ),
    {
        if let Err(error) = result {
            self.tell(joined("error: ", error.as_str()));
        }
        self.input_buffer.clear();
        self.scroll_offset = 0;
    }

    /// Calls a command back into the line that is typed.
    fn recall(&mut self, i: usize)
        requires
            i < old(self)@.history.len(),
        ensures
            final(self)@ == old(self)@.recalled(i),
    {
        self.history_index = Some(i);
        self.input_buffer = self.user_command_history[i].clone();
    }

    /// What a key does while the help window is open.
    fn handle_help_key(&mut self, code: KeyCode)
        ensures
            final(self)@ == old(self)@.help_key(code),
    {
        match code {
            KeyCode::Up => self.help_modal_state.scroll_up(1),
            KeyCode::Down => self.help_modal_state.scroll_down(1),
            KeyCode::PageUp => self.help_modal_state.scroll_up(5),
            KeyCode::PageDown => self.help_modal_state.scroll_down(5),
            KeyCode::Home => {
                let content_len: usize = self.help_modal_state.get_content().len();
                self.help_modal_state.scroll_up(content_len);
            },
            KeyCode::End => self.help_modal_state.scroll_down(usize::MAX),
            KeyCode::Esc => self.help_modal_state.deactivate(),
            KeyCode::Enter => self.help_modal_state.deactivate(),
            KeyCode::Char(c) => {
                if c == 'q' {
                    self.help_modal_state.deactivate();
                }
            },
            _ => {},
        }
    }

    /// What a key does while the search window is open.
    fn handle_addsig_key(&mut self, code: KeyCode) -> (r: Effect<V>)
        requires
            old(self)@.wf(),
        ensures
            (final(self)@, r@) == old(self)@.addsig_key(code),
    {
        match code {
            KeyCode::Char(c) => {
                let mut input = self.addsig_state.get_input().to_string();
                input.push(c);
                self.addsig_state.update_search(input);
                Effect::MatchSignals
            },
            KeyCode::Backspace => {
                let mut input = self.addsig_state.get_input().to_string();
                input.pop();
                self.addsig_state.update_search(input);
                Effect::MatchSignals
            },
            KeyCode::Up => {
                self.addsig_state.select_prev();
                Effect::Nothing
            },
            KeyCode::Down => {
                self.addsig_state.select_next();
                Effect::Nothing
            },
            KeyCode::Enter => match self.addsig_state.take_selected() {
                Some(signal) => Effect::SelectSignal(signal),
                None => Effect::Nothing,
            },
            KeyCode::Esc => {
                self.addsig_state.deactivate();
                Effect::Nothing
            },
            _ => Effect::Nothing,
        }
    }

    /// What a key does while no window is open.
    fn handle_plain_key(&mut self, key: KeyEvent, logged: Option<usize>) -> (r: Effect<V>)
        requires
            old(self)@.wf(),
        ensures
            (final(self)@, r@) == old(self)@.plain_key(key, logged),
    {
        match key.code {
            KeyCode::Char(c) => {
                if c == 'd' && key.control {
                    self.should_quit = true;
                } else if c == 'l' && key.control {
                    self.command_history.clear();
                    self.scroll_offset = 0;
                    assert(self@.output =~= Seq::<Seq<char>>::empty());
                } else {
                    self.input_buffer.push(c);
                    self.history_index = None;
                }
            },
            KeyCode::PageUp => {
                if self.show_debug_panel {
                    self.debug_scroll_offset = self.debug_scroll_offset.saturating_add(5);
                }
            },
            KeyCode::PageDown => {
                if self.show_debug_panel {
                    self.debug_scroll_offset = self.debug_scroll_offset.saturating_sub(5);
                }
            },
            KeyCode::Home => {
                if self.show_debug_panel {
                    if let Some(n) = logged {
                        self.debug_scroll_offset = n.saturating_sub(1);
                    }
                }
            },
            KeyCode::End => {
                if self.show_debug_panel {
                    self.debug_scroll_offset = 0;
                }
            },
            KeyCode::Enter => {
                match self.process_command() {
                    Some((name, args)) => {
                        return Effect::RunCommand { name, args };
                    },
                    None => self.finish_command(Ok(())),
                }
            },
            KeyCode::Backspace => {
                self.input_buffer.pop();
                self.history_index = None;
            },
            KeyCode::Up => {
                if !self.user_command_history.is_empty() {
                    let newest: usize = self.user_command_history.len() - 1;
                    let i: usize = match self.history_index {
                        None => newest,
                        Some(i) => if i > 0 {
                            i - 1
                        } else {
                            newest
                        },
                    };
                    self.recall(i);
                }
            },
            KeyCode::Down => {
                if !self.user_command_history.is_empty() {
                    if let Some(i) = self.history_index {
                        if i < self.user_command_history.len() - 1 {
                            self.recall(i + 1);
                        } else {
                            self.recall(0);
                        }
                    }
                }
            },
            _ => {},
        }
        Effect::Nothing
    }

    /// What a key does, and what is to be done outside after it. The help window takes
    /// every key while it is open, else the search window does.
    pub fn handle_key(&mut self, key: KeyEvent, logged: Option<usize>) -> (r: Effect<V>)
        requires
            old(self)@.wf(),
        ensures
            (final(self)@, r@) == old(self)@.on_key(key, logged),
            final(self)@.wf(),
    {
        if self.help_modal_state.is_active() {
            self.handle_help_key(key.code);
            Effect::Nothing
        } else if self.addsig_state.is_active() {
            self.handle_addsig_key(key.code)
        } else {
            self.handle_plain_key(key, logged)
        }
    }

    /// Whether the front end goes on to wait for a key.
    pub fn is_running(&self) -> (r: bool)
        ensures
            r == !self@.should_quit,
    {
        !self.should_quit
    }

    /// Shows what the debugger reports; a report that failed is said to have failed.
    pub fn refresh_all_views(
        &mut self,
        execution: Option<ExecutionSnapshot>,
        source: Option<Vec<String>>,
        signals: Option<Vec<String>>,
    )
        ensures
            final(self)@ == (AppView {
                panels: panels_of(execution, source, signals),
                ..old(self)@
            }),
    {
        self.view_state = ViewState::from_snapshots(execution, source, signals);
    }

    /// Shows what the debugger reports of the signals, or its error.
    pub fn refresh_signal_view(&mut self, signals: Result<Vec<String>, String>)
        ensures
            final(self)@ == (AppView {
                panels: PanelLines {
                    signals: match signals {
                        Ok(found) => lines(found@),
                        Err(error) => seq!["Error getting signal info: "@ + error@],
                    },
                    ..old(self)@.panels
                },
                ..old(self)@
            }),
    {
        self.view_state.show_signals(signals);
    }

    /// Notes how a step of the debugger ended: an error is told in the output, and after
    /// success everything is shown anew.
    pub fn step_next(&mut self, stepped: Result<(), String>) -> (r: FollowUp)
        ensures
            match stepped {
                Ok(_) => r == FollowUp::RefreshAndSync && final(self)@ == old(self)@,
                Err(error) => r == FollowUp::Nothing && final(self)@ == (AppView {
                    output: old(self)@.output.push("Error stepping: "@ + error@),
                    ..old(self)@
                }),
            },
    {
        match stepped {
            Ok(_) => FollowUp::RefreshAndSync,
            Err(error) => {
                self.tell(joined("Error stepping: ", error.as_str()));
                FollowUp::Nothing
            },
        }
    }

    /// What follows a run of the debugger: its error, or the waveform viewer is brought to
    /// the current time.
    pub fn continue_execution(&self, continued: Result<(), String>) -> (r: Result<FollowUp, String>)
        ensures
            match continued {
                Ok(_) => r == Ok::<FollowUp, String>(FollowUp::Sync),
                Err(error) => r == Err::<FollowUp, String>(error),
            },
    {
        match continued {
            Ok(_) => Ok(FollowUp::Sync),
            Err(error) => Err(error),
        }
    }

    /// Notes whether the waveform viewer could be connected to: its error, or it is brought
    /// to the current time. A connection that fails leaves an earlier one as it is.
    pub fn connect_to_surfer<E>(&mut self, connected: Result<(), E>) -> (r: Result<FollowUp, E>)
        ensures
            match connected {
                Ok(_) => r == Ok::<FollowUp, E>(FollowUp::Sync) && final(self)@ == (AppView {
                    viewer_connected: true,
                    ..old(self)@
                }),
                Err(error) => r == Err::<FollowUp, E>(error) && final(self)@ == old(self)@,
            },
    {
        match connected {
            Ok(_) => {
                self.viewer_connected = true;
                Ok(FollowUp::Sync)
            },
            Err(error) => Err(error),
        }
    }

    /// The point of the time table that the waveform viewer is to be brought to: where the
    /// debugger stands, in 32 bits, if a viewer is connected and the debugger could tell.
    pub fn sync_waveform_position<E>(&self, time_idx: Result<u64, E>) -> (r: Option<u32>)
        ensures
            r == match time_idx {
                Ok(idx) => if self@.viewer_connected {
                    Some(#[verifier::truncate] (idx as u32))
                } else {
                    None
                },
                Err(_) => None,
            },
    {
        match time_idx {
            Ok(idx) => if self.viewer_connected {
                Some(#[verifier::truncate] (idx as u32))
            } else {
                None
            },
            Err(_) => None,
        }
    }
}

} // verus!
