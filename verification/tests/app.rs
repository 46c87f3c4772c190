//! Keys and commands.
use jpdb::app::App;
use jpdb::app::Effect;
use jpdb::app::FollowUp;
use jpdb::app::KeyCode;
use jpdb::app::KeyEvent;
use jpdb::view::ExecutionSnapshot;

fn key(code: KeyCode) -> KeyEvent {
    KeyEvent { code, control: false }
}

fn control(c: char) -> KeyEvent {
    KeyEvent { code: KeyCode::Char(c), control: true }
}

fn fresh() -> App<u32> {
    App::new(None, None, None)
}

/// Types a text, key by key.
fn write(app: &mut App<u32>, text: &str) {
    for c in text.chars() {
        assert!(matches!(app.handle_key(key(KeyCode::Char(c)), None), Effect::Nothing));
    }
}

/// Enters what is typed, and gives the command that is to run.
fn enter(app: &mut App<u32>) -> Option<(String, String)> {
    match app.handle_key(key(KeyCode::Enter), None) {
        Effect::RunCommand { name, args } => Some((name, args)),
        Effect::Nothing => None,
        _ => panic!("another effect"),
    }
}

/// Types a command, enters it, and lets it succeed.
fn command(app: &mut App<u32>, text: &str) {
    write(app, text);
    assert!(enter(app).is_some());
    app.finish_command(Ok(()));
}

fn pair(name: &str, args: &str) -> Option<(String, String)> {
    Some((name.to_string(), args.to_string()))
}

#[test]
fn front_end_starts_on_the_reports() {
    let app = fresh();
    assert!(app.is_running());
    assert!(app.show_split_view);
    assert!(!app.show_debug_panel);
    assert!(!app.viewer_connected);
    assert_eq!(app.view_state.execution_lines, vec!["Failed to load execution info"]);
    assert_eq!(app.view_state.instruction_lines, vec!["Failed to load execution info"]);
    assert_eq!(app.view_state.source_lines, vec!["Failed to load source info"]);
    assert_eq!(app.view_state.signal_lines, vec!["Failed to load signal info"]);
    let app: App<u32> = App::new(
        Some(ExecutionSnapshot {
            summary_lines: vec!["s".to_string()],
            instruction_lines: vec!["i".to_string()],
        }),
        Some(vec!["c".to_string()]),
        Some(vec!["w".to_string()]),
    );
    assert_eq!(app.view_state.execution_lines, vec!["s"]);
    assert_eq!(app.view_state.instruction_lines, vec!["i"]);
    assert_eq!(app.view_state.source_lines, vec!["c"]);
    assert_eq!(app.view_state.signal_lines, vec!["w"]);
}

#[test]
fn typed_line_is_edited() {
    let mut app = fresh();
    write(&mut app, "stepp");
    app.handle_key(key(KeyCode::Backspace), None);
    assert_eq!(app.input_buffer, "step");
    app.handle_key(key(KeyCode::Esc), None);
    app.handle_key(key(KeyCode::Other), None);
    assert_eq!(app.input_buffer, "step");
    let mut app = fresh();
    app.handle_key(key(KeyCode::Backspace), None);
    assert_eq!(app.input_buffer, "");
}

#[test]
fn command_runs_with_its_arguments() {
    let mut app = fresh();
    write(&mut app, "  break main.c 12  ");
    assert_eq!(enter(&mut app), pair("break", "main.c 12"));
    assert_eq!(app.command_history, vec!["(jpdb) break main.c 12"]);
    assert_eq!(app.user_command_history, vec!["break main.c 12"]);
    assert_eq!(app.last_command, Some("break main.c 12".to_string()));
    app.scroll_offset = 4;
    app.finish_command(Err("no such line".to_string()));
    assert_eq!(app.command_history[1], "error: no such line");
    assert_eq!(app.input_buffer, "");
    assert_eq!(app.scroll_offset, 0);
}

#[test]
fn empty_line_repeats_the_last_command() {
    let mut app = fresh();
    assert_eq!(enter(&mut app), None);
    assert!(app.command_history.is_empty());
    command(&mut app, "step 3");
    write(&mut app, "   ");
    assert_eq!(enter(&mut app), pair("step", "3"));
    app.finish_command(Ok(()));
    assert_eq!(app.command_history, vec!["(jpdb) step 3", "(jpdb) step 3"]);
    assert_eq!(app.user_command_history, vec!["step 3"]);
}

#[test]
fn transient_commands_are_not_recorded() {
    let mut app = fresh();
    command(&mut app, "next");
    for text in ["quit", "q", "clear", "cl"] {
        command(&mut app, text);
    }
    command(&mut app, "quit now");
    assert_eq!(app.user_command_history, vec!["next", "quit now"]);
    assert_eq!(app.last_command, Some("quit now".to_string()));
    assert_eq!(app.command_history.len(), 6);
}

#[test]
fn process_command_gives_name_and_arguments() {
    let mut app = fresh();
    app.input_buffer = "a b c".to_string();
    assert_eq!(app.process_command(), pair("a", "b c"));
    let mut app = fresh();
    assert_eq!(app.process_command(), None);
}

#[test]
fn commands_are_called_back() {
    let mut app = fresh();
    app.handle_key(key(KeyCode::Up), None);
    app.handle_key(key(KeyCode::Down), None);
    assert_eq!(app.history_index, None);
    for text in ["one", "two", "three"] {
        command(&mut app, text);
    }
    app.handle_key(key(KeyCode::Down), None);
    assert_eq!(app.input_buffer, "");
    let mut seen = vec![];
    for _ in 0..4 {
        app.handle_key(key(KeyCode::Up), None);
        seen.push(app.input_buffer.clone());
    }
    assert_eq!(seen, vec!["three", "two", "one", "three"]);
    app.handle_key(key(KeyCode::Down), None);
    assert_eq!(app.input_buffer, "one");
    app.handle_key(key(KeyCode::Down), None);
    assert_eq!(app.input_buffer, "two");
    app.handle_key(key(KeyCode::Up), None);
    assert_eq!(app.input_buffer, "one");
    write(&mut app, "!");
    assert_eq!(app.history_index, None);
    assert_eq!(app.input_buffer, "one!");
}

#[test]
fn control_keys_quit_and_clear() {
    let mut app = fresh();
    command(&mut app, "next");
    app.scroll_offset = 2;
    app.handle_key(control('l'), None);
    assert!(app.command_history.is_empty());
    assert_eq!(app.scroll_offset, 0);
    assert_eq!(app.user_command_history, vec!["next"]);
    app.handle_key(control('x'), None);
    assert_eq!(app.input_buffer, "x");
    write(&mut app, "d");
    assert!(app.is_running());
    app.handle_key(control('d'), None);
    assert!(!app.is_running());
}

#[test]
fn debug_panel_scrolls_while_it_is_shown() {
    let mut app = fresh();
    app.handle_key(key(KeyCode::PageUp), Some(100));
    app.handle_key(key(KeyCode::Home), Some(100));
    assert_eq!(app.debug_scroll_offset, 0);
    app.show_debug_panel = true;
    app.handle_key(key(KeyCode::PageUp), Some(100));
    app.handle_key(key(KeyCode::PageUp), Some(100));
    app.handle_key(key(KeyCode::PageDown), Some(100));
    assert_eq!(app.debug_scroll_offset, 5);
    app.handle_key(key(KeyCode::Home), Some(100));
    assert_eq!(app.debug_scroll_offset, 99);
    app.handle_key(key(KeyCode::Home), None);
    assert_eq!(app.debug_scroll_offset, 99);
    app.handle_key(key(KeyCode::End), Some(100));
    assert_eq!(app.debug_scroll_offset, 0);
    app.handle_key(key(KeyCode::PageDown), Some(100));
    assert_eq!(app.debug_scroll_offset, 0);
    app.handle_key(key(KeyCode::Home), Some(0));
    assert_eq!(app.debug_scroll_offset, 0);
    app.debug_scroll_offset = usize::MAX;
    app.handle_key(key(KeyCode::PageUp), Some(100));
    assert_eq!(app.debug_scroll_offset, usize::MAX);
}

#[test]
fn help_window_takes_the_keys() {
    let mut app = fresh();
    app.show_debug_panel = true;
    app.addsig_state.activate();
    app.help_modal_state.activate(vec!["a".to_string(); 30]);
    app.handle_key(key(KeyCode::Up), None);
    app.handle_key(key(KeyCode::PageUp), None);
    app.handle_key(key(KeyCode::Down), None);
    assert_eq!(app.help_modal_state.get_scroll_offset(), 5);
    app.handle_key(key(KeyCode::PageDown), None);
    assert_eq!(app.help_modal_state.get_scroll_offset(), 0);
    app.handle_key(key(KeyCode::Home), None);
    assert_eq!(app.help_modal_state.get_scroll_offset(), 30);
    app.handle_key(key(KeyCode::End), None);
    assert_eq!(app.help_modal_state.get_scroll_offset(), 0);
    app.handle_key(key(KeyCode::Char('x')), None);
    app.handle_key(control('d'), None);
    assert!(app.help_modal_state.is_active());
    assert!(app.is_running());
    assert_eq!(app.input_buffer, "");
    app.handle_key(key(KeyCode::Char('q')), None);
    assert!(!app.help_modal_state.is_active());
    for code in [KeyCode::Esc, KeyCode::Enter] {
        app.help_modal_state.activate(vec![]);
        app.handle_key(key(code), None);
        assert!(!app.help_modal_state.is_active());
    }
    assert!(app.addsig_state.is_active());
}

#[test]
fn search_window_takes_the_keys() {
    let mut app = fresh();
    app.addsig_state.activate();
    assert!(matches!(app.handle_key(key(KeyCode::Char('c')), None), Effect::MatchSignals));
    app.addsig_state.set_matches(vec![(7, "clk".to_string()), (8, "cpu".to_string())]);
    assert!(matches!(app.handle_key(key(KeyCode::Char('d')), None), Effect::MatchSignals));
    assert_eq!(app.addsig_state.get_input(), "cd");
    assert!(matches!(app.handle_key(key(KeyCode::Backspace), None), Effect::MatchSignals));
    assert_eq!(app.addsig_state.get_input(), "c");
    app.handle_key(control('d'), None);
    assert!(app.is_running());
    app.handle_key(key(KeyCode::Down), None);
    assert_eq!(app.addsig_state.get_selected_index(), 1);
    app.handle_key(key(KeyCode::Down), None);
    app.handle_key(key(KeyCode::Up), None);
    assert_eq!(app.addsig_state.get_selected_index(), 1);
    app.handle_key(key(KeyCode::Home), None);
    assert!(matches!(app.handle_key(key(KeyCode::Enter), None), Effect::SelectSignal(8)));
    assert!(!app.addsig_state.is_active());
    assert_eq!(app.input_buffer, "");
    app.addsig_state.activate();
    assert!(matches!(app.handle_key(key(KeyCode::Enter), None), Effect::Nothing));
    app.addsig_state.activate();
    assert!(matches!(app.handle_key(key(KeyCode::Backspace), None), Effect::MatchSignals));
    assert!(matches!(app.handle_key(key(KeyCode::Esc), None), Effect::Nothing));
    assert!(!app.addsig_state.is_active());
}

#[test]
fn step_is_told_or_followed_up() {
    let mut app = fresh();
    assert_eq!(app.step_next(Ok(())), FollowUp::RefreshAndSync);
    assert!(app.command_history.is_empty());
    assert_eq!(app.step_next(Err("stuck".to_string())), FollowUp::Nothing);
    assert_eq!(app.command_history, vec!["Error stepping: stuck"]);
    assert_eq!(app.continue_execution(Ok(())), Ok(FollowUp::Sync));
    assert_eq!(app.continue_execution(Err("no".to_string())), Err("no".to_string()));
}

#[test]
fn viewer_is_synced_while_connected() {
    let mut app = fresh();
    assert_eq!(app.sync_waveform_position::<()>(Ok(5)), None);
    assert_eq!(app.connect_to_surfer(Err("refused")), Err("refused"));
    assert!(!app.viewer_connected);
    assert_eq!(app.connect_to_surfer::<()>(Ok(())), Ok(FollowUp::Sync));
    assert_eq!(app.sync_waveform_position::<()>(Ok(5)), Some(5));
    assert_eq!(app.sync_waveform_position::<()>(Ok(0x1_0000_0007)), Some(7));
    assert_eq!(app.sync_waveform_position(Err("unknown")), None);
    assert_eq!(app.connect_to_surfer(Err("refused")), Err("refused"));
    assert!(app.viewer_connected);
}

#[test]
fn panels_are_refreshed() {
    let mut app = fresh();
    app.refresh_all_views(None, Some(vec!["c".to_string()]), None);
    assert_eq!(app.view_state.source_lines, vec!["c"]);
    assert_eq!(app.view_state.signal_lines, vec!["Failed to load signal info"]);
    app.refresh_signal_view(Ok(vec!["10 ps".to_string()]));
    assert_eq!(app.view_state.signal_lines, vec!["10 ps"]);
    app.refresh_signal_view(Err("gone".to_string()));
    assert_eq!(app.view_state.signal_lines, vec!["Error getting signal info: gone"]);
    assert_eq!(app.view_state.source_lines, vec!["c"]);
}
