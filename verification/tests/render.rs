//! What stands on the screen, and where.
use jpdb::app::App;
use jpdb::app::KeyCode;
use jpdb::app::KeyEvent;
use jpdb::layout::head_and_rest;
use jpdb::layout::in_three;
use jpdb::layout::in_two;
use jpdb::layout::Direction;
use jpdb::layout::Rect;
use jpdb::logger::AppLogger;
use jpdb::logger::Level;
use jpdb::logger::LogMessage;
use jpdb::render::Widget;
use jpdb::style::style_of;
use jpdb::style::style_of_level;
use jpdb::style::style_of_match;
use jpdb::style::Color;
use jpdb::style::LineKind;
use jpdb::style::Style;

fn rect(x: u16, y: u16, width: u16, height: u16) -> Rect {
    Rect { x, y, width, height }
}

fn plain(color: Color) -> Style {
    Style { fg: Some(color), bg: None, bold: false }
}

fn bold(color: Color) -> Style {
    Style { fg: Some(color), bg: None, bold: true }
}

fn fresh() -> App<u32> {
    App::new(None, None, None)
}

fn logged(n: usize) -> AppLogger {
    let mut log = AppLogger::new();
    for i in 0..n {
        log.log(LogMessage { level: Level::Warn, message: format!("m{}", i) });
    }
    log
}

/// The place, the title and the lines of a list.
fn list(widget: &Widget) -> (Rect, &'static str, Vec<String>) {
    match widget {
        Widget::List { area, title, rows, .. } => {
            (*area, *title, rows.iter().map(|r| r.text.clone()).collect())
        }
        _ => panic!("no list"),
    }
}

/// A share of so many cells, rounded.
fn share(cells: u16, percent: u16) -> u16 {
    ((u32::from(cells) * u32::from(percent) + 50) / 100) as u16
}

#[test]
fn shares_are_rounded() {
    for cells in (0..=300u16).chain([999, 1000, 4095, 32767, 50001, 65000]) {
        for (first, second) in [(70u16, 30u16), (40, 60), (50, 50), (1, 99), (0, 100), (100, 0)] {
            let at = share(cells, first);
            let (a, b) = in_two(Direction::Horizontal, rect(3, 5, cells, 9), first, second);
            assert_eq!(a, rect(3, 5, at, 9));
            assert_eq!(b, rect(3 + at, 5, cells - at, 9));
            let (a, b) = in_two(Direction::Vertical, rect(7, 0, 11, cells), first, second);
            assert_eq!(a, rect(7, 0, 11, at));
            assert_eq!(b, rect(7, at, 11, cells - at));
        }
    }
}

#[test]
fn three_shares_follow_each_other() {
    for cells in (0..=300u16).chain([999, 1000, 4095, 32767, 50001, 65000]) {
        for shares in [(30u16, 30u16, 40u16), (25, 50, 25), (20, 60, 20), (15, 70, 15), (33, 34, 33)] {
            let (one, two) = (share(cells, shares.0), share(cells, shares.0 + shares.1));
            let area = rect(1, 2, cells, 4);
            let (a, b, c) = in_three(Direction::Horizontal, area, shares.0, shares.1, shares.2);
            assert_eq!(a, rect(1, 2, one, 4));
            assert_eq!(b, rect(1 + one, 2, two - one, 4));
            assert_eq!(c, rect(1 + two, 2, cells - two, 4));
            let area = rect(1, 200, 3, cells);
            let (a, b, c) = in_three(Direction::Vertical, area, shares.0, shares.1, shares.2);
            assert_eq!(a, rect(1, 200, 3, one));
            assert_eq!(b, rect(1, 200 + one, 3, two - one));
            assert_eq!(c, rect(1, 200 + two, 3, cells - two));
        }
    }
}

#[test]
fn area_ends_with_the_screen() {
    let (a, b) = in_two(Direction::Horizontal, rect(65500, 1, 1000, 2), 40, 60);
    assert_eq!(a, rect(65500, 1, 14, 2));
    assert_eq!(b, rect(65514, 1, 21, 2));
    let (a, b) = head_and_rest(Direction::Vertical, rect(0, 65533, 4, 9), 3);
    assert_eq!(a, rect(0, 65533, 4, 2));
    assert_eq!(b, rect(0, 65535, 4, 0));
}

#[test]
fn head_gets_its_cells_first() {
    for cells in (0..=60u16).chain([1000, 65000]) {
        for length in [0u16, 1, 3, 10, 59, 65535] {
            let head = length.min(cells);
            let (a, b) = head_and_rest(Direction::Vertical, rect(2, 9, 5, cells), length);
            assert_eq!(a, rect(2, 9, 5, head));
            assert_eq!(b, rect(2, 9 + head, 5, cells - head));
            let (a, b) = head_and_rest(Direction::Horizontal, rect(2, 9, cells, 5), length);
            assert_eq!(a, rect(2, 9, head, 5));
            assert_eq!(b, rect(2 + head, 9, cells - head, 5));
        }
    }
}

#[test]
fn split_view_has_four_panels() {
    let mut app = fresh();
    app.refresh_all_views(None, Some(vec!["code".to_string()]), Some(vec!["5 ps".to_string()]));
    for i in 0..5 {
        app.command_history.push(format!("line {}", i));
    }
    app.input_buffer = "ste".to_string();
    let drawn = app.ui(rect(0, 0, 100, 40), None).unwrap();
    assert_eq!(drawn.len(), 4);
    let failed = vec!["Failed to load execution info".to_string()];
    assert_eq!(list(&drawn[0]), (rect(0, 0, 30, 28), "Instructions", failed));
    assert_eq!(list(&drawn[1]), (rect(30, 0, 30, 28), "Source Code", vec!["code".to_string()]));
    assert_eq!(list(&drawn[2]), (rect(60, 0, 40, 28), "Signals", vec!["5 ps".to_string()]));
    let (area, title, lines) = list(&drawn[3]);
    assert_eq!((area, title), (rect(0, 28, 100, 12), "Command"));
    assert_eq!(lines, vec!["line 2", "line 3", "line 4", "(jpdb) ste"]);
}

#[test]
fn combined_view_scrolls_the_output() {
    let mut app = fresh();
    app.show_split_view = false;
    for i in 0..20 {
        app.command_history.push(format!("line {}", i));
    }
    let drawn = app.ui(rect(0, 0, 80, 10), None).unwrap();
    assert_eq!(drawn.len(), 2);
    assert_eq!(list(&drawn[0]).0, rect(0, 0, 80, 4));
    assert_eq!(list(&drawn[0]).1, "Execution State");
    let (area, title, lines) = list(&drawn[1]);
    assert_eq!((area, title), (rect(0, 4, 80, 6), "Command History"));
    assert_eq!(lines, vec!["line 17", "line 18", "line 19", "(jpdb) "]);
    app.scroll_offset = 2;
    let drawn = app.ui(rect(0, 0, 80, 10), None).unwrap();
    assert_eq!(list(&drawn[1]).2, vec!["line 15", "line 16", "line 17", "line 18"]);
    app.scroll_offset = 99;
    let drawn = app.ui(rect(0, 0, 80, 10), None).unwrap();
    assert_eq!(list(&drawn[1]).2, vec!["line 0", "line 1", "line 2", "line 3"]);
    app.show_split_view = true;
    let drawn = app.ui(rect(0, 0, 80, 20), None).unwrap();
    assert_eq!(list(&drawn[3]).2, vec!["line 17", "line 18", "line 19", "(jpdb) "]);
}

#[test]
fn debug_panel_shows_the_log() {
    let mut app = fresh();
    app.show_debug_panel = true;
    let log = logged(30);
    let drawn = app.ui(rect(0, 0, 100, 12), Some(&log)).unwrap();
    assert_eq!(drawn.len(), 6);
    assert_eq!(list(&drawn[0]).0, rect(0, 0, 21, 8));
    let (area, title, lines) = list(&drawn[4]);
    assert_eq!(area, rect(70, 0, 30, 12));
    assert_eq!(title, "Debug (d to toggle, PgUp/PgDn to scroll, Home/End)");
    assert_eq!(lines.len(), 10);
    assert_eq!(lines[0], "[WARN] m20");
    assert_eq!(lines[9], "[WARN] m29");
    match drawn[5] {
        Widget::Scrollbar { area, total, position } => {
            assert_eq!((area, total, position), (rect(99, 1, 1, 10), 30, 20));
        }
        _ => panic!("no scrollbar"),
    }
    app.debug_scroll_offset = 3;
    let drawn = app.ui(rect(0, 0, 100, 12), Some(&log)).unwrap();
    assert_eq!(list(&drawn[4]).2[0], "[WARN] m17");
    let few = logged(2);
    let drawn = app.ui(rect(0, 0, 100, 12), Some(&few)).unwrap();
    assert_eq!(drawn.len(), 5);
    assert_eq!(list(&drawn[4]).2, vec!["[WARN] m0", "[WARN] m1"]);
    let drawn = app.ui(rect(0, 0, 100, 12), None).unwrap();
    assert!(list(&drawn[4]).2.is_empty());
}

#[test]
fn search_window_stands_on_top() {
    let mut app = fresh();
    app.addsig_state.activate();
    app.addsig_state.update_search("cl".to_string());
    app.addsig_state.set_matches(vec![(1, "clk".to_string()), (2, "clr".to_string())]);
    app.addsig_state.select_next();
    let drawn = app.ui(rect(0, 0, 100, 40), None).unwrap();
    assert_eq!(drawn.len(), 8);
    assert!(matches!(drawn[4], Widget::Clear(area) if area == rect(20, 10, 60, 20)));
    match &drawn[5] {
        Widget::Input { area, title, text } => {
            assert_eq!(*area, rect(20, 10, 60, 3));
            assert_eq!(*title, "Add Signal");
            assert_eq!(text, "Search: cl");
        }
        _ => panic!("no input"),
    }
    match &drawn[6] {
        Widget::List { area, title, rows, highlight } => {
            assert_eq!(*area, rect(20, 13, 60, 17));
            assert_eq!(*title, "Signals");
            assert_eq!(rows.len(), 2);
            assert_eq!(rows[0].style, plain(Color::White));
            assert_eq!(rows[1].text, "clr");
            assert_eq!(rows[1].style.bg, Some(Color::Blue));
            assert_eq!(*highlight, Some(Style { fg: None, bg: Some(Color::Blue), bold: true }));
        }
        _ => panic!("no list"),
    }
    match drawn[7] {
        Widget::Hint { area, text } => {
            assert_eq!(area, rect(20, 30, 60, 1));
            assert_eq!(text, "↑↓: Navigate | Enter: Select | Esc: Cancel");
        }
        _ => panic!("no hint"),
    }
}

#[test]
fn help_window_stands_on_top_of_the_search_window() {
    let mut app = fresh();
    app.addsig_state.activate();
    let content: Vec<String> = (0..40).map(|i| format!("help {}", i)).collect();
    app.help_modal_state.activate(content);
    app.help_modal_state.scroll_up(1);
    let drawn = app.ui(rect(0, 0, 100, 40), None).unwrap();
    assert_eq!(drawn.len(), 12);
    assert!(matches!(drawn[8], Widget::Clear(area) if area == rect(15, 8, 70, 24)));
    let (area, title, lines) = list(&drawn[9]);
    assert_eq!((area, title), (rect(15, 8, 70, 24), "Help (Press Esc, Enter, or 'q' to close)"));
    assert_eq!(lines.len(), 22);
    assert_eq!(lines[0], "help 17");
    match drawn[10] {
        Widget::Scrollbar { area, total, position } => {
            assert_eq!((area, total, position), (rect(84, 9, 1, 22), 40, 17));
        }
        _ => panic!("no scrollbar"),
    }
    match drawn[11] {
        Widget::Hint { area, text } => {
            assert_eq!(area, rect(15, 32, 70, 1));
            assert_eq!(
                text,
                "↑↓: Scroll | PgUp/PgDn: Page | Home/End: Top/Bottom | Esc/Enter/q: Close"
            );
        }
        _ => panic!("no hint"),
    }
    app.help_modal_state.activate(vec!["one".to_string()]);
    assert_eq!(app.ui(rect(0, 0, 100, 40), None).unwrap().len(), 11);
}

#[test]
fn home_and_end_lead_to_the_ends() {
    let screen = rect(0, 0, 100, 20);
    let home = KeyEvent { code: KeyCode::Home, control: false };
    let end = KeyEvent { code: KeyCode::End, control: false };
    let mut app = fresh();
    app.show_debug_panel = true;
    let log = logged(50);
    app.handle_key(home, Some(log.len()));
    let lines = list(&app.ui(screen, Some(&log)).unwrap()[4]).2;
    assert_eq!((lines[0].as_str(), lines.len()), ("[WARN] m0", 18));
    app.handle_key(end, Some(log.len()));
    let lines = list(&app.ui(screen, Some(&log)).unwrap()[4]).2;
    assert_eq!((lines[17].as_str(), lines.len()), ("[WARN] m49", 18));
    let mut app = fresh();
    app.help_modal_state.activate((0..50).map(|i| format!("h{}", i)).collect());
    app.handle_key(home, None);
    let lines = list(&app.ui(screen, None).unwrap()[5]).2;
    assert_eq!((lines[0].as_str(), lines.len()), ("h0", 10));
    app.handle_key(end, None);
    let lines = list(&app.ui(screen, None).unwrap()[5]).2;
    assert_eq!((lines[9].as_str(), lines.len()), ("h49", 10));
}

#[test]
fn empty_prompt_returns_after_a_command() {
    let mut app = fresh();
    app.show_split_view = false;
    for i in 0..20 {
        app.command_history.push(format!("line {}", i));
    }
    app.scroll_offset = 7;
    app.input_buffer = "step".to_string();
    app.handle_key(KeyEvent { code: KeyCode::Enter, control: false }, None);
    app.finish_command(Err("stuck".to_string()));
    let lines = list(&app.ui(rect(0, 0, 80, 10), None).unwrap()[1]).2;
    assert_eq!(lines, vec!["line 19", "(jpdb) step", "error: stuck", "(jpdb) "]);
}

#[test]
fn screen_can_be_too_small_for_a_scrollbar() {
    let mut app = fresh();
    assert!(app.ui(rect(0, 0, 0, 0), None).is_some());
    app.help_modal_state.activate(vec!["one".to_string()]);
    assert!(app.ui(rect(0, 0, 10, 1), None).is_none());
    assert!(app.ui(rect(0, 0, 10, 5), None).is_some());
    app.help_modal_state.deactivate();
    app.show_debug_panel = true;
    let log = logged(5);
    assert!(app.ui(rect(0, 0, 10, 1), Some(&log)).is_none());
    assert!(app.ui(rect(0, 0, 0, 3), Some(&log)).is_none());
    assert!(app.ui(rect(0, 0, 10, 2), Some(&log)).is_some());
    assert!(app.ui(rect(0, 0, 10, 1), None).is_some());
    assert!(app.ui(rect(0, 65535, 10, 2), Some(&log)).is_none());
}

#[test]
fn lines_of_code_are_styled() {
    assert_eq!(style_of(LineKind::Summary, 0, "-> 80"), bold(Color::Green));
    assert_eq!(style_of(LineKind::Summary, 0, "Errors"), plain(Color::Red));
    assert_eq!(style_of(LineKind::Code, 0, "Errors"), plain(Color::White));
    assert_eq!(style_of(LineKind::Code, 3, "Error: x"), plain(Color::Red));
    assert_eq!(style_of(LineKind::Code, 0, "->"), bold(Color::Green));
    assert_eq!(style_of(LineKind::Code, 0, " ->"), plain(Color::White));
}

#[test]
fn signal_lines_are_styled() {
    let style = |i: usize, line: &str| style_of(LineKind::Signals, i, line);
    assert_eq!(style(0, "120 ps"), bold(Color::Cyan));
    assert_eq!(style(1, "120 ps"), plain(Color::White));
    assert_eq!(style(0, "120ps"), plain(Color::White));
    assert_eq!(style(0, "Error: x"), plain(Color::Red));
    assert_eq!(style(2, "Error getting"), plain(Color::Red));
    assert_eq!(style(2, "Errors"), plain(Color::White));
    assert_eq!(style(1, "no waves found"), plain(Color::Yellow));
    assert_eq!(style(1, "No signals selected"), plain(Color::Yellow));
    assert_eq!(style(1, "No signals selected!"), plain(Color::White));
}

#[test]
fn command_lines_are_styled() {
    assert_eq!(style_of(LineKind::Commands, 0, "(jpdb) x"), bold(Color::Cyan));
    assert_eq!(style_of(LineKind::Commands, 0, "error: x"), plain(Color::Red));
    assert_eq!(style_of(LineKind::Commands, 0, "Error: x"), plain(Color::White));
}

#[test]
fn help_lines_are_styled() {
    let style = |line: &str| style_of(LineKind::Help, 0, line);
    assert_eq!(style("Current commands"), bold(Color::Cyan));
    assert_eq!(style("Help for step"), bold(Color::Cyan));
    assert_eq!(style("  step -- one step"), plain(Color::Yellow));
    assert_eq!(style(" step -- one step"), plain(Color::White));
    assert_eq!(style("  step"), plain(Color::White));
    for heading in ["Keyboard shortcuts:", "Description:", "Usage:", "Aliases:", "Examples:"] {
        assert_eq!(style(heading), bold(Color::Green));
    }
    assert_eq!(style("Example"), plain(Color::White));
}

#[test]
fn log_levels_and_matches_are_styled() {
    assert_eq!(style_of_level(Level::Error), plain(Color::Red));
    assert_eq!(style_of_level(Level::Warn), plain(Color::Yellow));
    assert_eq!(style_of_level(Level::Info), plain(Color::Blue));
    assert_eq!(style_of_level(Level::Debug), plain(Color::Gray));
    assert_eq!(style_of_level(Level::Trace), plain(Color::DarkGray));
    assert_eq!(style_of_match(false), plain(Color::White));
    assert_eq!(
        style_of_match(true),
        Style { fg: Some(Color::White), bg: Some(Color::Blue), bold: true }
    );
}
