//! The search window, the help window, the log, and what is visible of a list.
use jpdb::addsig::AddSigState;
use jpdb::help_modal::HelpModalState;
use jpdb::logger::AppLogger;
use jpdb::logger::Level;
use jpdb::logger::LogMessage;
use jpdb::window::visible_window;

fn named(n: u32) -> Vec<(u32, String)> {
    (0..n).map(|i| (i, format!("signal {}", i))).collect()
}

#[test]
fn search_window_starts_closed_and_empty() {
    let window: AddSigState<u32> = AddSigState::default();
    assert!(!window.is_active());
    assert_eq!(window.get_input(), "");
    assert!(window.get_matches().is_empty());
    assert_eq!(window.get_selected_index(), 0);
    assert!(window.get_selected().is_none());
}

#[test]
fn ten_matches_are_offered() {
    let mut window = AddSigState::new();
    window.activate();
    assert!(window.is_active());
    window.update_search("clk".to_string());
    window.set_matches(named(12));
    assert_eq!(window.get_input(), "clk");
    assert_eq!(window.get_matches().len(), 10);
    assert_eq!(window.get_matches()[9], (9, "signal 9".to_string()));
    window.set_matches(named(3));
    assert_eq!(window.get_matches().len(), 3);
}

#[test]
fn mark_goes_round() {
    let mut window = AddSigState::new();
    window.activate();
    window.select_next();
    window.select_prev();
    assert_eq!(window.get_selected_index(), 0);
    window.set_matches(named(3));
    let mut seen = vec![];
    for _ in 0..4 {
        seen.push(window.get_selected_index());
        window.select_next();
    }
    assert_eq!(seen, vec![0, 1, 2, 0]);
    assert_eq!(window.get_selected_index(), 1);
    window.select_prev();
    window.select_prev();
    assert_eq!(window.get_selected_index(), 2);
    assert_eq!(window.get_selected(), Some(&(2, "signal 2".to_string())));
}

#[test]
fn mark_stays_on_a_match() {
    let mut window = AddSigState::new();
    window.set_matches(named(5));
    window.select_prev();
    assert_eq!(window.get_selected_index(), 4);
    window.set_matches(named(2));
    assert_eq!(window.get_selected_index(), 1);
    window.set_matches(named(0));
    assert_eq!(window.get_selected_index(), 0);
    assert!(window.get_selected().is_none());
    window.set_matches(named(4));
    window.select_next();
    window.update_search("x".to_string());
    assert_eq!(window.get_selected_index(), 0);
}

#[test]
fn marked_signal_is_handed_out() {
    let mut window = AddSigState::new();
    window.activate();
    window.set_matches(named(4));
    window.select_next();
    assert_eq!(window.take_selected(), Some(1));
    assert!(!window.is_active());
    assert!(window.get_matches().is_empty());
    assert_eq!(window.take_selected(), None);
    window.activate();
    window.update_search("x".to_string());
    window.deactivate();
    assert!(!window.is_active());
    assert_eq!(window.get_input(), "");
}

#[test]
fn help_window_scrolls() {
    let mut help = HelpModalState::default();
    assert!(!help.is_active());
    help.activate(vec!["a".to_string(), "b".to_string()]);
    assert!(help.is_active());
    assert_eq!(help.get_content().len(), 2);
    help.scroll_up(3);
    help.scroll_up(4);
    assert_eq!(help.get_scroll_offset(), 7);
    help.scroll_down(4);
    assert_eq!(help.get_scroll_offset(), 3);
    help.scroll_down(usize::MAX);
    assert_eq!(help.get_scroll_offset(), 0);
    help.scroll_up(usize::MAX);
    help.scroll_up(1);
    assert_eq!(help.get_scroll_offset(), usize::MAX);
    help.activate(vec!["c".to_string()]);
    assert_eq!(help.get_scroll_offset(), 0);
    help.deactivate();
    assert!(!help.is_active());
    assert!(help.get_content().is_empty());
}

#[test]
fn log_keeps_the_last_thousand() {
    let mut log = AppLogger::new();
    assert_eq!(log.len(), 0);
    assert!(log.enabled(Level::Trace));
    for i in 0..1003 {
        log.log(LogMessage { level: Level::Info, message: format!("{}", i) });
        assert_eq!(log.len(), if i < 1000 { i + 1 } else { 1000 });
    }
    assert_eq!(log.message(0).message, "3");
    assert_eq!(log.message(999).message, "1002");
}

#[test]
fn levels_have_names() {
    let levels = [Level::Error, Level::Warn, Level::Info, Level::Debug, Level::Trace];
    let names: Vec<&str> = levels.iter().map(|l| l.name()).collect();
    assert_eq!(names, vec!["ERROR", "WARN", "INFO", "DEBUG", "TRACE"]);
}

#[test]
fn window_shows_the_end_unless_scrolled() {
    assert_eq!(visible_window(5, 10, 0), (0, 5));
    assert_eq!(visible_window(5, 10, 3), (0, 5));
    assert_eq!(visible_window(20, 5, 0), (15, 20));
    assert_eq!(visible_window(20, 5, 1), (14, 19));
    assert_eq!(visible_window(20, 5, 15), (0, 5));
    assert_eq!(visible_window(20, 5, usize::MAX), (0, 5));
    assert_eq!(visible_window(20, 0, 0), (20, 20));
    assert_eq!(visible_window(0, 0, 7), (0, 0));
    assert_eq!(visible_window(usize::MAX, 1, usize::MAX), (0, 1));
}

#[test]
fn every_line_can_be_scrolled_into_view() {
    for total in 1..12usize {
        for available in 1..6usize {
            for line in 0..total {
                let shown = (0..=total).any(|offset| {
                    let (start, end) = visible_window(total, available, offset);
                    start <= line && line < end
                });
                assert!(shown);
            }
        }
    }
}
