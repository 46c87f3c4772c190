//! What stands on the screen, line by line and cell by cell.
use crate::app::AppView;
use crate::layout::extent;
use crate::layout::share;
use crate::layout::share_of;
use crate::layout::shares_are_in_order;
use crate::layout::Direction;
use crate::layout::Rect;
use crate::logger::level_name;
use crate::logger::AppLogger;
use crate::logger::LogMessage;
use crate::render::addsig_areas;
use crate::render::addsig_popup;
use crate::render::command_panel;
use crate::render::debug_area;
use crate::render::debug_panel;
use crate::render::drawable;
use crate::render::help_area;
use crate::render::help_popup;
use crate::render::list_of;
use crate::render::main_area;
use crate::render::main_widgets;
use crate::render::messages;
use crate::render::panel_areas;
use crate::render::ui_widgets;
use crate::render::widgets;
use crate::render::PanelAreas;
use crate::render::Widget;
use crate::render::WidgetView;
use crate::style::level_style;
use crate::style::line_style;
use crate::style::Color;
use crate::style::LineKind;
use crate::style::Style;
use crate::view::ViewState;
use vstd::prelude::*;

verus! {

/// What a widget stands for is what it holds.
pub proof fn widget_stands_for_what_it_holds(w: Widget)
    ensures
        match w {
            Widget::Clear(area) => w@ == WidgetView::Clear(area),
            Widget::List { area, title, rows, highlight } => w@ matches WidgetView::List {
                area: place,
                title: heading,
                rows: shown,
                highlight: chosen,
            } && {
                &&& place == area
                &&& heading == title@
                &&& chosen == highlight
                &&& shown.len() == rows@.len()
                &&& forall|i: int|
                    0 <= i < shown.len() ==> (#[trigger] shown[i]).text == rows@[i].text@
                        && shown[i].style == rows@[i].style
            },
            Widget::Scrollbar { area, total, position } => w@ == (WidgetView::Scrollbar {
                area,
                total: total as int,
                position: position as int,
            }),
            Widget::Input { area, title, text } => w@ == (WidgetView::Input {
                area,
                title: title@,
                text: text@,
            }),
            Widget::Hint { area, text } => w@ == (WidgetView::Hint { area, text: text@ }),
        },
{
}

/// The panels' lines are the texts of the strings that they hold.
pub proof fn panels_hold_their_lines(v: ViewState)
    ensures
        v@.execution.len() == v.execution_lines@.len(),
        forall|i: int|
            0 <= i < v@.execution.len() ==> #[trigger] v@.execution[i] == v.execution_lines@[i]@,
        v@.instructions.len() == v.instruction_lines@.len(),
        forall|i: int|
            0 <= i < v@.instructions.len() ==> #[trigger] v@.instructions[i]
                == v.instruction_lines@[i]@,
        v@.source.len() == v.source_lines@.len(),
        forall|i: int| 0 <= i < v@.source.len() ==> #[trigger] v@.source[i] == v.source_lines@[i]@,
        v@.signals.len() == v.signal_lines@.len(),
        forall|i: int|
            0 <= i < v@.signals.len() ==> #[trigger] v@.signals[i] == v.signal_lines@[i]@,
{
}

/// The compact command panel shows the prompt with what is typed as its last line, and above it
/// the last lines of the output in their order, the very last one next to it: as many of `n` as
/// there are and as fit. So an output of no more lines is shown whole.
pub proof fn recent_output_stands_over_the_prompt<V>(a: AppView<V>, area: Rect, n: int)
    requires
        n >= 0,
    ensures
        command_panel(a, area, false, n) matches WidgetView::List {
            area: place,
            title,
            rows,
            highlight,
        } && {
            let fit: int = if area.height < 2 {
                0
            } else {
                area.height - 2
            };
            let told: int = if a.output.len() < n {
                a.output.len() as int
            } else {
                n
            };
            &&& place == area
            &&& title == "Command"@
            &&& highlight is None
            &&& rows.len() == if told + 1 < fit {
                told + 1
            } else {
                fit
            }
            &&& rows.len() > 0 ==> rows[rows.len() - 1].text == "(jpdb) "@ + a.input
            &&& forall|k: int|
                #![trigger a.output[a.output.len() - k]]
                1 <= k < rows.len() ==> rows[rows.len() - 1 - k].text == a.output[a.output.len()
                    - k]
            &&& forall|k: int|
                0 <= k < rows.len() ==> (#[trigger] rows[k]).style == line_style(
                    LineKind::Commands,
                    k,
                    rows[k].text,
                )
        },
{
}

/// The full command panel shows the output and, after it, the prompt with what is typed. What
/// fits of them is shown without a gap, up to `scroll_offset` lines before the end, or from the
/// first line where there are not so many.
pub proof fn whole_output_can_be_shown<V>(a: AppView<V>, area: Rect, n: int)
    ensures
        command_panel(a, area, true, n) matches WidgetView::List {
            area: place,
            title,
            rows,
            highlight,
        } && {
            let fit: int = if area.height < 2 {
                0
            } else {
                area.height - 2
            };
            let total = a.output.len() + 1;
            let first: int = if total - fit - a.scroll_offset < 0 {
                0
            } else {
                total - fit - a.scroll_offset
            };
            &&& place == area
            &&& title == "Command History"@
            &&& highlight is None
            &&& rows.len() == if total < fit {
                total as int
            } else {
                fit
            }
            &&& forall|k: int|
                #![trigger rows[k]]
                0 <= k < rows.len() ==> rows[k].text == (if first + k < a.output.len() {
                    a.output[first + k]
                } else {
                    "(jpdb) "@ + a.input
                }) && rows[k].style == line_style(LineKind::Commands, k, rows[k].text)
        },
{
}

/// In the split view the first four widgets are the panels with the instructions, the source
/// code and the signals, each with all of its lines, and the commands with the last three
/// lines of the output.
pub proof fn split_view_is_drawn_first<V>(a: AppView<V>, logs: Seq<LogMessage>, area: Rect)
    requires
        a.show_split_view,
    ensures
        ({
            let w = ui_widgets(a, logs, area);
            &&& w.len() >= 4
            &&& w[0] matches WidgetView::List { area: _, title, rows, highlight } && {
                &&& title == "Instructions"@ && highlight is None
                &&& rows.len() == a.panels.instructions.len()
                &&& forall|k: int|
                    0 <= k < rows.len() ==> (#[trigger] rows[k]).text == a.panels.instructions[k]
                        && rows[k].style == line_style(LineKind::Code, k, rows[k].text)
            }
            &&& w[1] matches WidgetView::List { area: _, title, rows, highlight } && {
                &&& title == "Source Code"@ && highlight is None
                &&& rows.len() == a.panels.source.len()
                &&& forall|k: int|
                    0 <= k < rows.len() ==> (#[trigger] rows[k]).text == a.panels.source[k]
                        && rows[k].style == line_style(LineKind::Code, k, rows[k].text)
            }
            &&& w[2] matches WidgetView::List { area: _, title, rows, highlight } && {
                &&& title == "Signals"@ && highlight is None
                &&& rows.len() == a.panels.signals.len()
                &&& forall|k: int|
                    0 <= k < rows.len() ==> (#[trigger] rows[k]).text == a.panels.signals[k]
                        && rows[k].style == line_style(LineKind::Signals, k, rows[k].text)
            }
            &&& exists|place: Rect| w[3] == #[trigger] command_panel(a, place, false, 3)
        }),
{
    let panels = panel_areas(true, main_area(a.show_debug_panel, area));
    let first = main_widgets(a, panels);
    let w = ui_widgets(a, logs, area);
    assert(first.len() == 4);
    assert(forall|k: int| 0 <= k < 4 ==> #[trigger] w[k] == first[k]);
    assert(w[3] == command_panel(a, panels->Split_command, false, 3));
}

/// In the combined view the first two widgets are the execution state with all of its lines, and
/// the commands with the whole output.
pub proof fn combined_view_is_drawn_first<V>(a: AppView<V>, logs: Seq<LogMessage>, area: Rect)
    requires
        !a.show_split_view,
    ensures
        ({
            let w = ui_widgets(a, logs, area);
            &&& w.len() >= 2
            &&& w[0] matches WidgetView::List { area: _, title, rows, highlight } && {
                &&& title == "Execution State"@ && highlight is None
                &&& rows.len() == a.panels.execution.len()
                &&& forall|k: int|
                    0 <= k < rows.len() ==> (#[trigger] rows[k]).text == a.panels.execution[k]
                        && rows[k].style == line_style(LineKind::Summary, k, rows[k].text)
            }
            &&& exists|place: Rect| w[1] == #[trigger] command_panel(a, place, true, 0)
        }),
{
    let panels = panel_areas(false, main_area(a.show_debug_panel, area));
    let first = main_widgets(a, panels);
    let w = ui_widgets(a, logs, area);
    assert(first.len() == 2);
    assert(forall|k: int| 0 <= k < 2 ==> #[trigger] w[k] == first[k]);
    assert(w[1] == command_panel(a, panels->Combined_command, true, 0));
}

/// The debug panel shows what fits of the log without a gap, up to its scroll offset before the
/// end, or from the first message where there are not so many. Each message stands after its
/// level. Where not all fit, a scrollbar stands at the first one that is shown.
pub proof fn debug_panel_shows_the_log<V>(a: AppView<V>, area: Rect, logs: Seq<LogMessage>)
    ensures
        ({
            let w = debug_panel(a, area, logs);
            let fit: int = if area.height < 2 {
                0
            } else {
                area.height - 2
            };
            let first: int = if logs.len() - fit - a.debug_scroll_offset < 0 {
                0
            } else {
                logs.len() - fit - a.debug_scroll_offset
            };
            &&& w.len() == if logs.len() > fit {
                2int
            } else {
                1
            }
            &&& w[0] matches WidgetView::List { area: place, title, rows, highlight } && {
                &&& place == area
                &&& title == "Debug (d to toggle, PgUp/PgDn to scroll, Home/End)"@
                &&& highlight is None
                &&& rows.len() == if logs.len() < fit {
                    logs.len() as int
                } else {
                    fit
                }
                &&& forall|k: int|
                    0 <= k < rows.len() ==> (#[trigger] rows[k]).text == "["@ + level_name(
                        logs[first + k].level,
                    ) + "] "@ + logs[first + k].message@ && rows[k].style == level_style(
                        logs[first + k].level,
                    )
            }
            &&& logs.len() > fit ==> (w[1] matches WidgetView::Scrollbar {
                area: place,
                total,
                position,
            } && {
                &&& total == logs.len()
                &&& position == first
                &&& stands_on_the_right_border(area, place)
            })
        }),
{
}

/// A scrollbar's place: one column wide, on the right border of an area that has one, between
/// its corners.
pub open spec fn stands_on_the_right_border(area: Rect, bar: Rect) -> bool {
    1 <= area.x + area.width <= u16::MAX && area.y < u16::MAX && area.height >= 2 ==> {
        &&& bar.x + 1 == area.x + area.width
        &&& bar.width == 1
        &&& bar.y == area.y + 1
        &&& bar.height + 2 == area.height
    }
}

/// The help window blanks its place and shows what fits of its content without a gap, up to its
/// scroll offset before the end, or from the first line. Where not all fits, a scrollbar stands
/// at the first line that is shown. A hint comes last, in the line below.
pub proof fn help_window_shows_its_content<V>(a: AppView<V>, popup: Rect)
    requires
        popup.y + popup.height <= u16::MAX,
    ensures
        ({
            let w = help_popup(a.help, popup);
            let content = a.help.content;
            let fit: int = if popup.height < 2 {
                0
            } else {
                popup.height - 2
            };
            let first: int = if content.len() - fit - a.help.scroll_offset < 0 {
                0
            } else {
                content.len() - fit - a.help.scroll_offset
            };
            &&& w.len() == if content.len() > fit {
                4int
            } else {
                3
            }
            &&& w[0] == WidgetView::Clear(popup)
            &&& w[1] matches WidgetView::List { area: place, title, rows, highlight } && {
                &&& place == popup
                &&& title == "Help (Press Esc, Enter, or 'q' to close)"@
                &&& highlight is None
                &&& rows.len() == if content.len() < fit {
                    content.len() as int
                } else {
                    fit
                }
                &&& forall|k: int|
                    0 <= k < rows.len() ==> (#[trigger] rows[k]).text == content[first + k]
                        && rows[k].style == line_style(LineKind::Help, k, rows[k].text)
            }
            &&& content.len() > fit ==> (w[2] matches WidgetView::Scrollbar {
                area: place,
                total,
                position,
            } && {
                &&& total == content.len()
                &&& position == first
                &&& stands_on_the_right_border(popup, place)
            })
            &&& w[w.len() - 1] matches WidgetView::Hint { area: place, text } && {
                &&& text
                    == "↑↓: Scroll | PgUp/PgDn: Page | Home/End: Top/Bottom | Esc/Enter/q: Close"@
                &&& place.x == popup.x && place.width == popup.width && place.height == 1
                &&& place.y == popup.y + popup.height
            }
        }),
{
}

/// The search window blanks its place and shows what is searched for, every match under its
/// name with the marked one on blue, and a hint in the line below.
pub proof fn search_window_shows_its_matches<V>(a: AppView<V>, area: Rect)
    ensures
        ({
            let places = addsig_areas(area);
            let s = a.addsig;
            let w = addsig_popup(s, places);
            &&& w.len() == 4
            &&& w[0] == WidgetView::Clear(places.popup)
            &&& w[1] == (WidgetView::Input {
                area: places.input,
                title: "Add Signal"@,
                text: "Search: "@ + s.input,
            })
            &&& w[2] matches WidgetView::List { area: place, title, rows, highlight } && {
                &&& place == places.results
                &&& title == "Signals"@
                &&& highlight == Some(Style { fg: None, bg: Some(Color::Blue), bold: true })
                &&& rows.len() == s.matches.len()
                &&& forall|k: int|
                    0 <= k < rows.len() ==> (#[trigger] rows[k]).text == s.matches[k].1@
                        && rows[k].style == if k == s.selected {
                        Style { fg: Some(Color::White), bg: Some(Color::Blue), bold: true }
                    } else {
                        Style { fg: Some(Color::White), bg: None, bold: false }
                    }
            }
            &&& w[3] matches WidgetView::Hint { area: place, text } && {
                &&& text == "↑↓: Navigate | Enter: Select | Esc: Cancel"@
                &&& place.x == places.popup.x && place.width == places.popup.width
                &&& place.height == 1
                &&& place.y == places.popup.y + places.popup.height
            }
        }),
{
    crate::render::hint_always_fits(area, 25, 20);
}

/// After the panels come, in this order, the debug panel where it is shown, the search window
/// where it is open and the help window where it is open, and nothing else.
pub proof fn parts_are_drawn_in_order<V>(a: AppView<V>, logs: Seq<LogMessage>, area: Rect)
    ensures
        ({
            let panels = main_widgets(
                a,
                panel_areas(a.show_split_view, main_area(a.show_debug_panel, area)),
            );
            let none = Seq::<WidgetView>::empty();
            let debug = if a.show_debug_panel {
                debug_panel(a, debug_area(area), logs)
            } else {
                none
            };
            let search = if a.addsig.active {
                addsig_popup(a.addsig, addsig_areas(area))
            } else {
                none
            };
            let help = if a.help.active {
                help_popup(a.help, help_area(area))
            } else {
                none
            };
            &&& panels.len() == if a.show_split_view {
                4int
            } else {
                2
            }
            &&& ui_widgets(a, logs, area) == panels + debug + search + help
        }),
{
}

/// The screen is drawn exactly where each scrollbar that is to be drawn has a right border to
/// stand on: an area that has a column, does not begin at the last row, and has two rows.
pub proof fn scrollbars_decide_what_can_be_drawn<V>(
    a: AppView<V>,
    logs: Seq<LogMessage>,
    area: Rect,
)
    ensures
        ({
            let d = debug_area(area);
            let h = help_area(area);
            let debug_fit: int = if d.height < 2 {
                0
            } else {
                d.height - 2
            };
            let help_fit: int = if h.height < 2 {
                0
            } else {
                h.height - 2
            };
            drawable(a, logs, area) <==> {
                &&& a.show_debug_panel && logs.len() > debug_fit ==> {
                    &&& 1 <= d.x + d.width <= u16::MAX
                    &&& d.y < u16::MAX
                    &&& d.height >= 2
                }
                &&& a.help.active && a.help.content.len() > help_fit ==> {
                    &&& 1 <= h.x + h.width <= u16::MAX
                    &&& h.y < u16::MAX
                    &&& h.height >= 2
                }
            }
        }),
{
}

/// So many cells in hundredths, rounded.
pub open spec fn hundredths(cells: int, percent: int) -> int {
    (cells * percent + 50) / 100
}

proof fn strip_is_exact(direction: Direction, area: Rect, from: int, to: int)
    requires
        area.x + area.width <= u16::MAX,
        area.y + area.height <= u16::MAX,
        0 <= from <= to <= 100,
    ensures
        ({
            let part = share_of(direction, area, from, to);
            match direction {
                Direction::Horizontal => {
                    &&& part.x == area.x + hundredths(area.width as int, from)
                    &&& part.x + part.width == area.x + hundredths(area.width as int, to)
                    &&& part.y == area.y && part.height == area.height
                },
                Direction::Vertical => {
                    &&& part.y == area.y + hundredths(area.height as int, from)
                    &&& part.y + part.height == area.y + hundredths(area.height as int, to)
                    &&& part.x == area.x && part.width == area.width
                },
            }
        }),
        0 <= hundredths(extent(direction, area), from) <= hundredths(extent(direction, area), to)
            <= extent(direction, area),
        hundredths(extent(direction, area), 0) == 0,
        hundredths(extent(direction, area), 100) == extent(direction, area),
{
    shares_are_in_order(extent(direction, area), from, to);
    assert(share(extent(direction, area), from) == hundredths(extent(direction, area), from));
    assert(share(extent(direction, area), to) == hundredths(extent(direction, area), to));
}

/// The debug panel takes the right three tenths of the screen, where it is shown; the panels get
/// what is left, or all.
pub proof fn debug_panel_takes_three_tenths(area: Rect)
    requires
        area.x + area.width <= u16::MAX,
        area.y + area.height <= u16::MAX,
    ensures
        main_area(false, area) == area,
        ({
            let main = main_area(true, area);
            let debug = debug_area(area);
            &&& main.x == area.x && main.width == hundredths(area.width as int, 70)
            &&& debug.x == main.x + main.width && debug.x + debug.width == area.x + area.width
            &&& main.y == area.y && main.height == area.height
            &&& debug.y == area.y && debug.height == area.height
        }),
{
    strip_is_exact(Direction::Horizontal, area, 0, 70);
    strip_is_exact(Direction::Horizontal, area, 70, 100);
}

/// In the split view the commands take the lower three tenths, and the instructions, the source
/// code and the signals stand side by side over them, on three, three and four tenths of the
/// width. In the combined view the execution state takes the upper four tenths.
pub proof fn panels_divide_their_area(main: Rect)
    requires
        main.x + main.width <= u16::MAX,
        main.y + main.height <= u16::MAX,
    ensures
        panel_areas(true, main) matches PanelAreas::Split {
            instructions,
            source,
            signals,
            command,
        } && {
            &&& instructions.x == main.x
            &&& instructions.width == hundredths(main.width as int, 30)
            &&& source.x == instructions.x + instructions.width
            &&& source.x + source.width == main.x + hundredths(main.width as int, 60)
            &&& signals.x == source.x + source.width
            &&& signals.x + signals.width == main.x + main.width
            &&& instructions.y == main.y && source.y == main.y && signals.y == main.y
            &&& instructions.height == hundredths(main.height as int, 70)
            &&& source.height == instructions.height && signals.height == instructions.height
            &&& command.x == main.x && command.width == main.width
            &&& command.y == main.y + instructions.height
            &&& command.y + command.height == main.y + main.height
        },
        panel_areas(false, main) matches PanelAreas::Combined { execution, command } && {
            &&& execution.x == main.x && execution.width == main.width
            &&& execution.y == main.y && execution.height == hundredths(main.height as int, 40)
            &&& command.x == main.x && command.width == main.width
            &&& command.y == main.y + execution.height
            &&& command.y + command.height == main.y + main.height
        },
{
    strip_is_exact(Direction::Vertical, main, 0, 70);
    strip_is_exact(Direction::Vertical, main, 70, 100);
    strip_is_exact(Direction::Vertical, main, 0, 40);
    strip_is_exact(Direction::Vertical, main, 40, 100);
    let top = share_of(Direction::Vertical, main, 0, 70);
    strip_is_exact(Direction::Horizontal, top, 0, 30);
    strip_is_exact(Direction::Horizontal, top, 30, 60);
    strip_is_exact(Direction::Horizontal, top, 60, 100);
}

/// The panels are drawn at their places.
pub proof fn panels_are_drawn_at_their_places<V>(a: AppView<V>, logs: Seq<LogMessage>, area: Rect)
    ensures
        ({
            let w = ui_widgets(a, logs, area);
            match panel_areas(a.show_split_view, main_area(a.show_debug_panel, area)) {
                PanelAreas::Split { instructions, source, signals, command } => {
                    &&& w[0] matches WidgetView::List { area: place, .. } && place == instructions
                    &&& w[1] matches WidgetView::List { area: place, .. } && place == source
                    &&& w[2] matches WidgetView::List { area: place, .. } && place == signals
                    &&& w[3] matches WidgetView::List { area: place, .. } && place == command
                },
                PanelAreas::Combined { execution, command } => {
                    &&& w[0] matches WidgetView::List { area: place, .. } && place == execution
                    &&& w[1] matches WidgetView::List { area: place, .. } && place == command
                },
            }
        }),
{
    let first = main_widgets(a, panel_areas(a.show_split_view, main_area(a.show_debug_panel, area)));
    let w = ui_widgets(a, logs, area);
    assert(w.len() >= first.len());
    assert(forall|k: int| 0 <= k < first.len() ==> #[trigger] w[k] == first[k]);
}

/// The search window leaves a quarter of the height free above and below and a fifth of the
/// width on each side; its upper three rows take what is searched for, as far as it has them,
/// and the rest the matches. The help window leaves a fifth of the height and fifteen
/// hundredths of the width.
pub proof fn windows_stand_in_the_middle(area: Rect)
    requires
        area.x + area.width <= u16::MAX,
        area.y + area.height <= u16::MAX,
    ensures
        ({
            let places = addsig_areas(area);
            let popup = places.popup;
            &&& popup.x == area.x + hundredths(area.width as int, 20)
            &&& popup.x + popup.width == area.x + hundredths(area.width as int, 80)
            &&& popup.y == area.y + hundredths(area.height as int, 25)
            &&& popup.y + popup.height == area.y + hundredths(area.height as int, 75)
            &&& places.input.x == popup.x && places.input.width == popup.width
            &&& places.input.y == popup.y
            &&& places.input.height == if popup.height < 3 {
                popup.height
            } else {
                3
            }
            &&& places.results.x == popup.x && places.results.width == popup.width
            &&& places.results.y == popup.y + places.input.height
            &&& places.results.y + places.results.height == popup.y + popup.height
        }),
        ({
            let popup = help_area(area);
            &&& popup.x == area.x + hundredths(area.width as int, 15)
            &&& popup.x + popup.width == area.x + hundredths(area.width as int, 85)
            &&& popup.y == area.y + hundredths(area.height as int, 20)
            &&& popup.y + popup.height == area.y + hundredths(area.height as int, 80)
        }),
{
    strip_is_exact(Direction::Vertical, area, 25, 75);
    strip_is_exact(Direction::Horizontal, area, 20, 80);
    strip_is_exact(Direction::Vertical, area, 20, 80);
    strip_is_exact(Direction::Horizontal, area, 15, 85);
    let band = share_of(Direction::Vertical, area, 25, 75);
    strip_is_exact(Direction::Horizontal, band, 20, 80);
    let band = share_of(Direction::Vertical, area, 20, 80);
    strip_is_exact(Direction::Horizontal, band, 15, 85);
}

/// A list of widgets stands for each of them, in the same order.
pub proof fn every_widget_is_drawn(all: Seq<Widget>)
    ensures
        widgets(all).len() == all.len(),
        forall|i: int| 0 <= i < all.len() ==> #[trigger] widgets(all)[i] == all[i]@,
{
}

/// The log that is shown is the whole log, and an empty one where it cannot be read.
pub proof fn whole_log_is_shown(log: AppLogger)
    ensures
        messages(Some(&log)) == log@,
        messages(None).len() == 0,
{
}

/// A plain list has a row for each of its lines, in the same order, each as its kind looks.
pub proof fn list_has_a_row_for_each_line(
    area: Rect,
    title: Seq<char>,
    kind: LineKind,
    texts: Seq<Seq<char>>,
)
    ensures
        list_of(area, title, kind, texts) matches WidgetView::List {
            area: place,
            title: heading,
            rows,
            highlight,
        } && {
            &&& place == area
            &&& heading == title
            &&& highlight is None
            &&& rows.len() == texts.len()
            &&& forall|k: int|
                0 <= k < rows.len() ==> (#[trigger] rows[k]).text == texts[k] && rows[k].style
                    == line_style(kind, k, texts[k])
        },
{
}

} // verus!
