//! What stands on the screen: the widgets to draw, their places, and what each shows.
use crate::addsig::AddSigView;
use crate::app::prompt_line;
use crate::app::App;
use crate::app::AppView;
use crate::help_modal::HelpModalView;
use crate::layout::at_most;
use crate::layout::extent;
use crate::layout::head_and_rest;
use crate::layout::in_three;
use crate::layout::in_two;
use crate::layout::inside;
use crate::layout::share_of;
use crate::layout::shares_are_in_order;
use crate::layout::shares_lie_inside;
use crate::layout::strip;
use crate::layout::Direction;
use crate::layout::Rect;
use crate::logger::level_name;
use crate::logger::AppLogger;
use crate::logger::LogMessage;
use crate::style::level_style;
use crate::style::line_style;
use crate::style::match_style;
use crate::style::style_of;
use crate::style::style_of_level;
use crate::style::style_of_match;
use crate::style::Color;
use crate::style::LineKind;
use crate::style::Style;
use crate::text::joined;
use crate::text::lines;
use crate::text::lines_push;
use crate::window::visible_window;
use crate::window::window;
use crate::window::window_start;
use vstd::prelude::*;

verus! {

/// A line of a list, and how it looks.
pub struct Row {
    pub text: String,
    pub style: Style,
}

/// What a [`Row`] stands for.
pub struct RowView {
    pub text: Seq<char>,
    pub style: Style,
}

impl View for Row {
    type V = RowView;

    open spec fn view(&self) -> RowView {
        RowView { text: self.text@, style: self.style }
    }
}

/// The rows of a list.
pub open spec fn rows_of(rows: Seq<Row>) -> Seq<RowView> {
    rows.map_values(|row: Row| row@)
}

/// Something to draw.
pub enum Widget {
    /// Blank what stands in an area.
    Clear(Rect),
    /// A bordered list under a title. A chosen line would look as `highlight` says.
    List { area: Rect, title: &'static str, rows: Vec<Row>, highlight: Option<Style> },
    /// A scrollbar, for so many lines, at the given one.
    Scrollbar { area: Rect, total: usize, position: usize },
    /// A bordered line of input under a title.
    Input { area: Rect, title: &'static str, text: String },
    /// A centred line in gray.
    Hint { area: Rect, text: &'static str },
}

/// What a [`Widget`] stands for.
pub enum WidgetView {
    Clear(Rect),
    List { area: Rect, title: Seq<char>, rows: Seq<RowView>, highlight: Option<Style> },
    Scrollbar { area: Rect, total: int, position: int },
    Input { area: Rect, title: Seq<char>, text: Seq<char> },
    Hint { area: Rect, text: Seq<char> },
}

impl View for Widget {
    type V = WidgetView;

    open spec fn view(&self) -> WidgetView {
        match *self {
            Widget::Clear(area) => WidgetView::Clear(area),
            Widget::List { area, title, rows, highlight } => WidgetView::List {
                area,
                title: title@,
                rows: rows_of(rows@),
                highlight,
            },
            Widget::Scrollbar { area, total, position } => WidgetView::Scrollbar {
                area,
                total: total as int,
                position: position as int,
            },
            Widget::Input { area, title, text } => WidgetView::Input {
                area,
                title: title@,
                text: text@,
            },
            Widget::Hint { area, text } => WidgetView::Hint { area, text: text@ },
        }
    }
}

/// The widgets of a list.
pub open spec fn widgets(all: Seq<Widget>) -> Seq<WidgetView> {
    all.map_values(|w: Widget| w@)
}

/// Texts as rows of a kind.
pub open spec fn styled(kind: LineKind, texts: Seq<Seq<char>>) -> Seq<RowView> {
    texts.map(|i: int, text: Seq<char>| RowView { text, style: line_style(kind, i, text) })
}

/// A plain list of lines of a kind.
pub open spec fn list_of(
    area: Rect,
    title: Seq<char>,
    kind: LineKind,
    texts: Seq<Seq<char>>,
) -> WidgetView {
    WidgetView::List { area, title, rows: styled(kind, texts), highlight: None }
}

/// How many lines fit between the borders of an area.
pub open spec fn room(area: Rect) -> int {
    if area.height < 2 {
        0
    } else {
        area.height - 2
    }
}

/// How many lines fit between the borders of an area.
fn available_height(area: Rect) -> (r: usize)
    ensures
        r == room(area),
{
    area.height.saturating_sub(2) as usize
}

/// The scrollbar's place: the right border of an area, between its corners.
pub open spec fn scrollbar_area(area: Rect) -> Rect {
    Rect {
        x: (area.x + area.width - 1) as u16,
        y: (area.y + 1) as u16,
        width: 1,
        height: (area.height - 2) as u16,
    }
}

/// An area has a right border with room between its corners.
pub open spec fn has_scrollbar_area(area: Rect) -> bool {
    &&& 1 <= area.x + area.width <= u16::MAX
    &&& area.y < u16::MAX
    &&& area.height >= 2
}

/// The line below an area.
pub open spec fn below(area: Rect) -> Rect {
    Rect { x: area.x, y: (area.y + area.height) as u16, width: area.width, height: 1 }
}

/// There is a line below an area.
pub open spec fn has_below(area: Rect) -> bool {
    area.y + area.height <= u16::MAX
}

/// A scrollbar, where not all lines fit.
pub open spec fn scrollbar_for(area: Rect, total: int, offset: int) -> Seq<WidgetView> {
    if total > room(area) {
        seq![
            WidgetView::Scrollbar {
                area: scrollbar_area(area),
                total,
                position: window_start(total, room(area), offset),
            },
        ]
    } else {
        seq![]
    }
}

/// The panel with the execution state.
pub open spec fn execution_panel<V>(a: AppView<V>, area: Rect) -> WidgetView {
    list_of(area, "Execution State"@, LineKind::Summary, a.panels.execution)
}

/// The last lines of the output, `n` at most.
pub open spec fn recent(output: Seq<Seq<char>>, n: int) -> Seq<Seq<char>> {
    if output.len() <= n {
        output
    } else {
        output.skip(output.len() - n)
    }
}

/// The output and the line that is typed: all of the output, scrolled, or its last `n`
/// lines.
pub open spec fn command_panel<V>(a: AppView<V>, area: Rect, full: bool, n: int) -> WidgetView {
    let output = if full {
        a.output
    } else {
        recent(a.output, n)
    };
    let offset = if full {
        a.scroll_offset as int
    } else {
        0
    };
    list_of(
        area,
        if full {
            "Command History"@
        } else {
            "Command"@
        },
        LineKind::Commands,
        window(output.push(prompt_line(a.input)), room(area), offset),
    )
}

/// A log message as the debug panel shows it.
pub open spec fn log_row(message: LogMessage) -> RowView {
    RowView {
        text: "["@ + level_name(message.level) + "] "@ + message.message@,
        style: level_style(message.level),
    }
}

/// The debug panel: the log, scrolled.
pub open spec fn debug_panel<V>(a: AppView<V>, area: Rect, logs: Seq<LogMessage>) -> Seq<
    WidgetView,
> {
    let offset = a.debug_scroll_offset as int;
    seq![
        WidgetView::List {
            area,
            title: "Debug (d to toggle, PgUp/PgDn to scroll, Home/End)"@,
            rows: window(logs, room(area), offset).map_values(|m: LogMessage| log_row(m)),
            highlight: None,
        },
    ] + scrollbar_for(area, logs.len() as int, offset)
}

/// The offered signals, with the marked one standing out.
pub open spec fn match_rows<V>(s: AddSigView<V>) -> Seq<RowView> {
    s.matches.map(
        |i: int, found: (V, String)| RowView { text: found.1@, style: match_style(i == s.selected) },
    )
}

/// The places of the search window and of its two parts.
#[derive(Debug, Clone, Copy, PartialEq, Eq, Structural)]
pub struct AddsigAreas {
    pub popup: Rect,
    pub input: Rect,
    pub results: Rect,
}

/// The search window.
pub open spec fn addsig_popup<V>(s: AddSigView<V>, areas: AddsigAreas) -> Seq<WidgetView> {
    seq![
        WidgetView::Clear(areas.popup),
        WidgetView::Input {
            area: areas.input,
            title: "Add Signal"@,
            text: "Search: "@ + s.input,
        },
        WidgetView::List {
            area: areas.results,
            title: "Signals"@,
            rows: match_rows(s),
            highlight: Some(Style { fg: None, bg: Some(Color::Blue), bold: true }),
        },
        WidgetView::Hint {
            area: below(areas.popup),
            text: "↑↓: Navigate | Enter: Select | Esc: Cancel"@,
        },
    ]
}

/// The help window.
pub open spec fn help_popup(h: HelpModalView, popup: Rect) -> Seq<WidgetView> {
    let offset = h.scroll_offset as int;
    seq![
        WidgetView::Clear(popup),
        list_of(
            popup,
            "Help (Press Esc, Enter, or 'q' to close)"@,
            LineKind::Help,
            window(h.content, room(popup), offset),
        ),
    ] + scrollbar_for(popup, h.content.len() as int, offset) + seq![
        WidgetView::Hint {
            area: below(popup),
            text: "↑↓: Scroll | PgUp/PgDn: Page | Home/End: Top/Bottom | Esc/Enter/q: Close"@,
        },
    ]
}

/// The places of the panels.
#[derive(Debug, Clone, Copy, PartialEq, Eq, Structural)]
pub enum PanelAreas {
    /// Three panels side by side, over the commands.
    Split { instructions: Rect, source: Rect, signals: Rect, command: Rect },
    /// The execution state over the commands.
    Combined { execution: Rect, command: Rect },
}

/// The panels.
pub open spec fn main_widgets<V>(a: AppView<V>, areas: PanelAreas) -> Seq<WidgetView> {
    match areas {
        PanelAreas::Split { instructions, source, signals, command } => seq![
            list_of(instructions, "Instructions"@, LineKind::Code, a.panels.instructions),
            list_of(source, "Source Code"@, LineKind::Code, a.panels.source),
            list_of(signals, "Signals"@, LineKind::Signals, a.panels.signals),
            command_panel(a, command, false, 3),
        ],
        PanelAreas::Combined { execution, command } => seq![
            execution_panel(a, execution),
            command_panel(a, command, true, 0),
        ],
    }
}

/// A place in the middle of an area, with the given shares of its height and of its width
/// left free on each side.
pub open spec fn centred(area: Rect, free_rows: int, free_columns: int) -> Rect {
    let band = share_of(Direction::Vertical, area, free_rows, 100 - free_rows);
    share_of(Direction::Horizontal, band, free_columns, 100 - free_columns)
}

/// The places of the panels within the main area.
pub open spec fn panel_areas(split_view: bool, main: Rect) -> PanelAreas {
    if split_view {
        let top = share_of(Direction::Vertical, main, 0, 70);
        PanelAreas::Split {
            instructions: share_of(Direction::Horizontal, top, 0, 30),
            source: share_of(Direction::Horizontal, top, 30, 60),
            signals: share_of(Direction::Horizontal, top, 60, 100),
            command: share_of(Direction::Vertical, main, 70, 100),
        }
    } else {
        PanelAreas::Combined {
            execution: share_of(Direction::Vertical, main, 0, 40),
            command: share_of(Direction::Vertical, main, 40, 100),
        }
    }
}

/// The places of the search window and of its two parts.
pub open spec fn addsig_areas(area: Rect) -> AddsigAreas {
    let popup = centred(area, 25, 20);
    let line = at_most(Direction::Vertical, popup, 3);
    AddsigAreas {
        popup,
        input: strip(Direction::Vertical, popup, 0, line),
        results: strip(Direction::Vertical, popup, line, extent(Direction::Vertical, popup)),
    }
}

/// The place of the panels: the screen, or what the debug panel leaves of it.
pub open spec fn main_area(debug: bool, area: Rect) -> Rect {
    if debug {
        share_of(Direction::Horizontal, area, 0, 70)
    } else {
        area
    }
}

/// The place of the debug panel.
pub open spec fn debug_area(area: Rect) -> Rect {
    share_of(Direction::Horizontal, area, 70, 100)
}

/// The place of the help window.
pub open spec fn help_area(area: Rect) -> Rect {
    centred(area, 20, 15)
}

/// What a front end in the state `a` shows under its windows on a screen of the size
/// `area`: the panels, and the debug panel beside them.
pub open spec fn background<V>(a: AppView<V>, logs: Seq<LogMessage>, area: Rect) -> Seq<
    WidgetView,
> {
    let main = main_area(a.show_debug_panel, area);
    main_widgets(a, panel_areas(a.show_split_view, main)) + if a.show_debug_panel {
        debug_panel(a, debug_area(area), logs)
    } else {
        seq![]
    }
}

/// Everything that a front end in the state `a` shows on a screen of the size `area`, in
/// the order in which it is drawn: what is drawn later stands on top.
pub open spec fn ui_widgets<V>(a: AppView<V>, logs: Seq<LogMessage>, area: Rect) -> Seq<
    WidgetView,
> {
    background(a, logs, area) + (if a.addsig.active {
        addsig_popup(a.addsig, addsig_areas(area))
    } else {
        seq![]
    }) + (if a.help.active {
        help_popup(a.help, help_area(area))
    } else {
        seq![]
    })
}

/// The screen has room for the scrollbars that are to be drawn.
pub open spec fn drawable<V>(a: AppView<V>, logs: Seq<LogMessage>, area: Rect) -> bool {
    &&& a.show_debug_panel && logs.len() > room(debug_area(area)) ==> has_scrollbar_area(
        debug_area(area),
    )
    &&& a.help.active && a.help.content.len() > room(help_area(area)) ==> has_scrollbar_area(
        help_area(area),
    )
}

/// Makes rows of a kind of the lines from `start` to `end`.
fn style_rows(texts: &[String], start: usize, end: usize, kind: LineKind) -> (r: Vec<Row>)
    requires
        start <= end <= texts@.len(),
    ensures
        rows_of(r@) == styled(kind, lines(texts@).subrange(start as int, end as int)),
{
    let ghost shown = lines(texts@).subrange(start as int, end as int);
    let mut rows: Vec<Row> = Vec::new();
    let mut i: usize = start;
    while i < end
        invariant
            start <= i <= end <= texts@.len(),
            shown == lines(texts@).subrange(start as int, end as int),
            rows@.len() == i - start,
            forall|j: int|
                0 <= j < i - start ==> (#[trigger] rows@[j])@ == styled(kind, shown)[j],
        decreases end - i,
    {
        let style = style_of(kind, i - start, texts[i].as_str());
        rows.push(Row { text: texts[i].clone(), style });
        i += 1;
    }
    assert(rows_of(rows@) =~= styled(kind, shown));
    rows
}

/// A plain list of all lines of a kind.
fn list_widget(area: Rect, title: &'static str, kind: LineKind, texts: &Vec<String>) -> (r: Widget)
    ensures
        r@ == list_of(area, title@, kind, lines(texts@)),
{
    let rows = style_rows(texts.as_slice(), 0, texts.len(), kind);
    assert(lines(texts@).subrange(0, texts@.len() as int) =~= lines(texts@));
    Widget::List { area, title, rows, highlight: None }
}

/// Whether an area has a right border with room between its corners.
fn fits_scrollbar(area: Rect) -> (r: bool)
    ensures
        r == has_scrollbar_area(area),
{
    let right: u32 = area.x as u32 + area.width as u32;
    1 <= right && right <= 65535 && area.y < 65535 && area.height >= 2
}

/// The scrollbar of an area that does not show all lines.
fn scrollbar_widget(area: Rect, total: usize, position: usize) -> (r: Widget)
    requires
        has_scrollbar_area(area),
    ensures
        r@ == (WidgetView::Scrollbar {
            area: scrollbar_area(area),
            total: total as int,
            position: position as int,
        }),
{
    let x: u16 = if area.width > 0 {
        area.x + (area.width - 1)
    } else {
        area.x - 1
    };
    Widget::Scrollbar {
        area: Rect { x, y: area.y + 1, width: 1, height: area.height - 2 },
        total,
        position,
    }
}

/// The line below an area.
fn line_below(area: Rect) -> (r: Rect)
    requires
        has_below(area),
    ensures
        r == below(area),
{
    Rect { x: area.x, y: area.y + area.height, width: area.width, height: 1 }
}

/// The widgets of two lists, one after the other.
proof fn widgets_append(first: Seq<Widget>, second: Seq<Widget>)
    ensures
        widgets(first + second) == widgets(first) + widgets(second),
{
    assert(widgets(first + second) =~= widgets(first) + widgets(second));
}

/// There is always a line below a place in the middle of an area.
pub proof fn hint_always_fits(area: Rect, free_rows: int, free_columns: int)
    requires
        0 <= free_rows <= 50,
    ensures
        has_below(centred(area, free_rows, free_columns)),
{
    shares_are_in_order(extent(Direction::Vertical, area), free_rows, 100 - free_rows);
}

/// The messages of a log that may be there.
pub open spec fn messages(logs: Option<&AppLogger>) -> Seq<LogMessage> {
    match logs {
        Some(log) => log@,
        None => Seq::empty(),
    }
}

/// A place in the middle of an area, with the given shares of its height and of its width
/// left free on each side.
fn popup_area(area: Rect, free_rows: u16, free_columns: u16) -> (r: Rect)
    requires
        free_rows <= 50,
        free_columns <= 50,
    ensures
        r == centred(area, free_rows as int, free_columns as int),
{
    let bands = in_three(Direction::Vertical, area, free_rows, 100 - 2 * free_rows, free_rows);
    let parts = in_three(
        Direction::Horizontal,
        bands.1,
        free_columns,
        100 - 2 * free_columns,
        free_columns,
    );
    parts.1
}

impl<V> App<V> {
    /// The panel with the execution state.
    pub fn render_instruction_panel_combined(&self, area: Rect) -> (r: Widget)
        ensures
            r@ == execution_panel(self@, area),
    {
        list_widget(
            area,
            "Execution State",
            LineKind::Summary,
            &self.view_state.execution_lines,
        )
    }

    /// The output and the line that is typed: all of the output, scrolled, or its last
    /// `history_lines` lines.
    pub fn render_command_input(
        &self,
        area: Rect,
        show_full_history: bool,
        history_lines: usize,
    ) -> (r: Widget)
        ensures
            r@ == command_panel(self@, area, show_full_history, history_lines as int),
    {
        let first: usize = if show_full_history {
            0
        } else {
            self.command_history.len().saturating_sub(history_lines)
        };
        let ghost output = if show_full_history {
            self@.output
        } else {
            recent(self@.output, history_lines as int)
        };
        let mut all_lines: Vec<String> = Vec::new();
        let mut i: usize = first;
        while i < self.command_history.len()
            invariant
                first <= i <= self.command_history@.len(),
                all_lines@.len() == i - first,
                forall|j: int|
                    0 <= j < i - first ==> (#[trigger] all_lines@[j])@ == self@.output[first + j],
            decreases self.command_history@.len() - i,
        {
            all_lines.push(self.command_history[i].clone());
            i += 1;
        }
        assert(lines(all_lines@) =~= output);
        let prompt = joined("(jpdb) ", self.input_buffer.as_str());
        proof {
            lines_push(all_lines@, prompt);
        }
        all_lines.push(prompt);
        let offset: usize = if show_full_history {
            self.scroll_offset
        } else {
            0
        };
        let (start, end) = visible_window(all_lines.len(), available_height(area), offset);
        let rows = style_rows(all_lines.as_slice(), start, end, LineKind::Commands);
        let title = if show_full_history {
            "Command History"
        } else {
            "Command"
        };
        Widget::List { area, title, rows, highlight: None }
    }

    /// All of the output, scrolled, and the line that is typed.
    pub fn render_command_area(&self, area: Rect) -> (r: Widget)
        ensures
            r@ == command_panel(self@, area, true, 0),
    {
        self.render_command_input(area, true, 0)
    }

    /// The last lines of the output, and the line that is typed.
    pub fn render_command_bar(&self, area: Rect) -> (r: Widget)
        ensures
            r@ == command_panel(self@, area, false, 3),
    {
        self.render_command_input(area, false, 3)
    }

    /// The panel with the instructions.
    pub fn render_instruction_pane(&self, area: Rect) -> (r: Widget)
        ensures
            r@ == list_of(area, "Instructions"@, LineKind::Code, self@.panels.instructions),
    {
        list_widget(area, "Instructions", LineKind::Code, &self.view_state.instruction_lines)
    }

    /// The panel with the source code.
    pub fn render_source_pane(&self, area: Rect) -> (r: Widget)
        ensures
            r@ == list_of(area, "Source Code"@, LineKind::Code, self@.panels.source),
    {
        list_widget(area, "Source Code", LineKind::Code, &self.view_state.source_lines)
    }

    /// The panel with the signals.
    pub fn render_signal_panel(&self, area: Rect) -> (r: Widget)
        ensures
            r@ == list_of(area, "Signals"@, LineKind::Signals, self@.panels.signals),
    {
        list_widget(area, "Signals", LineKind::Signals, &self.view_state.signal_lines)
    }

    /// The debug panel: the log, scrolled. A log that cannot be read shows as empty.
    pub fn render_debug_panel(&self, area: Rect, logs: Option<&AppLogger>) -> (r: Vec<Widget>)
        requires
            messages(logs).len() > room(area) ==> has_scrollbar_area(area),
        ensures
            widgets(r@) == debug_panel(self@, area, messages(logs)),
    {
        let total: usize = match logs {
            Some(log) => log.len(),
            None => 0,
        };
        let available: usize = available_height(area);
        let (start, end) = visible_window(total, available, self.debug_scroll_offset);
        let ghost shown = window(messages(logs), room(area), self.debug_scroll_offset as int);
        let mut rows: Vec<Row> = Vec::new();
        if let Some(log) = logs {
            let mut i: usize = start;
            while i < end
                invariant
                    logs == Some(log),
                    start <= i <= end <= log@.len(),
                    shown == log@.subrange(start as int, end as int),
                    rows@.len() == i - start,
                    forall|j: int|
                        0 <= j < i - start ==> (#[trigger] rows@[j])@ == log_row(shown[j]),
                decreases end - i,
            {
                let message = log.message(i);
                let head = joined(joined("[", message.level.name()).as_str(), "] ");
                let text = joined(head.as_str(), message.message.as_str());
                rows.push(Row { text, style: style_of_level(message.level) });
                i += 1;
            }
        }
        assert(rows_of(rows@) =~= shown.map_values(|m: LogMessage| log_row(m)));
        let mut drawn: Vec<Widget> = Vec::new();
        drawn.push(
            Widget::List {
                area,
                title: "Debug (d to toggle, PgUp/PgDn to scroll, Home/End)",
                rows,
                highlight: None,
            },
        );
        if total > available {
            drawn.push(scrollbar_widget(area, total, start));
        }
        assert(widgets(drawn@) =~= debug_panel(self@, area, messages(logs)));
        drawn
    }

    /// The search window.
    pub fn render_addsig_popup(&self, area: Rect) -> (r: Vec<Widget>)
        ensures
            widgets(r@) == addsig_popup(self@.addsig, addsig_areas(area)),
    {
        let popup = popup_area(area, 25, 20);
        let (input, results) = head_and_rest(Direction::Vertical, popup, 3);
        proof {
            hint_always_fits(area, 25, 20);
        }
        let matches = self.addsig_state.get_matches();
        let selected: usize = self.addsig_state.get_selected_index();
        let mut rows: Vec<Row> = Vec::new();
        let mut i: usize = 0;
        while i < matches.len()
            invariant
                0 <= i <= matches@.len(),
                matches@ == self@.addsig.matches,
                selected == self@.addsig.selected,
                rows@.len() == i,
                forall|j: int| 0 <= j < i ==> (#[trigger] rows@[j])@ == match_rows(self@.addsig)[j],
            decreases matches@.len() - i,
        {
            rows.push(Row { text: matches[i].1.clone(), style: style_of_match(i == selected) });
            i += 1;
        }
        assert(rows_of(rows@) =~= match_rows(self@.addsig));
        let mut drawn: Vec<Widget> = Vec::new();
        drawn.push(Widget::Clear(popup));
        drawn.push(
            Widget::Input {
                area: input,
                title: "Add Signal",
                text: joined("Search: ", self.addsig_state.get_input()),
            },
        );
        drawn.push(
            Widget::List {
                area: results,
                title: "Signals",
                rows,
                highlight: Some(Style { fg: None, bg: Some(Color::Blue), bold: true }),
            },
        );
        drawn.push(
            Widget::Hint {
                area: line_below(popup),
                text: "↑↓: Navigate | Enter: Select | Esc: Cancel",
            },
        );
        assert(widgets(drawn@) =~= addsig_popup(self@.addsig, addsig_areas(area)));
        drawn
    }

    /// The help window.
    pub fn render_help_modal(&self, area: Rect) -> (r: Vec<Widget>)
        requires
            self@.help.content.len() > room(help_area(area)) ==> has_scrollbar_area(
                help_area(area),
            ),
        ensures
            widgets(r@) == help_popup(self@.help, help_area(area)),
    {
        let popup = popup_area(area, 20, 15);
        proof {
            hint_always_fits(area, 20, 15);
        }
        let content = self.help_modal_state.get_content();
        let available: usize = available_height(popup);
        let total: usize = content.len();
        let offset: usize = self.help_modal_state.get_scroll_offset();
        let (start, end) = visible_window(total, available, offset);
        let rows = style_rows(content, start, end, LineKind::Help);
        let mut drawn: Vec<Widget> = Vec::new();
        drawn.push(Widget::Clear(popup));
        drawn.push(
            Widget::List {
                area: popup,
                title: "Help (Press Esc, Enter, or 'q' to close)",
                rows,
                highlight: None,
            },
        );
        if total > available {
            drawn.push(scrollbar_widget(popup, total, start));
        }
        drawn.push(
            Widget::Hint {
                area: line_below(popup),
                text: "↑↓: Scroll | PgUp/PgDn: Page | Home/End: Top/Bottom | Esc/Enter/q: Close",
            },
        );
        assert(widgets(drawn@) =~= help_popup(self@.help, popup));
        drawn
    }

    /// The panels: three side by side over the commands, or the execution state over them.
    fn render_panels(&self, areas: PanelAreas) -> (r: Vec<Widget>)
        ensures
            widgets(r@) == main_widgets(self@, areas),
    {
        let mut drawn: Vec<Widget> = Vec::new();
        match areas {
            PanelAreas::Split { instructions, source, signals, command } => {
                drawn.push(self.render_instruction_pane(instructions));
                drawn.push(self.render_source_pane(source));
                drawn.push(self.render_signal_panel(signals));
                drawn.push(self.render_command_bar(command));
            },
            PanelAreas::Combined { execution, command } => {
                drawn.push(self.render_instruction_panel_combined(execution));
                drawn.push(self.render_command_area(command));
            },
        }
        assert(widgets(drawn@) =~= main_widgets(self@, areas));
        drawn
    }

    /// Three panels side by side, over the commands.
    pub fn render_split_view(&self, area: Rect) -> (r: Vec<Widget>)
        ensures
            widgets(r@) == main_widgets(self@, panel_areas(true, area)),
    {
        let (top, command) = in_two(Direction::Vertical, area, 70, 30);
        let (instructions, source, signals) = in_three(Direction::Horizontal, top, 30, 30, 40);
        self.render_panels(PanelAreas::Split { instructions, source, signals, command })
    }

    /// The execution state, over the commands.
    pub fn render_combined_output(&self, area: Rect) -> (r: Vec<Widget>)
        ensures
            widgets(r@) == main_widgets(self@, panel_areas(false, area)),
    {
        let (execution, command) = in_two(Direction::Vertical, area, 40, 60);
        self.render_panels(PanelAreas::Combined { execution, command })
    }

    /// Everything on a screen of the size `area`, in the order in which it is drawn; `None`
    /// where the screen is too small for a scrollbar that is to be drawn.
    pub fn ui(&self, area: Rect, logs: Option<&AppLogger>) -> (r: Option<Vec<Widget>>)
        ensures
            match r {
                Some(drawn) => drawable(self@, messages(logs), area) && widgets(drawn@)
                    == ui_widgets(self@, messages(logs), area),
                None => !drawable(self@, messages(logs), area),
            },
    {
        let (main, debug) = if self.show_debug_panel {
            let (main, debug) = in_two(Direction::Horizontal, area, 70, 30);
            let total: usize = match logs {
                Some(log) => log.len(),
                None => 0,
            };
            if total > available_height(debug) && !fits_scrollbar(debug) {
                return None;
            }
            (main, Some(debug))
        } else {
            (area, None)
        };
        if self.help_modal_state.is_active() {
            let popup = popup_area(area, 20, 15);
            let total: usize = self.help_modal_state.get_content().len();
            if total > available_height(popup) && !fits_scrollbar(popup) {
                return None;
            }
        }
        let mut drawn = if self.show_split_view {
            self.render_split_view(main)
        } else {
            self.render_combined_output(main)
        };
        if let Some(debug) = debug {
            let mut panel = self.render_debug_panel(debug, logs);
            proof {
                widgets_append(drawn@, panel@);
            }
            drawn.append(&mut panel);
        }
        assert(widgets(drawn@) =~= background(self@, messages(logs), area));
        if self.addsig_state.is_active() {
            let mut popup = self.render_addsig_popup(area);
            proof {
                widgets_append(drawn@, popup@);
            }
            drawn.append(&mut popup);
        }
        if self.help_modal_state.is_active() {
            let mut popup = self.render_help_modal(area);
            proof {
                widgets_append(drawn@, popup@);
            }
            drawn.append(&mut popup);
        }
        assert(widgets(drawn@) =~= ui_widgets(self@, messages(logs), area));
        Some(drawn)
    }
}

/// The help window stands on top of everything else, and the search window on top of the
/// panels. A window changes nothing of what is drawn under it.
pub proof fn windows_stand_on_top<V>(a: AppView<V>, logs: Seq<LogMessage>, area: Rect)
    ensures
        !a.addsig.active && !a.help.active ==> ui_widgets(a, logs, area) == background(
            a,
            logs,
            area,
        ),
        a.addsig.active && !a.help.active ==> ui_widgets(a, logs, area) == background(a, logs, area)
            + addsig_popup(a.addsig, addsig_areas(area)),
        a.help.active ==> ui_widgets(a, logs, area) == ui_widgets(
            AppView { help: HelpModalView::closed(), ..a },
            logs,
            area,
        ) + help_popup(a.help, help_area(area)),
{
    let under = AppView { help: HelpModalView::closed(), ..a };
    assert(main_widgets(under, panel_areas(a.show_split_view, main_area(a.show_debug_panel, area)))
        =~= main_widgets(a, panel_areas(a.show_split_view, main_area(a.show_debug_panel, area))));
    assert(background(under, logs, area) =~= background(a, logs, area));
    if !a.addsig.active && !a.help.active {
        assert(ui_widgets(a, logs, area) =~= background(a, logs, area));
    }
    if a.addsig.active && !a.help.active {
        assert(ui_widgets(a, logs, area) =~= background(a, logs, area) + addsig_popup(
            a.addsig,
            addsig_areas(area),
        ));
    }
    if a.help.active {
        assert(ui_widgets(a, logs, area) =~= ui_widgets(under, logs, area) + help_popup(
            a.help,
            help_area(area),
        ));
    }
}

/// The line that is typed is the last one that the commands show, unless their panel has no
/// room or they are scrolled.
pub proof fn typed_line_is_shown<V>(a: AppView<V>, area: Rect, full: bool, n: int)
    requires
        n >= 0,
        room(area) > 0,
        full ==> a.scroll_offset == 0,
    ensures
        command_panel(a, area, full, n) matches WidgetView::List { rows, .. } && rows.len() > 0
            && rows.last().text == prompt_line(a.input),
{
}

/// After a command has ended, the commands show an empty line to type in last, however they
/// were scrolled before.
pub proof fn prompt_returns_after_a_command<V>(
    a: AppView<V>,
    error: Option<Seq<char>>,
    area: Rect,
    full: bool,
    n: int,
)
    requires
        n >= 0,
        room(area) > 0,
    ensures
        command_panel(a.finished(error), area, full, n) matches WidgetView::List { rows, .. }
            && rows.len() > 0 && rows.last().text == prompt_line(Seq::empty()),
{
    typed_line_is_shown(a.finished(error), area, full, n);
}

/// The panels lie on the screen, whatever is shown.
pub proof fn panels_lie_on_the_screen(area: Rect, debug: bool, split_view: bool)
    requires
        area.x + area.width <= u16::MAX,
        area.y + area.height <= u16::MAX,
    ensures
        inside(area, main_area(debug, area)),
        inside(area, debug_area(area)),
        match panel_areas(split_view, main_area(debug, area)) {
            PanelAreas::Split { instructions, source, signals, command } => {
                &&& inside(area, instructions)
                &&& inside(area, source)
                &&& inside(area, signals)
                &&& inside(area, command)
            },
            PanelAreas::Combined { execution, command } => inside(area, execution) && inside(
                area,
                command,
            ),
        },
{
    let main = main_area(debug, area);
    shares_lie_inside(Direction::Horizontal, area, 0, 70);
    shares_lie_inside(Direction::Horizontal, area, 70, 100);
    shares_lie_inside(Direction::Vertical, main, 0, 70);
    shares_lie_inside(Direction::Vertical, main, 70, 100);
    shares_lie_inside(Direction::Vertical, main, 0, 40);
    shares_lie_inside(Direction::Vertical, main, 40, 100);
    let top = share_of(Direction::Vertical, main, 0, 70);
    shares_lie_inside(Direction::Horizontal, top, 0, 30);
    shares_lie_inside(Direction::Horizontal, top, 30, 60);
    shares_lie_inside(Direction::Horizontal, top, 60, 100);
}

/// The windows lie on the screen, and the parts of the search window within it.
pub proof fn windows_lie_on_the_screen(area: Rect)
    requires
        area.x + area.width <= u16::MAX,
        area.y + area.height <= u16::MAX,
    ensures
        inside(area, help_area(area)),
        inside(area, addsig_areas(area).popup),
        inside(addsig_areas(area).popup, addsig_areas(area).input),
        inside(addsig_areas(area).popup, addsig_areas(area).results),
{
    shares_lie_inside(Direction::Vertical, area, 20, 80);
    shares_lie_inside(Direction::Vertical, area, 25, 75);
    let band = share_of(Direction::Vertical, area, 20, 80);
    shares_lie_inside(Direction::Horizontal, band, 15, 85);
    let band = share_of(Direction::Vertical, area, 25, 75);
    shares_lie_inside(Direction::Horizontal, band, 20, 80);
}

} // verus!
