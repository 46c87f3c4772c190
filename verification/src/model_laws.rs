//! What the parts of the front end do, in terms of what goes in and what comes out.
use crate::addsig::AddSigView;
use crate::app::App;
use crate::help_modal::HelpModalView;
use crate::logger::with_message;
use crate::logger::LogMessage;
use crate::session::local_address_text;
use crate::style::line_style;
use crate::style::Color;
use crate::style::LineKind;
use crate::style::Style;
use crate::text::decimal;
use crate::text::lines;
use crate::text::occurs_in;
use crate::text::trimmed;
use crate::text::white_space;
use crate::text::without_leading;
use crate::text::without_trailing;
use crate::view::panels_of;
use crate::view::ExecutionSnapshot;
use crate::window::window;
use vstd::prelude::*;

verus! {

/// A list of strings has one text for each string, in the same order.
pub proof fn every_string_is_a_line(v: Seq<String>)
    ensures
        lines(v).len() == v.len(),
        forall|i: int| 0 <= i < v.len() ==> #[trigger] lines(v)[i] == v[i]@,
{
}

proof fn leading_splits_off(s: Seq<char>) -> (k: int)
    ensures
        0 <= k <= s.len(),
        without_leading(s) == s.skip(k),
        forall|i: int| 0 <= i < k ==> white_space(#[trigger] s[i]),
        k < s.len() ==> !white_space(s[k]),
    decreases s.len(),
{
    if s.len() > 0 && white_space(s.first()) {
        let rest = s.drop_first();
        let k = leading_splits_off(rest);
        assert(rest.skip(k) =~= s.skip(k + 1));
        assert forall|i: int| 0 <= i < k + 1 implies white_space(#[trigger] s[i]) by {
            if i > 0 {
                assert(rest[i - 1] == s[i]);
            }
        }
        k + 1
    } else {
        assert(s.skip(0) =~= s);
        0
    }
}

proof fn trailing_splits_off(s: Seq<char>) -> (k: int)
    ensures
        0 <= k <= s.len(),
        without_trailing(s) == s.take(k),
        forall|i: int| k <= i < s.len() ==> white_space(#[trigger] s[i]),
        k > 0 ==> !white_space(s[k - 1]),
    decreases s.len(),
{
    if s.len() > 0 && white_space(s.last()) {
        let rest = s.drop_last();
        let k = trailing_splits_off(rest);
        assert(rest.take(k) =~= s.take(k));
        assert forall|i: int| k <= i < s.len() implies white_space(#[trigger] s[i]) by {
            if i < s.len() - 1 {
                assert(rest[i] == s[i]);
            }
        }
        k
    } else {
        assert(s.take(s.len() as int) =~= s);
        s.len() as int
    }
}

/// Trimming takes off white space alone, and all of it that stands at the two ends: what it
/// leaves is a stretch of the text, from a character that is no white space to one that is
/// none, and everything before and after it is white space.
pub proof fn trimming_takes_white_space_alone(s: Seq<char>) -> (r: (int, int))
    ensures
        0 <= r.0 <= r.1 <= s.len(),
        trimmed(s) == s.subrange(r.0, r.1),
        forall|i: int| 0 <= i < r.0 || r.1 <= i < s.len() ==> white_space(#[trigger] s[i]),
        r.0 < r.1 ==> !white_space(s[r.0]) && !white_space(s[r.1 - 1]),
{
    let from = leading_splits_off(s);
    let rest = s.skip(from);
    let len = trailing_splits_off(rest);
    assert(rest.take(len) =~= s.subrange(from, from + len));
    assert forall|i: int|
        0 <= i < from || from + len <= i < s.len() implies white_space(#[trigger] s[i]) by {
        if i >= from {
            assert(rest[i - from] == s[i]);
        }
    }
    if len > 0 {
        assert(rest[0] == s[from]);
        assert(rest[len - 1] == s[from + len - 1]);
    }
    (from, from + len)
}

/// A text stands in another exactly where that is made of something, the text and something.
pub proof fn occurring_means_standing_between(part: Seq<char>, s: Seq<char>)
    ensures
        occurs_in(part, s) <==> exists|before: Seq<char>, after: Seq<char>|
            s == #[trigger] (before + part + after),
{
    if occurs_in(part, s) {
        let i = choose|i: int|
            0 <= i && i + part.len() <= s.len() && #[trigger] s.subrange(i, i + part.len()) == part;
        assert(s =~= s.take(i) + part + s.skip(i + part.len()));
    }
    if exists|before: Seq<char>, after: Seq<char>| s == #[trigger] (before + part + after) {
        let (before, after) = choose|before: Seq<char>, after: Seq<char>|
            s == #[trigger] (before + part + after);
        let i = before.len() as int;
        assert(s.subrange(i, i + part.len()) =~= part);
    }
}

/// The numbers below ten are written as one digit, and a further digit at the end of a number
/// stands for ten times the number and the digit.
pub proof fn decimal_has_the_digits(n: nat, d: nat)
    requires
        d < 10,
    ensures
        decimal(d).len() == 1,
        decimal(d)[0] as int == '0' as int + d,
        n > 0 ==> decimal(10 * n + d) == decimal(n) + decimal(d),
{
    if n > 0 {
        assert((10 * n + d) / 10 == n);
        assert((10 * n + d) % 10 == d);
        assert(decimal(10 * n + d) =~= decimal(n) + decimal(d));
    }
}

/// A port of this machine is addressed by its number.
pub proof fn address_ends_with_the_port(port: u16)
    ensures
        local_address_text(port) == "127.0.0.1:"@ + decimal(port as nat),
{
}

/// Other signals are offered in their order, the first ten at most, and the mark stays where
/// it is or goes to the last one. What is searched for stays.
pub proof fn first_matches_are_offered<V>(s: AddSigView<V>, matches: Seq<(V, String)>)
    requires
        s.selected >= 0,
    ensures
        ({
            let after = s.offering(matches);
            &&& after.matches.len() == if matches.len() < 10 {
                matches.len()
            } else {
                10
            }
            &&& forall|i: int|
                0 <= i < after.matches.len() ==> #[trigger] after.matches[i] == matches[i]
            &&& s.selected < after.matches.len() ==> after.selected == s.selected
            &&& s.selected >= after.matches.len() > 0 ==> after.selected == after.matches.len() - 1
            &&& after.matches.len() == 0 ==> after.selected == 0
            &&& after.input == s.input
            &&& after.active == s.active
        }),
{
}

/// The mark goes on by one and back by one, round from one end to the other; the marked match
/// is the one that stands at the mark. Another search marks the first match, and an opened or
/// closed window is empty.
pub proof fn mark_stands_where_it_was_moved<V>(s: AddSigView<V>, input: Seq<char>, active: bool)
    requires
        0 <= s.selected < s.matches.len(),
    ensures
        s.next() == (AddSigView {
            selected: if s.selected + 1 == s.matches.len() {
                0
            } else {
                s.selected + 1
            },
            ..s
        }),
        s.prev() == (AddSigView {
            selected: if s.selected == 0 {
                s.matches.len() - 1
            } else {
                s.selected - 1
            },
            ..s
        }),
        s.marked() == Some(s.matches[s.selected]),
        s.searching(input) == (AddSigView { input, selected: 0, ..s }),
        AddSigView::<V>::fresh(active).active == active,
        AddSigView::<V>::fresh(active).input.len() == 0,
        AddSigView::<V>::fresh(active).matches.len() == 0,
        AddSigView::<V>::fresh(active).selected == 0,
{
    let n = s.matches.len();
    if s.selected + 1 < n {
        vstd::arithmetic::div_mod::lemma_small_mod((s.selected + 1) as nat, n);
    } else {
        vstd::arithmetic::div_mod::lemma_mod_self_0(n as int);
    }
}

/// Without a match nothing is marked, and the mark cannot be moved.
pub proof fn nothing_is_marked_without_a_match<V>(s: AddSigView<V>)
    requires
        s.matches.len() == 0,
    ensures
        s.marked() is None,
        s.next() == s,
        s.prev() == s,
{
}

/// Scrolling the help window moves it by the lines that were asked for, or to the end of the
/// way, and changes nothing else. A closed window shows nothing.
pub proof fn help_moves_by_the_lines(h: HelpModalView, by: usize)
    ensures
        h.up(by) == (HelpModalView { scroll_offset: h.up(by).scroll_offset, ..h }),
        h.scroll_offset + by <= usize::MAX ==> h.up(by).scroll_offset == h.scroll_offset + by,
        h.scroll_offset + by > usize::MAX ==> h.up(by).scroll_offset == usize::MAX,
        h.down(by) == (HelpModalView { scroll_offset: h.down(by).scroll_offset, ..h }),
        by <= h.scroll_offset ==> h.down(by).scroll_offset + by == h.scroll_offset,
        by > h.scroll_offset ==> h.down(by).scroll_offset == 0,
        !HelpModalView::closed().active,
        HelpModalView::closed().content.len() == 0,
        HelpModalView::closed().scroll_offset == 0,
{
}

/// A new message is the last one of the log, and the others stay in their order; the oldest
/// one goes exactly where the log held a thousand.
pub proof fn message_is_logged_last(kept: Seq<LogMessage>, message: LogMessage)
    ensures
        ({
            let after = with_message(kept, message);
            &&& after.len() > 0 && after[after.len() - 1] == message
            &&& kept.len() < 1000 ==> after.len() == kept.len() + 1 && forall|i: int|
                0 <= i < kept.len() ==> #[trigger] after[i] == kept[i]
            &&& kept.len() >= 1000 ==> after.len() == kept.len() && forall|i: int|
                0 <= i < kept.len() - 1 ==> #[trigger] after[i] == kept[i + 1]
        }),
{
}

/// Of a list that is scrolled up from its end, as many lines are shown as fit, one after the
/// other: those that end `offset` lines before the end, or, where there are not so many before
/// them, the first ones.
pub proof fn window_is_a_stretch_of_the_list<T>(all: Seq<T>, available: int, offset: int)
    requires
        available >= 0,
        offset >= 0,
    ensures
        ({
            let shown = window(all, available, offset);
            &&& all.len() <= available ==> shown == all
            &&& all.len() > available ==> shown.len() == available
            &&& all.len() > available && all.len() >= available + offset ==> forall|k: int|
                0 <= k < available ==> #[trigger] shown[k] == all[all.len() - offset - available
                    + k]
            &&& all.len() > available && all.len() < available + offset ==> forall|k: int|
                0 <= k < available ==> #[trigger] shown[k] == all[k]
        }),
{
    if all.len() <= available {
        assert(window(all, available, offset) =~= all);
    }
}

/// The panels show the lines that were reported, and say where a report failed.
pub proof fn panels_show_the_reports(
    execution: Option<ExecutionSnapshot>,
    source: Option<Vec<String>>,
    signals: Option<Vec<String>>,
)
    ensures
        ({
            let panels = panels_of(execution, source, signals);
            &&& match execution {
                Some(report) => {
                    &&& panels.execution.len() == report.summary_lines@.len()
                    &&& forall|i: int|
                        0 <= i < panels.execution.len() ==> #[trigger] panels.execution[i]
                            == report.summary_lines@[i]@
                    &&& panels.instructions.len() == report.instruction_lines@.len()
                    &&& forall|i: int|
                        0 <= i < panels.instructions.len() ==> #[trigger] panels.instructions[i]
                            == report.instruction_lines@[i]@
                },
                None => {
                    &&& panels.execution == seq!["Failed to load execution info"@]
                    &&& panels.instructions == seq!["Failed to load execution info"@]
                },
            }
            &&& match source {
                Some(report) => panels.source.len() == report@.len() && forall|i: int|
                    0 <= i < panels.source.len() ==> #[trigger] panels.source[i] == report@[i]@,
                None => panels.source == seq!["Failed to load source info"@],
            }
            &&& match signals {
                Some(report) => panels.signals.len() == report@.len() && forall|i: int|
                    0 <= i < panels.signals.len() ==> #[trigger] panels.signals[i] == report@[i]@,
                None => panels.signals == seq!["Failed to load signal info"@],
            }
        }),
{
}

/// What an application stands for is what its fields hold.
pub proof fn view_holds_the_fields<V>(app: App<V>)
    ensures
        app@.should_quit == app.should_quit,
        app@.input == app.input_buffer@,
        app@.output.len() == app.command_history@.len(),
        forall|i: int|
            0 <= i < app@.output.len() ==> #[trigger] app@.output[i] == app.command_history@[i]@,
        app@.panels == app.view_state@,
        app@.scroll_offset == app.scroll_offset,
        app@.show_debug_panel == app.show_debug_panel,
        app@.debug_scroll_offset == app.debug_scroll_offset,
        app@.show_split_view == app.show_split_view,
        match app.last_command {
            Some(command) => app@.last_command == Some(command@),
            None => app@.last_command is None,
        },
        app@.history.len() == app.user_command_history@.len(),
        forall|i: int|
            0 <= i < app@.history.len() ==> #[trigger] app@.history[i]
                == app.user_command_history@[i]@,
        app@.history_index == app.history_index,
        app@.addsig == app.addsig_state@,
        app@.help == app.help_modal_state@,
        app@.viewer_connected == app.viewer_connected,
{
}

/// A line that begins with another text.
pub open spec fn begins(line: Seq<char>, with: Seq<char>) -> bool {
    exists|rest: Seq<char>| line == #[trigger] (with + rest)
}

proof fn prefix_begins(line: Seq<char>, with: Seq<char>)
    ensures
        with.is_prefix_of(line) == begins(line, with),
{
    if with.is_prefix_of(line) {
        assert(line =~= with + line.skip(with.len() as int));
    }
    if begins(line, with) {
        let rest = choose|rest: Seq<char>| line == #[trigger] (with + rest);
        assert(line.subrange(0, with.len() as int) =~= with);
    }
}

/// Of the lines of a program, the one with the arrow is bold and green, an error is red, and
/// every other one is white. The summary takes more lines for errors than the code does.
pub proof fn program_lines_look_so(i: int, line: Seq<char>)
    ensures
        ({
            let bold_green = Style { fg: Some(Color::Green), bg: None, bold: true };
            let red = Style { fg: Some(Color::Red), bg: None, bold: false };
            let white = Style { fg: Some(Color::White), bg: None, bold: false };
            let arrow = begins(line, "->"@);
            &&& line_style(LineKind::Summary, i, line) == if arrow {
                bold_green
            } else if begins(line, "Error"@) {
                red
            } else {
                white
            }
            &&& line_style(LineKind::Code, i, line) == if arrow {
                bold_green
            } else if begins(line, "Error:"@) {
                red
            } else {
                white
            }
        }),
{
    prefix_begins(line, "->"@);
    prefix_begins(line, "Error"@);
    prefix_begins(line, "Error:"@);
}

/// Of the lines of the signals, a first one that ends as a time does is bold and cyan, an error
/// is red, the two lines that say that there is nothing are yellow, and every other one is
/// white.
pub proof fn signal_lines_look_so(i: int, line: Seq<char>)
    ensures
        line_style(LineKind::Signals, i, line) == if i == 0 && exists|number: Seq<char>|
            line == #[trigger] (number + " ps"@) {
            Style { fg: Some(Color::Cyan), bg: None, bold: true }
        } else if begins(line, "Error:"@) || begins(line, "Error "@) {
            Style { fg: Some(Color::Red), bg: None, bold: false }
        } else if line == "no waves found"@ || line == "No signals selected"@ {
            Style { fg: Some(Color::Yellow), bg: None, bold: false }
        } else {
            Style { fg: Some(Color::White), bg: None, bold: false }
        },
{
    prefix_begins(line, "Error:"@);
    prefix_begins(line, "Error "@);
    let unit = " ps"@;
    if unit.is_suffix_of(line) {
        assert(line =~= line.take(line.len() - unit.len()) + unit);
    }
    if exists|number: Seq<char>| line == #[trigger] (number + unit) {
        let number = choose|number: Seq<char>| line == #[trigger] (number + unit);
        assert(line.subrange(line.len() - unit.len(), line.len() as int) =~= unit);
    }
}

/// Of the lines of the output, a command after the prompt is bold and cyan, an error is red, and
/// every other one is white.
pub proof fn output_lines_look_so(i: int, line: Seq<char>)
    ensures
        line_style(LineKind::Commands, i, line) == if begins(line, "(jpdb)"@) {
            Style { fg: Some(Color::Cyan), bg: None, bold: true }
        } else if begins(line, "error:"@) {
            Style { fg: Some(Color::Red), bg: None, bold: false }
        } else {
            Style { fg: Some(Color::White), bg: None, bold: false }
        },
{
    prefix_begins(line, "(jpdb)"@);
    prefix_begins(line, "error:"@);
}

/// Of the lines of the help, its two titles are bold and cyan, an indented line with two dashes
/// is yellow, five headings are bold and green, and every other one is white.
pub proof fn help_lines_look_so(i: int, line: Seq<char>)
    ensures
        line_style(LineKind::Help, i, line) == if begins(line, "Current command"@) || begins(
            line,
            "Help for"@,
        ) {
            Style { fg: Some(Color::Cyan), bg: None, bold: true }
        } else if begins(line, "  "@) && exists|before: Seq<char>, after: Seq<char>|
            line == #[trigger] (before + "--"@ + after) {
            Style { fg: Some(Color::Yellow), bg: None, bold: false }
        } else if begins(line, "Keyboard shortcuts:"@) || begins(line, "Description:"@) || begins(
            line,
            "Usage:"@,
        ) || begins(line, "Aliases:"@) || begins(line, "Examples:"@) {
            Style { fg: Some(Color::Green), bg: None, bold: true }
        } else {
            Style { fg: Some(Color::White), bg: None, bold: false }
        },
{
    prefix_begins(line, "Current command"@);
    prefix_begins(line, "Help for"@);
    prefix_begins(line, "  "@);
    occurring_means_standing_between("--"@, line);
    prefix_begins(line, "Keyboard shortcuts:"@);
    prefix_begins(line, "Description:"@);
    prefix_begins(line, "Usage:"@);
    prefix_begins(line, "Aliases:"@);
    prefix_begins(line, "Examples:"@);
}

} // verus!
