//! What each key does to the front end, field by field.
use crate::addsig::AddSigView;
use crate::app::AppView;
use crate::app::EffectView;
use crate::app::KeyCode;
use crate::app::KeyEvent;
use crate::help_modal::HelpModalView;
use crate::text::trimmed;
use vstd::prelude::*;

verus! {

/// While no window is open, a character goes to the end of the line that is typed, and no
/// command is called back any more. Two characters with the control key are no text: one ends
/// the front end, one empties the output and shows it from its end.
pub proof fn character_is_typed<V>(a: AppView<V>, key: KeyEvent, logged: Option<usize>, c: char)
    requires
        !a.help.active,
        !a.addsig.active,
        key.code == KeyCode::Char(c),
    ensures
        ({
            let (after, effect) = a.on_key(key, logged);
            &&& effect == EffectView::<V>::Nothing
            &&& if key.control && c == 'd' {
                after == (AppView { should_quit: true, ..a })
            } else if key.control && c == 'l' {
                after == (AppView { output: seq![], scroll_offset: 0, ..a })
            } else {
                after == (AppView { input: a.input + seq![c], history_index: None, ..a })
            }
        }),
{
    assert(a.input.push(c) =~= a.input + seq![c]);
}

/// While no window is open, the backspace key takes the last character off the line that is
/// typed, where there is one, and no command is called back any more.
pub proof fn character_is_taken_back<V>(a: AppView<V>, key: KeyEvent, logged: Option<usize>)
    requires
        !a.help.active,
        !a.addsig.active,
        key.code == KeyCode::Backspace,
    ensures
        ({
            let (after, effect) = a.on_key(key, logged);
            &&& effect == EffectView::<V>::Nothing
            &&& after == (AppView { input: after.input, history_index: None, ..a })
            &&& a.input.len() == 0 ==> after.input == a.input
            &&& a.input.len() > 0 ==> after.input + seq![a.input[a.input.len() - 1]] == a.input
        }),
{
    if a.input.len() > 0 {
        assert(a.input.drop_last() + seq![a.input[a.input.len() - 1]] =~= a.input);
    }
}

/// The key upwards calls a recorded command back whole: the one before that which is called
/// back, else the newest.
pub proof fn up_calls_a_command_back<V>(a: AppView<V>, key: KeyEvent, logged: Option<usize>)
    requires
        a.wf(),
        a.history.len() <= usize::MAX,
        !a.help.active,
        !a.addsig.active,
        key.code == KeyCode::Up,
    ensures
        ({
            let (after, effect) = a.on_key(key, logged);
            &&& effect == EffectView::<V>::Nothing
            &&& a.history.len() == 0 ==> after == a
            &&& a.history.len() > 0 ==> {
                &&& after == (AppView {
                    history_index: after.history_index,
                    input: after.input,
                    ..a
                })
                &&& after.history_index matches Some(i) && {
                    &&& i < a.history.len()
                    &&& after.input == a.history[i as int]
                    &&& match a.history_index {
                        Some(before) => i + 1 == before || before == 0 && i + 1 == a.history.len(),
                        None => i + 1 == a.history.len(),
                    }
                }
            }
        }),
{
}

/// The key downwards calls the recorded command after that which is called back, whole, and
/// after the newest the oldest; it does nothing while none is called back.
pub proof fn down_calls_a_command_back<V>(a: AppView<V>, key: KeyEvent, logged: Option<usize>)
    requires
        a.wf(),
        a.history.len() <= usize::MAX,
        !a.help.active,
        !a.addsig.active,
        key.code == KeyCode::Down,
    ensures
        ({
            let (after, effect) = a.on_key(key, logged);
            &&& effect == EffectView::<V>::Nothing
            &&& a.history_index is None ==> after == a
            &&& a.history_index matches Some(before) ==> {
                &&& after == (AppView {
                    history_index: after.history_index,
                    input: after.input,
                    ..a
                })
                &&& after.history_index matches Some(i) && {
                    &&& i < a.history.len()
                    &&& after.input == a.history[i as int]
                    &&& i == before + 1 || before + 1 == a.history.len() && i == 0
                }
            }
        }),
{
}

/// A line that is entered is told in the output after the prompt and runs. Unless it is one of
/// four texts, it becomes the command that an empty line repeats, and the newest that can be
/// called back. Its name has no space, and a space parts it from its arguments.
pub proof fn entered_line_runs<V>(a: AppView<V>, key: KeyEvent, logged: Option<usize>)
    requires
        !a.help.active,
        !a.addsig.active,
        key.code == KeyCode::Enter,
        trimmed(a.input).len() > 0,
    ensures
        ({
            let line = trimmed(a.input);
            let (after, effect) = a.on_key(key, logged);
            let kept_out = line == "quit"@ || line == "q"@ || line == "clear"@ || line == "cl"@;
            &&& after == (AppView {
                output: a.output + seq!["(jpdb) "@ + line],
                last_command: if kept_out {
                    a.last_command
                } else {
                    Some(line)
                },
                history: if kept_out {
                    a.history
                } else {
                    a.history + seq![line]
                },
                history_index: None,
                ..a
            })
            &&& effect matches EffectView::RunCommand { name, args } && {
                &&& forall|i: int| 0 <= i < name.len() ==> #[trigger] name[i] != ' '
                &&& line == name + seq![' '] + args || line == name && args.len() == 0
            }
        }),
{
    let line = trimmed(a.input);
    assert(a.output.push("(jpdb) "@ + line) =~= a.output + seq!["(jpdb) "@ + line]);
    assert(a.history.push(line) =~= a.history + seq![line]);
    command_is_parted(line);
}

/// The parts of a command line that runs.
proof fn command_is_parted(line: Seq<char>)
    ensures
        ({
            let name = crate::text::head_word(line);
            let args = crate::text::tail_words(line);
            &&& forall|i: int| 0 <= i < name.len() ==> #[trigger] name[i] != ' '
            &&& line == name + seq![' '] + args || line == name && args.len() == 0
        }),
{
    let name = crate::text::head_word(line);
    let args = crate::text::tail_words(line);
    line.index_of_first_ensures(' ');
    if line.contains(' ') {
        let i = line.index_of_first(' ')->0;
        assert(line =~= name + seq![' '] + args);
    } else {
        assert forall|i: int| 0 <= i < name.len() implies #[trigger] name[i] != ' ' by {
            assert(line.contains(line[i]));
        }
    }
}

/// Entering nothing but white space runs the last command that can be repeated, and tells it
/// in the output; where there is none, it only empties the line and shows the end of the
/// output. What can be called back stays as it is.
pub proof fn empty_line_runs_the_last_command<V>(
    a: AppView<V>,
    key: KeyEvent,
    logged: Option<usize>,
)
    requires
        !a.help.active,
        !a.addsig.active,
        key.code == KeyCode::Enter,
        trimmed(a.input).len() == 0,
    ensures
        ({
            let (after, effect) = a.on_key(key, logged);
            match a.last_command {
                Some(line) => {
                    &&& after == (AppView { output: a.output + seq!["(jpdb) "@ + line], ..a })
                    &&& effect matches EffectView::RunCommand { name, args } && {
                        &&& forall|i: int| 0 <= i < name.len() ==> #[trigger] name[i] != ' '
                        &&& line == name + seq![' '] + args || line == name && args.len() == 0
                    }
                },
                None => {
                    &&& after == (AppView { input: seq![], scroll_offset: 0, ..a })
                    &&& effect == EffectView::<V>::Nothing
                },
            }
        }),
{
    if let Some(line) = a.last_command {
        assert(a.output.push("(jpdb) "@ + line) =~= a.output + seq!["(jpdb) "@ + line]);
        command_is_parted(line);
    }
}

/// A command that ended leaves an empty line and the end of the output; an error is told as
/// the last line of the output, and nothing else changes.
pub proof fn ended_command_is_told<V>(a: AppView<V>, error: Option<Seq<char>>)
    ensures
        a.finished(error) == (AppView {
            output: match error {
                Some(text) => a.output + seq!["error: "@ + text],
                None => a.output,
            },
            input: seq![],
            scroll_offset: 0,
            ..a
        }),
{
    if let Some(text) = error {
        assert(a.output.push("error: "@ + text) =~= a.output + seq!["error: "@ + text]);
    }
}

/// While no window is open, the paging keys scroll the debug panel by five lines, as far as
/// that goes, the home key to its first message where the log's length is known, the end key
/// to its last; they do nothing while it is hidden, and the keys without a meaning never do.
pub proof fn paging_keys_scroll_the_log<V>(a: AppView<V>, key: KeyEvent, logged: Option<usize>)
    requires
        !a.help.active,
        !a.addsig.active,
        key.code == KeyCode::PageUp || key.code == KeyCode::PageDown || key.code == KeyCode::Home
            || key.code == KeyCode::End || key.code == KeyCode::Esc || key.code == KeyCode::Other,
    ensures
        ({
            let (after, effect) = a.on_key(key, logged);
            let old = a.debug_scroll_offset;
            let new = after.debug_scroll_offset;
            &&& effect == EffectView::<V>::Nothing
            &&& after == (AppView { debug_scroll_offset: new, ..a })
            &&& !a.show_debug_panel ==> new == old
            &&& key.code == KeyCode::Esc || key.code == KeyCode::Other ==> new == old
            &&& a.show_debug_panel && key.code == KeyCode::PageUp ==> new == old + 5 || old + 5
                > usize::MAX && new == usize::MAX
            &&& a.show_debug_panel && key.code == KeyCode::PageDown ==> new + 5 == old || old < 5
                && new == 0
            &&& a.show_debug_panel && key.code == KeyCode::Home ==> match logged {
                Some(n) => new + 1 == n || n == 0 && new == 0,
                None => new == old,
            }
            &&& a.show_debug_panel && key.code == KeyCode::End ==> new == 0
        }),
{
}

/// While the help window is open, the arrow keys scroll it by a line, the paging keys by five,
/// the home key by as many lines as it has and the end key to the end, as far as that goes.
/// Three keys close it, and every other key does nothing. What it shows stays while it is open.
pub proof fn help_keys_scroll_or_close<V>(a: AppView<V>, key: KeyEvent, logged: Option<usize>)
    requires
        a.help.active,
        a.help.content.len() <= usize::MAX,
    ensures
        ({
            let (after, effect) = a.on_key(key, logged);
            let old = a.help.scroll_offset as int;
            let new = after.help.scroll_offset as int;
            let closing = key.code == KeyCode::Esc || key.code == KeyCode::Enter || key.code
                == KeyCode::Char('q');
            let by: int = match key.code {
                KeyCode::Up => 1,
                KeyCode::Down => -1,
                KeyCode::PageUp => 5,
                KeyCode::PageDown => -5,
                KeyCode::Home => a.help.content.len() as int,
                KeyCode::End => -(old + 1),
                _ => 0,
            };
            &&& effect == EffectView::<V>::Nothing
            &&& after == (AppView { help: after.help, ..a })
            &&& closing ==> !after.help.active && after.help.content.len() == 0 && new == 0
            &&& !closing ==> {
                &&& after.help == (HelpModalView { scroll_offset: after.help.scroll_offset, ..a.help
                })
                &&& new == old + by || old + by > usize::MAX && new == usize::MAX || old + by < 0
                    && new == 0
            }
        }),
{
}

/// While the search window is open, a character goes to the end of what is searched for and
/// the backspace key takes the last one off; either marks the first match and asks for new
/// ones. What else the window shows stays.
pub proof fn search_text_is_edited<V>(a: AppView<V>, key: KeyEvent, logged: Option<usize>)
    requires
        !a.help.active,
        a.addsig.active,
        key.code is Char || key.code == KeyCode::Backspace,
    ensures
        ({
            let (after, effect) = a.on_key(key, logged);
            let old = a.addsig.input;
            let new = after.addsig.input;
            &&& effect == EffectView::<V>::MatchSignals
            &&& after == (AppView {
                addsig: AddSigView { input: new, selected: 0, ..a.addsig },
                ..a
            })
            &&& key.code matches KeyCode::Char(c) ==> new == old + seq![c]
            &&& key.code == KeyCode::Backspace && old.len() == 0 ==> new == old
            &&& key.code == KeyCode::Backspace && old.len() > 0 ==> new + seq![old[old.len() - 1]]
                == old
        }),
{
    let old = a.addsig.input;
    if let KeyCode::Char(c) = key.code {
        assert(old.push(c) =~= old + seq![c]);
    } else if old.len() > 0 {
        assert(old.drop_last() + seq![old[old.len() - 1]] =~= old);
    }
}

/// While the search window is open, the arrow keys move the mark to the match before or after,
/// round from one end to the other, and change nothing else.
pub proof fn arrows_move_the_mark<V>(a: AppView<V>, key: KeyEvent, logged: Option<usize>)
    requires
        a.wf(),
        !a.help.active,
        a.addsig.active,
        key.code == KeyCode::Up || key.code == KeyCode::Down,
    ensures
        ({
            let (after, effect) = a.on_key(key, logged);
            let n = a.addsig.matches.len();
            let old = a.addsig.selected;
            let new = after.addsig.selected;
            &&& effect == EffectView::<V>::Nothing
            &&& after == (AppView { addsig: AddSigView { selected: new, ..a.addsig }, ..a })
            &&& n == 0 ==> new == old
            &&& n > 0 ==> 0 <= new < n
            &&& n > 0 && key.code == KeyCode::Down ==> new == old + 1 || old + 1 == n && new == 0
            &&& n > 0 && key.code == KeyCode::Up ==> new == old - 1 || old == 0 && new == n - 1
        }),
{
    let n = a.addsig.matches.len();
    if n > 0 {
        if a.addsig.selected + 1 < n {
            vstd::arithmetic::div_mod::lemma_small_mod((a.addsig.selected + 1) as nat, n);
        } else {
            vstd::arithmetic::div_mod::lemma_mod_self_0(n as int);
        }
    }
}

/// The enter key closes the search window, emptied, and chooses the match at the mark: the one
/// that the window shows there. Where there is no match it chooses none.
pub proof fn enter_chooses_the_match_at_the_mark<V>(
    a: AppView<V>,
    key: KeyEvent,
    logged: Option<usize>,
)
    requires
        !a.help.active,
        a.addsig.active,
        key.code == KeyCode::Enter,
    ensures
        ({
            let (after, effect) = a.on_key(key, logged);
            let s = a.addsig;
            &&& after == (AppView { addsig: after.addsig, ..a })
            &&& !after.addsig.active
            &&& after.addsig.input.len() == 0
            &&& after.addsig.matches.len() == 0
            &&& after.addsig.selected == 0
            &&& 0 <= s.selected < s.matches.len() ==> effect == EffectView::<V>::SelectSignal(
                s.matches[s.selected].0,
            )
            &&& !(0 <= s.selected < s.matches.len()) ==> effect == EffectView::<V>::Nothing
        }),
{
}

/// The escape key closes the search window, emptied, and chooses nothing; the paging keys and
/// those without a meaning do nothing in it.
pub proof fn escape_leaves_the_search<V>(a: AppView<V>, key: KeyEvent, logged: Option<usize>)
    requires
        !a.help.active,
        a.addsig.active,
        key.code == KeyCode::PageUp || key.code == KeyCode::PageDown || key.code == KeyCode::Home
            || key.code == KeyCode::End || key.code == KeyCode::Esc || key.code == KeyCode::Other,
    ensures
        ({
            let (after, effect) = a.on_key(key, logged);
            &&& effect == EffectView::<V>::Nothing
            &&& key.code != KeyCode::Esc ==> after == a
            &&& key.code == KeyCode::Esc ==> {
                &&& after == (AppView { addsig: after.addsig, ..a })
                &&& !after.addsig.active
                &&& after.addsig.input.len() == 0
                &&& after.addsig.matches.len() == 0
                &&& after.addsig.selected == 0
            }
        }),
{
}

} // verus!
