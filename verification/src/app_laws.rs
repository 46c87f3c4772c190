//! What holds of the front end whatever is typed.
use crate::app::is_transient;
use crate::app::running;
use crate::app::AppView;
use crate::app::EffectView;
use crate::app::KeyCode;
use crate::app::KeyEvent;
use crate::logger::LogMessage;
use crate::text::head_word;
use crate::text::tail_words;
use crate::text::trimmed;
use crate::text::white_space;
use crate::text::without_leading;
use crate::text::without_trailing;
use crate::window::window;
use crate::window::window_len;
use vstd::prelude::*;

verus! {

/// While the help window is open, a key changes nothing but the help window, and nothing
/// is done outside.
pub proof fn help_window_takes_every_key<V>(a: AppView<V>, key: KeyEvent, logged: Option<usize>)
    requires
        a.help.active,
    ensures
        a.on_key(key, logged).1 == EffectView::<V>::Nothing,
        a.on_key(key, logged).0 == (AppView { help: a.on_key(key, logged).0.help, ..a }),
{
}

/// While the search window is open and the help window is not, a key changes nothing but
/// the search window, and no command runs.
pub proof fn search_window_takes_every_key<V>(a: AppView<V>, key: KeyEvent, logged: Option<usize>)
    requires
        !a.help.active,
        a.addsig.active,
    ensures
        !(a.on_key(key, logged).1 is RunCommand),
        a.on_key(key, logged).0 == (AppView { addsig: a.on_key(key, logged).0.addsig, ..a }),
{
}

/// No key opens a window, and no key but those of the search window changes what is
/// searched for.
pub proof fn keys_open_no_window<V>(a: AppView<V>, key: KeyEvent, logged: Option<usize>)
    ensures
        a.on_key(key, logged).0.help.active ==> a.help.active,
        a.on_key(key, logged).0.addsig.active ==> a.addsig.active,
        !a.addsig.active ==> a.on_key(key, logged).0.addsig == a.addsig,
        !a.help.active ==> a.on_key(key, logged).0.help == a.help,
{
}

/// One key ends the front end: `d` with the control key, while no window is open.
pub proof fn control_d_quits<V>(a: AppView<V>, key: KeyEvent, logged: Option<usize>)
    requires
        !a.should_quit,
    ensures
        a.on_key(key, logged).0.should_quit <==> {
            &&& !a.help.active
            &&& !a.addsig.active
            &&& key.code == KeyCode::Char('d')
            &&& key.control
        },
{
}

/// Whatever is typed, the command that is called back is one of those that can be, and
/// the mark in the search window stands on a match. A command that ended and signals that
/// were found leave it so.
pub proof fn state_stays_sound<V>(
    a: AppView<V>,
    key: KeyEvent,
    logged: Option<usize>,
    error: Option<Seq<char>>,
    matches: Seq<(V, String)>,
)
    requires
        a.wf(),
    ensures
        a.on_key(key, logged).0.wf(),
        a.finished(error).wf(),
        (AppView { addsig: a.addsig.offering(matches), ..a }).wf(),
{
}

/// Going on to the next command takes back going to the previous one, and the other way
/// round, while one is called back.
pub proof fn newer_undoes_older<V>(a: AppView<V>)
    requires
        a.wf(),
        a.history_index is Some,
        a.history.len() <= usize::MAX,
    ensures
        a.older().newer() == a.recalled(a.history_index->0),
        a.newer().older() == a.recalled(a.history_index->0),
{
}

/// The previous command called back a number of times.
pub open spec fn older_times<V>(a: AppView<V>, k: nat) -> AppView<V>
    decreases k,
{
    if k == 0 {
        a
    } else {
        older_times(a, (k - 1) as nat).older()
    }
}

/// From no command called back, going to the previous one again and again calls back
/// every command, the newest first.
pub proof fn older_reaches_every_command<V>(a: AppView<V>, k: nat)
    requires
        a.wf(),
        a.history_index is None,
        0 < k <= a.history.len() <= usize::MAX,
    ensures
        older_times(a, k) == a.recalled((a.history.len() - k) as usize),
    decreases k,
{
    if k > 1 {
        older_reaches_every_command(a, (k - 1) as nat);
        assert(older_times(a, k) == older_times(a, (k - 1) as nat).older());
    } else {
        assert(older_times(a, 0) == a);
        assert(older_times(a, 1) == a.older());
    }
}

proof fn leading_is_gone(s: Seq<char>)
    ensures
        without_leading(s).len() > 0 ==> !white_space(without_leading(s).first()),
    decreases s.len(),
{
    if s.len() > 0 && white_space(s.first()) {
        leading_is_gone(s.drop_first());
    }
}

proof fn trailing_is_gone(s: Seq<char>)
    ensures
        without_trailing(s).len() > 0 ==> !white_space(without_trailing(s).last()),
        without_trailing(s).len() > 0 ==> without_trailing(s).first() == s.first(),
    decreases s.len(),
{
    if s.len() > 0 && white_space(s.last()) {
        trailing_is_gone(s.drop_last());
    }
}

/// A trimmed text has no white space at its ends, and trimming it again changes nothing.
pub proof fn trimming_is_thorough(s: Seq<char>)
    ensures
        trimmed(s).len() > 0 ==> !white_space(trimmed(s).first()) && !white_space(trimmed(s).last()),
        trimmed(trimmed(s)) == trimmed(s),
{
    leading_is_gone(s);
    trailing_is_gone(without_leading(s));
}

/// What can be called back are commands that were typed, without white space around them,
/// none of them transient, and the last one is what an empty line repeats.
pub open spec fn well_recorded<V>(a: AppView<V>) -> bool {
    &&& forall|i: int|
        0 <= i < a.history.len() ==> {
            &&& (#[trigger] a.history[i]).len() > 0
            &&& trimmed(a.history[i]) == a.history[i]
            &&& !is_transient(a.history[i])
        }
    &&& a.last_command == if a.history.len() == 0 {
        None
    } else {
        Some(a.history.last())
    }
}

/// Whatever is typed, the record of commands stays well formed; `quit` and `clear` never
/// enter it.
pub proof fn record_stays_well_formed<V>(
    a: AppView<V>,
    key: KeyEvent,
    logged: Option<usize>,
    error: Option<Seq<char>>,
)
    requires
        well_recorded(a),
    ensures
        well_recorded(a.on_key(key, logged).0),
        well_recorded(a.finished(error)),
{
    trimming_is_thorough(a.input);
    let after = a.on_key(key, logged).0;
    assert forall|i: int| 0 <= i < after.history.len() implies {
        &&& (#[trigger] after.history[i]).len() > 0
        &&& trimmed(after.history[i]) == after.history[i]
        &&& !is_transient(after.history[i])
    } by {
        if i < a.history.len() {
            assert(a.history[i] == after.history[i]);
        }
    }
}

/// No key takes a command out of the record or changes one.
pub proof fn record_only_grows<V>(a: AppView<V>, key: KeyEvent, logged: Option<usize>)
    ensures
        a.history.is_prefix_of(a.on_key(key, logged).0.history),
        a.on_key(key, logged).0.history.len() <= a.history.len() + 1,
{
    let after = a.on_key(key, logged).0.history;
    assert(after.subrange(0, a.history.len() as int) =~= a.history);
}

/// An empty line runs the command that ran last and can be repeated: what was typed and
/// entered runs again when nothing is typed before the next entry.
pub proof fn empty_line_repeats<V>(a: AppView<V>, key: KeyEvent, logged: Option<usize>, error:
    Option<Seq<char>>)
    requires
        !a.help.active,
        !a.addsig.active,
        key.code == KeyCode::Enter,
        trimmed(a.input).len() > 0,
        !is_transient(trimmed(a.input)),
    ensures
        a.on_key(key, logged).1 == running::<V>(trimmed(a.input)),
        a.on_key(key, logged).0.finished(error).on_key(key, logged).1 == running::<V>(
            trimmed(a.input),
        ),
{
    let again = a.on_key(key, logged).0.finished(error);
    assert(again.input.len() == 0);
    assert(trimmed(again.input).len() == 0);
}

/// A command's name and arguments make up the command again: with a space between them
/// where the command has one, and the name has none.
pub proof fn command_is_name_and_arguments(command: Seq<char>)
    ensures
        command.contains(' ') ==> command == head_word(command).push(' ') + tail_words(command),
        !command.contains(' ') ==> command == head_word(command) && tail_words(command).len() == 0,
        !head_word(command).contains(' '),
{
    command.index_of_first_ensures(' ');
    if command.contains(' ') {
        let i = command.index_of_first(' ')->0;
        assert(command =~= head_word(command).push(' ') + tail_words(command));
        assert forall|j: int| 0 <= j < i implies head_word(command)[j] != ' ' by {
            assert(command[j] != ' ');
        }
    }
}

/// In the help window, one key leads to the first lines and one to the last, however many
/// of them fit.
pub proof fn help_can_be_scrolled_to_its_ends<V>(
    a: AppView<V>,
    key: KeyEvent,
    logged: Option<usize>,
    available: int,
)
    requires
        a.help.active,
        a.help.content.len() <= usize::MAX,
        available >= 0,
    ensures
        ({
            let content = a.help.content;
            let shown = window_len(content.len() as int, available);
            let after = a.on_key(key, logged).0.help;
            let lines = window(after.content, available, after.scroll_offset as int);
            &&& key.code == KeyCode::Home ==> lines == content.take(shown)
            &&& key.code == KeyCode::End ==> lines == content.skip(content.len() - shown)
        }),
{
    let content = a.help.content;
    let shown = window_len(content.len() as int, available);
    let after = a.on_key(key, logged).0.help;
    let lines = window(after.content, available, after.scroll_offset as int);
    if key.code == KeyCode::Home {
        assert(lines =~= content.take(shown));
    }
    if key.code == KeyCode::End {
        assert(lines =~= content.skip(content.len() - shown));
    }
}

/// In the debug panel, one key leads to the first messages and one to the last, however
/// many of them fit.
pub proof fn log_can_be_scrolled_to_its_ends<V>(
    a: AppView<V>,
    key: KeyEvent,
    logs: Seq<LogMessage>,
    available: int,
)
    requires
        !a.help.active,
        !a.addsig.active,
        a.show_debug_panel,
        logs.len() <= usize::MAX,
        available >= 1,
    ensures
        ({
            let shown = window_len(logs.len() as int, available);
            let after = a.on_key(key, Some(logs.len() as usize)).0;
            let lines = window(logs, available, after.debug_scroll_offset as int);
            &&& key.code == KeyCode::Home ==> lines == logs.take(shown)
            &&& key.code == KeyCode::End ==> lines == logs.skip(logs.len() - shown)
        }),
{
    let shown = window_len(logs.len() as int, available);
    let after = a.on_key(key, Some(logs.len() as usize)).0;
    let lines = window(logs, available, after.debug_scroll_offset as int);
    if key.code == KeyCode::Home {
        assert(lines =~= logs.take(shown));
    }
    if key.code == KeyCode::End {
        assert(lines =~= logs.skip(logs.len() - shown));
    }
}

/// Taking a character back undoes typing it, in the line that is typed and in the search
/// window.
pub proof fn backspace_undoes_typing<V>(
    a: AppView<V>,
    typed: KeyEvent,
    back: KeyEvent,
    logged: Option<usize>,
)
    requires
        !a.help.active,
        typed.code is Char,
        !typed.control,
        back.code == KeyCode::Backspace,
    ensures
        ({
            let after = a.on_key(typed, logged).0.on_key(back, logged).0;
            if a.addsig.active {
                after == (AppView { addsig: a.addsig.searching(a.addsig.input), ..a })
            } else {
                after == (AppView { history_index: None, ..a })
            }
        }),
{
    let c = typed.code->Char_0;
    assert(a.input.push(c).drop_last() =~= a.input);
    assert(a.addsig.input.push(c).drop_last() =~= a.addsig.input);
}

} // verus!
