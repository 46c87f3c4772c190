//! What the panels show of the debugged program.
use crate::text::joined;
use crate::text::lines;
use crate::text::single_line;
use vstd::prelude::*;

verus! {

/// The state of the execution, as the debugger reports it.
pub struct ExecutionSnapshot {
    pub summary_lines: Vec<String>,
    pub instruction_lines: Vec<String>,
}

/// The lines of the panels.
pub struct ViewState {
    pub execution_lines: Vec<String>,
    pub instruction_lines: Vec<String>,
    pub source_lines: Vec<String>,
    pub signal_lines: Vec<String>,
}

/// What a [`ViewState`] stands for.
pub struct PanelLines {
    pub execution: Seq<Seq<char>>,
    pub instructions: Seq<Seq<char>>,
    pub source: Seq<Seq<char>>,
    pub signals: Seq<Seq<char>>,
}

impl View for ViewState {
    type V = PanelLines;

    open spec fn view(&self) -> PanelLines {
        PanelLines {
            execution: lines(self.execution_lines@),
            instructions: lines(self.instruction_lines@),
            source: lines(self.source_lines@),
            signals: lines(self.signal_lines@),
        }
    }
}

/// The lines of a snapshot, or a line that says that there is none.
pub open spec fn lines_or(found: Option<Vec<String>>, otherwise: Seq<char>) -> Seq<Seq<char>> {
    match found {
        Some(found) => lines(found@),
        None => seq![otherwise],
    }
}

/// The panels that show the given snapshots, each of which may have failed.
pub open spec fn panels_of(
    execution: Option<ExecutionSnapshot>,
    source: Option<Vec<String>>,
    signals: Option<Vec<String>>,
) -> PanelLines {
    PanelLines {
        execution: match execution {
            Some(snapshot) => lines(snapshot.summary_lines@),
            None => seq!["Failed to load execution info"@],
        },
        instructions: match execution {
            Some(snapshot) => lines(snapshot.instruction_lines@),
            None => seq!["Failed to load execution info"@],
        },
        source: lines_or(source, "Failed to load source info"@),
        signals: lines_or(signals, "Failed to load signal info"@),
    }
}

impl ViewState {
    /// Panels that show the given snapshots; a failed one is said to have failed.
    pub fn from_snapshots(
        execution: Option<ExecutionSnapshot>,
        source: Option<Vec<String>>,
        signals: Option<Vec<String>>,
    ) -> (r: Self)
        ensures
            r@ == panels_of(execution, source, signals),
    {
        let (execution_lines, instruction_lines) = match execution {
            Some(snapshot) => (snapshot.summary_lines, snapshot.instruction_lines),
            None => (
                single_line("Failed to load execution info"),
                single_line("Failed to load execution info"),
            ),
        };
        let source_lines = match source {
            Some(found) => found,
            None => single_line("Failed to load source info"),
        };
        let signal_lines = match signals {
            Some(found) => found,
            None => single_line("Failed to load signal info"),
        };
        ViewState { execution_lines, instruction_lines, source_lines, signal_lines }
    }

    /// Shows other signals, or the error that came in their place.
    pub fn show_signals(&mut self, signals: Result<Vec<String>, String>)
        ensures
            final(self)@ == (PanelLines {
                signals: match signals {
                    Ok(found) => lines(found@),
                    Err(error) => seq!["Error getting signal info: "@ + error@],
                },
                ..old(self)@
            }),
    {
        self.signal_lines = match signals {
            Ok(found) => found,
            Err(error) => single_line(
                joined("Error getting signal info: ", error.as_str()).as_str(),
            ),
        };
    }
}

} // verus!
