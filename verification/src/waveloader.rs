//! Loading the waves that the debug stub steps through: the steps that get the
//! signals from a mapping script, the check of what it returned, and the choice of the
//! program counter and the registers among them.
use crate::merge::in_order;
use crate::merge::is_merge;
use crate::merge::lists;
use crate::merge::merge_changes;
use crate::merge::merge_holds_every_entry;
use crate::merge::merge_of_ordered_is_ordered;
use crate::signal_map::SignalMap;
use crate::text::decimal;
use crate::text::decimal_injective;
use crate::text::lines;
use crate::text::to_decimal;
use crate::waves::breaks_off;
use crate::waves::first_match_is_unique;
use crate::waves::is_first_match;
use crate::waves::make_zero_signal;
use crate::waves::ordered;
use crate::waves::readable_at;
use crate::waves::search;
use crate::waves::seen_at;
use crate::waves::shows;
use crate::waves::shows_other;
use crate::waves::signal_changes;
use crate::waves::times_of;
use crate::waves::zero_signal_reads_as_number_zero;
use crate::waves::zeros;
use crate::waves::Change;
use crate::waves::Mappable;
use crate::waves::Search;
use crate::waves::ValueView;
use crate::waves::Wave;
use crate::waves::WellenSignalExt;
use vstd::prelude::*;

verus! {

/// What happened while a mapping script was read and run.
#[derive(Debug, Clone, Copy, PartialEq, Eq, Structural)]
pub enum MappingParsedEvents {
    FileStatus,
    FunctionStatus,
    WaveCreationStatus,
    GetFnCall,
}

/// The steps that get the signals from a mapping script, in their order.
#[derive(Debug, Clone, Copy, PartialEq, Eq, Structural)]
pub enum ScriptStep {
    /// Read the script's text.
    ReadScript,
    /// Load it as a module.
    LoadModule,
    /// Open the waveform that it is to look into.
    CreateWaveform,
    /// Hand the waveform to the interpreter.
    BindWaveform,
    /// Look up the function to call.
    FindFunction,
    /// Call it on the waveform.
    CallFunction,
    /// Take signals by name from what it returned.
    ExtractSignals,
    /// All steps succeeded.
    Succeeded,
    /// A step failed, and the steps after it are not taken.
    Failed,
}

/// How far the run of a mapping script has come, and what happened so far.
pub struct ScriptRun {
    pub events: Vec<MappingParsedEvents>,
    pub step: ScriptStep,
}

/// A run that has not ended.
pub open spec fn pending(step: ScriptStep) -> bool {
    step != ScriptStep::Succeeded && step != ScriptStep::Failed
}

/// The step after one that succeeded.
pub open spec fn step_after(step: ScriptStep) -> ScriptStep {
    match step {
        ScriptStep::ReadScript => ScriptStep::LoadModule,
        ScriptStep::LoadModule => ScriptStep::CreateWaveform,
        ScriptStep::CreateWaveform => ScriptStep::BindWaveform,
        ScriptStep::BindWaveform => ScriptStep::FindFunction,
        ScriptStep::FindFunction => ScriptStep::CallFunction,
        ScriptStep::CallFunction => ScriptStep::ExtractSignals,
        ScriptStep::ExtractSignals => ScriptStep::Succeeded,
        ScriptStep::Succeeded => ScriptStep::Succeeded,
        ScriptStep::Failed => ScriptStep::Failed,
    }
}

/// The step after one that succeeded or failed.
pub open spec fn stepped(step: ScriptStep, succeeded: bool) -> ScriptStep {
    if succeeded {
        step_after(step)
    } else {
        ScriptStep::Failed
    }
}

/// The events that a step leaves behind, by whether it succeeded.
pub open spec fn events_of(step: ScriptStep, succeeded: bool) -> Seq<MappingParsedEvents> {
    match step {
        ScriptStep::ReadScript => seq![MappingParsedEvents::FileStatus],
        ScriptStep::LoadModule => if succeeded {
            seq![]
        } else {
            seq![MappingParsedEvents::WaveCreationStatus]
        },
        ScriptStep::CreateWaveform => seq![MappingParsedEvents::WaveCreationStatus],
        ScriptStep::FindFunction => if succeeded {
            seq![MappingParsedEvents::FunctionStatus]
        } else {
            seq![MappingParsedEvents::FunctionStatus, MappingParsedEvents::GetFnCall]
        },
        ScriptStep::CallFunction => seq![MappingParsedEvents::GetFnCall],
        _ => seq![],
    }
}

impl ScriptRun {
    /// A run before its first step.
    pub fn new() -> (r: Self)
        ensures
            r.events@ == Seq::<MappingParsedEvents>::empty(),
            r.step == ScriptStep::ReadScript,
    {
        ScriptRun { events: Vec::new(), step: ScriptStep::ReadScript }
    }

    /// Notes whether the step at hand succeeded, and goes on to the next one or ends.
    pub fn advance(&mut self, succeeded: bool)
        requires
            pending(old(self).step),
        ensures
            final(self).events@ == old(self).events@ + events_of(old(self).step, succeeded),
            final(self).step == stepped(old(self).step, succeeded),
    {
        let ghost before = self.events@;
        let step = self.step;
        let next = match step {
            ScriptStep::ReadScript => {
                self.events.push(MappingParsedEvents::FileStatus);
                ScriptStep::LoadModule
            },
            ScriptStep::LoadModule => {
                if !succeeded {
                    self.events.push(MappingParsedEvents::WaveCreationStatus);
                }
                ScriptStep::CreateWaveform
            },
            ScriptStep::CreateWaveform => {
                self.events.push(MappingParsedEvents::WaveCreationStatus);
                ScriptStep::BindWaveform
            },
            ScriptStep::BindWaveform => ScriptStep::FindFunction,
            ScriptStep::FindFunction => {
                self.events.push(MappingParsedEvents::FunctionStatus);
                if !succeeded {
                    self.events.push(MappingParsedEvents::GetFnCall);
                }
                ScriptStep::CallFunction
            },
            ScriptStep::CallFunction => {
                self.events.push(MappingParsedEvents::GetFnCall);
                ScriptStep::ExtractSignals
            },
            ScriptStep::ExtractSignals => ScriptStep::Succeeded,
            ScriptStep::Succeeded => ScriptStep::Succeeded,
            ScriptStep::Failed => ScriptStep::Failed,
        };
        assert(self.events@ =~= before + events_of(step, succeeded));
        self.step = if succeeded {
            next
        } else {
            ScriptStep::Failed
        };
    }
}

/// How far a run comes, and what happens in it, where the steps succeed or fail as
/// `outcomes` says. Nothing happens after its end.
pub open spec fn run_through(outcomes: Seq<bool>) -> (Seq<MappingParsedEvents>, ScriptStep)
    decreases outcomes.len(),
{
    if outcomes.len() == 0 {
        (seq![], ScriptStep::ReadScript)
    } else {
        let (events, step) = run_through(outcomes.drop_last());
        if pending(step) {
            (events + events_of(step, outcomes.last()), stepped(step, outcomes.last()))
        } else {
            (events, step)
        }
    }
}

/// The position of a step in the order of steps.
spec fn position(step: ScriptStep) -> int {
    match step {
        ScriptStep::ReadScript => 0,
        ScriptStep::LoadModule => 1,
        ScriptStep::CreateWaveform => 2,
        ScriptStep::BindWaveform => 3,
        ScriptStep::FindFunction => 4,
        ScriptStep::CallFunction => 5,
        ScriptStep::ExtractSignals => 6,
        ScriptStep::Succeeded => 7,
        ScriptStep::Failed => 8,
    }
}

/// The events of a run whose first `n` steps succeeded.
spec fn events_upto(n: int) -> Seq<MappingParsedEvents> {
    if n <= 0 {
        seq![]
    } else if n <= 2 {
        seq![MappingParsedEvents::FileStatus]
    } else if n <= 4 {
        seq![MappingParsedEvents::FileStatus, MappingParsedEvents::WaveCreationStatus]
    } else if n == 5 {
        seq![
            MappingParsedEvents::FileStatus,
            MappingParsedEvents::WaveCreationStatus,
            MappingParsedEvents::FunctionStatus,
        ]
    } else {
        seq![
            MappingParsedEvents::FileStatus,
            MappingParsedEvents::WaveCreationStatus,
            MappingParsedEvents::FunctionStatus,
            MappingParsedEvents::GetFnCall,
        ]
    }
}

proof fn run_states(outcomes: Seq<bool>)
    ensures
        ({
            let (events, step) = run_through(outcomes);
            let n = if outcomes.len() < 7 {
                outcomes.len() as int
            } else {
                7
            };
            if forall|i: int| 0 <= i < n ==> #[trigger] outcomes[i] {
                position(step) == n && events == events_upto(n)
            } else {
                step == ScriptStep::Failed && events.len() > 0 && events[0]
                    == MappingParsedEvents::FileStatus
            }
        }),
    decreases outcomes.len(),
{
    if outcomes.len() > 0 {
        let shorter = outcomes.drop_last();
        run_states(shorter);
        let m = if shorter.len() < 7 {
            shorter.len() as int
        } else {
            7
        };
        assert(forall|i: int| 0 <= i < m ==> shorter[i] == #[trigger] outcomes[i]);
        if forall|i: int| 0 <= i < m ==> #[trigger] shorter[i] {
            assert(forall|i: int| 0 <= i < m ==> #[trigger] outcomes[i]);
            if m < 7 {
                assert(outcomes[m] == outcomes.last());
                if outcomes.last() {
                    assert(run_through(outcomes).0 =~= events_upto(m + 1));
                }
            }
        } else {
            let i = choose|i: int| 0 <= i < m && !(#[trigger] shorter[i]);
            assert(!outcomes[i]);
        }
    }
}

/// A run succeeds exactly where its seven steps succeed, and then every kind of event
/// happened once. The first event of every run is about the script's file.
pub proof fn run_succeeds_with_all_steps(outcomes: Seq<bool>)
    ensures
        run_through(outcomes).1 == ScriptStep::Succeeded <==> outcomes.len() >= 7 && forall|i: int|
            0 <= i < 7 ==> #[trigger] outcomes[i],
        run_through(outcomes).1 == ScriptStep::Succeeded ==> run_through(outcomes).0 == seq![
            MappingParsedEvents::FileStatus,
            MappingParsedEvents::WaveCreationStatus,
            MappingParsedEvents::FunctionStatus,
            MappingParsedEvents::GetFnCall,
        ],
        outcomes.len() > 0 ==> run_through(outcomes).0.len() > 0 && run_through(outcomes).0[0]
            == MappingParsedEvents::FileStatus,
{
    run_states(outcomes);
}

/// What a mapping script gave.
pub struct ValidationResult {
    /// The signals by name. If `None`, it failed.
    pub signals: Option<SignalMap>,
}

/// The signals of a list, by name: those that could be converted, a later one in place
/// of an earlier one of the same name.
pub open spec fn converted(extracted: Seq<(String, Option<wellen::Signal>)>) -> Map<Seq<char>, wellen::Signal>
    decreases extracted.len(),
{
    if extracted.len() == 0 {
        Map::empty()
    } else {
        let before = converted(extracted.drop_last());
        match extracted.last().1 {
            Some(signal) => before.insert(extracted.last().0@, signal),
            None => before,
        }
    }
}

impl ValidationResult {
    /// The result of a run that failed, whatever happened in it.
    pub fn from_events(_all_events: Vec<MappingParsedEvents>) -> (r: Self)
        ensures
            r.signals is None,
    {
        ValidationResult { signals: None }
    }

    /// The result of a run that ended: after success the signals that could be converted,
    /// after failure none.
    pub fn from_run(
        run: ScriptRun,
        extracted: Vec<(String, Option<wellen::Signal>)>,
    ) -> (r: Self)
        ensures
            match r.signals {
                Some(signals) => {
                    &&& run.step == ScriptStep::Succeeded
                    &&& signals.wf()
                    &&& signals@ == converted(extracted@)
                },
                None => run.step != ScriptStep::Succeeded,
            },
    {
        if run.step != ScriptStep::Succeeded {
            return ValidationResult::from_events(run.events);
        }
        let mut signals = SignalMap::new();
        let ghost all = extracted@;
        for entry in it: extracted.into_iter()
            invariant
                it.seq() == all,
                signals.wf(),
                signals@ == converted(all.take(it.index())),
        {
            assert(all.take(it.index() + 1).drop_last() =~= all.take(it.index()));
            let (name, signal) = entry;
            if let Some(signal) = signal {
                signals.insert(name, signal);
            }
        }
        assert(all.take(all.len() as int) =~= all);
        ValidationResult { signals: Some(signals) }
    }
}

/// The name of the program counter's signal.
pub open spec fn pc_name() -> Seq<char> {
    "pc"@
}

/// The name of the signal of register `i`.
pub open spec fn register_name(i: nat) -> Seq<char> {
    "x"@ + decimal(i)
}

/// The name of the signal of a register.
fn name_of_register(i: u32) -> (r: String)
    ensures
        r@ == register_name(i as nat),
{
    "x".to_string().concat(to_decimal(i).as_str())
}

/// No register's signal has the name of another's, nor that of the program counter.
pub proof fn register_names_are_distinct(i: nat, j: nat)
    ensures
        register_name(i) != pc_name(),
        register_name(i) == register_name(j) ==> i == j,
{
    reveal_strlit("pc");
    reveal_strlit("x");
    assert(register_name(i)[0] == 'x');
    assert(pc_name()[0] == 'p');
    if register_name(i) == register_name(j) {
        assert(register_name(i).skip(1) =~= decimal(i));
        assert(register_name(j).skip(1) =~= decimal(j));
        decimal_injective(i, j);
    }
}

/// The names that a debugged design needs and `signals` does not have: of the program
/// counter and of the first `n` registers, in this order.
pub open spec fn missing(signals: Map<Seq<char>, wellen::Signal>, n: nat) -> Seq<Seq<char>>
    decreases n,
{
    if n == 0 {
        if signals.contains_key(pc_name()) {
            seq![]
        } else {
            seq![pc_name()]
        }
    } else {
        let before = missing(signals, (n - 1) as nat);
        if signals.contains_key(register_name((n - 1) as nat)) {
            before
        } else {
            before.push(register_name((n - 1) as nat))
        }
    }
}

/// The names of the required signals that are not there.
pub fn missing_signals(signals: &SignalMap) -> (r: Vec<String>)
    requires
        signals.wf(),
    ensures
        lines(r@) == missing(signals@, 32),
{
    let mut names: Vec<String> = Vec::new();
    if !signals.contains_key("pc") {
        names.push("pc".to_string());
    }
    assert(lines(names@) =~= missing(signals@, 0));
    let mut i: u32 = 0;
    while i < 32
        invariant
            0 <= i <= 32,
            signals.wf(),
            lines(names@) == missing(signals@, i as nat),
        decreases 32 - i,
    {
        let name = name_of_register(i);
        let ghost before = names@;
        if !signals.contains_key(name.as_str()) {
            names.push(name);
            assert(lines(names@) =~= lines(before).push(name@));
        }
        i += 1;
    }
    names
}

/// The missing names are those of the program counter and of the first `n` registers that
/// `signals` does not have, and no others. So none is missing exactly where all are there.
pub proof fn missing_are_the_absent_ones(signals: Map<Seq<char>, wellen::Signal>, n: nat, name: Seq<char>)
    ensures
        missing(signals, n).contains(name) <==> !signals.contains_key(name) && (name == pc_name()
            || exists|i: nat| i < n && name == #[trigger] register_name(i)),
        missing(signals, n).len() == 0 <==> signals.contains_key(pc_name()) && forall|i: nat|
            i < n ==> signals.contains_key(#[trigger] register_name(i)),
    decreases n,
{
    if n > 0 {
        let last = (n - 1) as nat;
        missing_are_the_absent_ones(signals, last, name);
        let before = missing(signals, last);
        if !signals.contains_key(register_name(last)) {
            let now = before.push(register_name(last));
            assert(now[before.len() as int] == register_name(last));
            if before.contains(name) {
                let k = choose|k: int| 0 <= k < before.len() && before[k] == name;
                assert(now[k] == name);
            }
        }
        if exists|i: nat| i < n && name == #[trigger] register_name(i) {
            let i = choose|i: nat| i < n && name == #[trigger] register_name(i);
            assert(i < last || i == last);
        }
    } else if !signals.contains_key(pc_name()) {
        assert(missing(signals, 0)[0] == pc_name());
    }
}

/// The signals that the debug stub reads.
pub struct RequiredWaves {
    pub pc: wellen::Signal,
    pub gprs: Vec<Wave>,
}

/// Where the debug stub stands in the waveform.
pub struct WaveCursor {
    pub time_idx: u32,
    pub all_changes: Vec<u32>,
    pub all_times: Vec<u64>,
}

/// A waveform, ready to be stepped through.
pub struct Loaded {
    pub waves: RequiredWaves,
    pub cursor: WaveCursor,
}

/// Why a waveform cannot be stepped through.
#[derive(Debug, Clone, Copy, PartialEq, Eq, Structural)]
pub enum LoadError {
    /// The mapping script failed.
    Validation,
    /// No signal is named as the program counter.
    NoPc,
    /// A required signal never changes.
    NoChanges,
    /// A change of the program counter that is earlier than its first one, and so cannot be
    /// read, comes before the value that the program starts at.
    UnreadablePc,
    /// The program counter never has the value that the program starts at.
    NoFirstPc,
}

impl LoadError {
    /// What went wrong, in words.
    pub fn message(&self) -> (r: &'static str)
        ensures
            r@ == match *self {
                LoadError::Validation => "Failed to validate get_gdb_signals"@,
                LoadError::NoPc => "No signal provided named pc!"@,
                LoadError::NoChanges => "A required signal has no changes"@,
                LoadError::UnreadablePc => "The changes of pc are out of order"@,
                LoadError::NoFirstPc => "The first pc is not in the waveform"@,
            },
    {
        match self {
            LoadError::Validation => "Failed to validate get_gdb_signals",
            LoadError::NoPc => "No signal provided named pc!",
            LoadError::NoChanges => "A required signal has no changes",
            LoadError::UnreadablePc => "The changes of pc are out of order",
            LoadError::NoFirstPc => "The first pc is not in the waveform",
        }
    }
}

/// The one change of a register that the waveform does not hold.
pub open spec fn untraced() -> Seq<Change> {
    seq![(0u32, ValueView::Bits(zeros(32)))]
}

/// The wave of register `i`: what `signals` has under its name, else constant zero.
pub open spec fn is_register(
    signals: Map<Seq<char>, wellen::Signal>,
    i: nat,
    wave: Wave,
) -> bool {
    if signals.contains_key(register_name(i)) {
        wave == Wave::Recorded(signals[register_name(i)])
    } else {
        wave.changes() == untraced() && wave.reference() == 0xdeadbeef
    }
}

/// The waves are the program counter and the 32 registers of `signals`.
pub open spec fn is_selection(signals: Map<Seq<char>, wellen::Signal>, waves: RequiredWaves) -> bool {
    &&& signals.contains_key(pc_name())
    &&& waves.pc == signals[pc_name()]
    &&& waves.gprs@.len() == 32
    &&& forall|i: nat| i < 32 ==> is_register(signals, i, #[trigger] waves.gprs@[i as int])
}

/// The changes of the program counter and of the registers, in this order.
pub open spec fn required_changes(waves: RequiredWaves) -> Seq<Seq<Change>> {
    seq![signal_changes(waves.pc)] + waves.gprs@.map_values(|w: Wave| w.changes())
}

/// The change times of the program counter and of the registers, in this order.
pub open spec fn required_times(waves: RequiredWaves) -> Seq<Seq<u32>> {
    required_changes(waves).map_values(|c: Seq<Change>| times_of(c))
}

/// A required signal never changes.
pub open spec fn lacks_changes(signals: Map<Seq<char>, wellen::Signal>) -> bool {
    ||| signal_changes(signals[pc_name()]).len() == 0
    ||| exists|i: nat|
        i < 32 && signals.contains_key(#[trigger] register_name(i))
            && signal_changes(signals[register_name(i)]).len() == 0
}

impl RequiredWaves {
    /// Takes the program counter and the registers out of the signals. A register that
    /// is not among them reads as zero throughout.
    pub fn select(signals: SignalMap) -> (r: Self)
        requires
            signals.wf(),
            signals@.contains_key(pc_name()),
        ensures
            is_selection(signals@, r),
    {
        let ghost all = signals@;
        let mut signals = signals;
        let pc = signals.remove("pc").unwrap();
        proof {
            assert forall|i: nat| #[trigger] register_name(i) != pc_name() by {
                register_names_are_distinct(i, i);
            }
        }
        let mut gprs: Vec<Wave> = Vec::new();
        let mut val: u32 = 0;
        while val < 32
            invariant
                0 <= val <= 32,
                signals.wf(),
                gprs@.len() == val,
                forall|i: nat| i < val ==> is_register(all, i, #[trigger] gprs@[i as int]),
                forall|i: nat|
                    val <= i ==> (signals@.contains_key(#[trigger] register_name(i))
                        <==> all.contains_key(register_name(i))),
                forall|i: nat|
                    val <= i && all.contains_key(#[trigger] register_name(i))
                        ==> signals@[register_name(i)] == all[register_name(i)],
            decreases 32 - val,
        {
            let name = name_of_register(val);
            proof {
                assert forall|i: nat| val < i implies #[trigger] register_name(i) != name@ by {
                    register_names_are_distinct(i, val as nat);
                }
            }
            let wave = match signals.remove(name.as_str()) {
                Some(signal) => Wave::Recorded(signal),
                None => make_zero_signal(32, 0),
            };
            assert(is_register(all, val as nat, wave));
            gprs.push(wave);
            val += 1;
        }
        RequiredWaves { pc, gprs }
    }

    /// All points of the time table at which one of the waves changes.
    pub fn merged_changes(&self) -> (r: Vec<u32>)
        requires
            forall|i: int|
                0 <= i < required_changes(*self).len() ==> (#[trigger] required_changes(
                    *self,
                )[i]).len() > 0,
        ensures
            is_merge(required_times(*self), r@),
    {
        let ghost all = required_times(*self);
        let mut together: Vec<&[u32]> = Vec::new();
        together.push(self.pc.time_indices());
        assert(all[0] == times_of(required_changes(*self)[0]));
        let mut i: usize = 0;
        while i < self.gprs.len()
            invariant
                all == required_times(*self),
                0 <= i <= self.gprs@.len(),
                together@.len() == i + 1,
                forall|j: int| 0 <= j <= i ==> (#[trigger] together@[j])@ == all[j],
            decreases self.gprs@.len() - i,
        {
            assert(all[i + 1] == times_of(required_changes(*self)[i + 1]));
            together.push(self.gprs[i].time_indices());
            i += 1;
        }
        assert(lists(together@) =~= all);
        assert forall|j: int| 0 <= j < together@.len() implies (#[trigger] together@[j])@.len()
            > 0 by {
            assert(all[j] == times_of(required_changes(*self)[j]));
        }
        merge_changes(together)
    }
}

/// Whether a required signal never changes.
fn some_lack_changes(signals: &SignalMap) -> (r: bool)
    requires
        signals.wf(),
        signals@.contains_key(pc_name()),
    ensures
        r == lacks_changes(signals@),
{
    if let Some(pc) = signals.get("pc") {
        if pc.time_indices().len() == 0 {
            return true;
        }
    }
    let mut i: u32 = 0;
    while i < 32
        invariant
            0 <= i <= 32,
            signals.wf(),
            signal_changes(signals@[pc_name()]).len() > 0,
            forall|j: nat|
                j < i && signals@.contains_key(#[trigger] register_name(j)) ==> signal_changes(
                    signals@[register_name(j)],
                ).len() > 0,
        decreases 32 - i,
    {
        let name = name_of_register(i);
        if let Some(register) = signals.get(name.as_str()) {
            if register.time_indices().len() == 0 {
                return true;
            }
        }
        i += 1;
    }
    false
}

/// Where no required signal lacks changes, each of the selected ones has some.
proof fn selection_changes(signals: Map<Seq<char>, wellen::Signal>, waves: RequiredWaves)
    requires
        is_selection(signals, waves),
        !lacks_changes(signals),
    ensures
        forall|i: int|
            0 <= i < required_changes(waves).len() ==> (#[trigger] required_changes(waves)[i]).len()
                > 0,
{
    let required = required_changes(waves);
    assert forall|k: int| 0 <= k < required.len() implies (#[trigger] required[k]).len() > 0 by {
        if k > 0 {
            let i = (k - 1) as nat;
            assert(is_register(signals, i, waves.gprs@[i as int]));
            assert(required[k] == waves.gprs@[i as int].changes());
            if signals.contains_key(register_name(i)) {
                assert(signal_changes(signals[register_name(i)]).len() > 0);
            }
        }
    }
}

/// Signals can be stepped through from where the program counter first has the value
/// `first_pc`: it is among them, every required signal changes, and the search for that
/// value finds it.
pub open spec fn loadable<T: Mappable>(
    signals: Map<Seq<char>, wellen::Signal>,
    first_pc: T,
) -> bool {
    &&& signals.contains_key(pc_name())
    &&& !lacks_changes(signals)
    &&& !breaks_off(signal_changes(signals[pc_name()]), first_pc)
    &&& !is_first_match(signal_changes(signals[pc_name()]), first_pc, None)
}

/// The waveform that is stepped through: the selected signals, all points of the time table
/// at which one of them changes, and the start where the program counter first has the
/// value `first_pc`.
pub open spec fn is_loaded<T: Mappable>(
    signals: Map<Seq<char>, wellen::Signal>,
    all_times: Seq<u64>,
    first_pc: T,
    loaded: Loaded,
) -> bool {
    &&& is_first_match(
        signal_changes(signals[pc_name()]),
        first_pc,
        Some(loaded.cursor.time_idx),
    )
    &&& is_selection(signals, loaded.waves)
    &&& is_merge(required_times(loaded.waves), loaded.cursor.all_changes@)
    &&& loaded.cursor.all_times@ == all_times
}

impl Loaded {
    /// Makes a waveform ready to be stepped through, from what the mapping script gave
    /// and the waveform's time table, starting where the program counter first has the
    /// value `first_pc`. Fails exactly where the script did.
    pub fn create_loaded_waves<T: Mappable>(
        script_output: ValidationResult,
        all_times: Vec<u64>,
        first_pc: T,
    ) -> (r: Result<Self, LoadError>)
        requires
            script_output.signals matches Some(signals) ==> signals.wf() && loadable(
                signals@,
                first_pc,
            ),
        ensures
            match script_output.signals {
                None => r == Err::<Loaded, _>(LoadError::Validation),
                Some(signals) => r matches Ok(loaded) && is_loaded(
                    signals@,
                    all_times@,
                    first_pc,
                    loaded,
                ),
            },
    {
        let signals = match script_output.signals {
            Some(signals) => signals,
            None => {
                return Err(LoadError::Validation);
            },
        };
        let ghost all = signals@;
        let waves = RequiredWaves::select(signals);
        proof {
            selection_changes(all, waves);
        }
        let all_changes = waves.merged_changes();
        let time_idx: u32 = waves.pc.find_idx(first_pc).unwrap();
        Ok(Loaded { waves, cursor: WaveCursor { time_idx, all_changes, all_times } })
    }

    /// Makes a waveform ready to be stepped through, where what the mapping script gave can
    /// be, and says why where it cannot.
    pub fn try_create_loaded_waves<T: Mappable>(
        script_output: ValidationResult,
        all_times: Vec<u64>,
        first_pc: T,
    ) -> (r: Result<Self, LoadError>)
        requires
            script_output.signals matches Some(signals) ==> signals.wf(),
        ensures
            match script_output.signals {
                None => r == Err::<Loaded, _>(LoadError::Validation),
                Some(signals) => {
                    let pc = signal_changes(signals@[pc_name()]);
                    if !signals@.contains_key(pc_name()) {
                        r == Err::<Loaded, _>(LoadError::NoPc)
                    } else if lacks_changes(signals@) {
                        r == Err::<Loaded, _>(LoadError::NoChanges)
                    } else if breaks_off(pc, first_pc) {
                        r == Err::<Loaded, _>(LoadError::UnreadablePc)
                    } else if is_first_match(pc, first_pc, None) {
                        r == Err::<Loaded, _>(LoadError::NoFirstPc)
                    } else {
                        r matches Ok(loaded) && is_loaded(signals@, all_times@, first_pc, loaded)
                    }
                },
            },
    {
        if let Some(signals) = &script_output.signals {
            match signals.get("pc") {
                Some(pc) => {
                    if some_lack_changes(signals) {
                        return Err(LoadError::NoChanges);
                    }
                    match search(pc, &first_pc) {
                        Search::BrokenOff => {
                            return Err(LoadError::UnreadablePc);
                        },
                        Search::NotFound => {
                            return Err(LoadError::NoFirstPc);
                        },
                        Search::Found(found) => {
                            proof {
                                let changes = signal_changes(*pc);
                                if is_first_match(changes, first_pc, None) {
                                    first_match_is_unique(changes, first_pc, None, Some(found));
                                }
                            }
                        },
                    }
                },
                None => {
                    return Err(LoadError::NoPc);
                },
            }
        }
        Loaded::create_loaded_waves(script_output, all_times, first_pc)
    }
}

/// A register that the waveform does not hold can be read at every point of the time table,
/// and always reads as zero.
pub proof fn untraced_register_reads_zero(
    signals: Map<Seq<char>, wellen::Signal>,
    waves: RequiredWaves,
    i: nat,
    idx: u32,
)
    requires
        is_selection(signals, waves),
        i < 32,
        !signals.contains_key(register_name(i)),
    ensures
        readable_at(waves.gprs@[i as int].changes(), idx),
        shows(waves.gprs@[i as int].changes(), idx, 0u32),
        !shows_other(waves.gprs@[i as int].changes(), idx, 0u32),
{
    let changes = waves.gprs@[i as int].changes();
    assert(is_register(signals, i, waves.gprs@[i as int]));
    zero_signal_reads_as_number_zero(32);
    assert(seen_at(changes, idx, 0));
}

/// The cursor of a loaded waveform visits a point of the time table exactly where the
/// program counter or a register changes there, and, where the changes of each stand in
/// order, it visits them in order.
pub proof fn cursor_visits_every_change(waves: RequiredWaves, all_changes: Seq<u32>, time: u32)
    requires
        is_merge(required_times(waves), all_changes),
    ensures
        all_changes.contains(time) <==> exists|i: int, p: int|
            0 <= i < required_changes(waves).len() && 0 <= p < required_changes(waves)[i].len()
                && (#[trigger] required_changes(waves)[i][p]).0 == time,
        (forall|i: int|
            0 <= i < required_changes(waves).len() ==> ordered(#[trigger] required_changes(waves)[i]))
            ==> in_order(all_changes),
{
    let times = required_times(waves);
    let changes = required_changes(waves);
    merge_holds_every_entry(times, all_changes, time);
    assert forall|i: int, p: int|
        0 <= i < changes.len() && 0 <= p < changes[i].len() implies times[i][p] == (
    #[trigger] changes[i][p]).0 by {
        assert(times[i] == times_of(changes[i]));
    }
    assert forall|i: int| 0 <= i < changes.len() implies (#[trigger] times[i]).len()
        == changes[i].len() by {
        assert(times[i] == times_of(changes[i]));
    }
    if all_changes.contains(time) {
        let (i, p) = choose|i: int, p: int|
            0 <= i < times.len() && 0 <= p < times[i].len() && #[trigger] times[i][p] == time;
        assert(changes[i][p].0 == time);
    }
    if exists|i: int, p: int|
        0 <= i < changes.len() && 0 <= p < changes[i].len() && (#[trigger] changes[i][p]).0 == time {
        let (i, p) = choose|i: int, p: int|
            0 <= i < changes.len() && 0 <= p < changes[i].len() && (#[trigger] changes[i][p]).0
                == time;
        assert(times[i][p] == time);
    }
    if forall|i: int| 0 <= i < changes.len() ==> ordered(#[trigger] changes[i]) {
        assert forall|i: int| 0 <= i < times.len() implies in_order(#[trigger] times[i]) by {
            assert(ordered(changes[i]));
            assert(times[i] == times_of(changes[i]));
        }
        merge_of_ordered_is_ordered(times, all_changes);
    }
}

} // verus!
