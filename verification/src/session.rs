//! The debug stub's session: how it is started, the order of its stages, and what it
//! tells the debugger when the target stops.
use crate::text::decimal;
use crate::text::to_decimal;
use vstd::prelude::*;

verus! {

/// The port that the stub listens on unless told otherwise.
pub const DEFAULT_PORT: u16 = 9001;

/// The address of a port of this machine.
pub open spec fn local_address_text(port: u16) -> Seq<char> {
    "127.0.0.1:"@ + decimal(port as nat)
}

/// The address of a port of this machine.
pub fn local_address(port: u16) -> (r: String)
    ensures
        r@ == local_address_text(port),
{
    "127.0.0.1:".to_string().concat(to_decimal(port as u32).as_str())
}

/// Where the debugger connects.
#[derive(Debug, Clone, Copy, PartialEq, Eq, Structural)]
pub enum Endpoint {
    /// A port that the stub binds.
    Port(u16),
    /// A listener that the caller has bound.
    Listener,
}

/// A session of the stub, on the files at the given paths.
pub struct Session<P> {
    pub wave_path: P,
    pub mapping_path: P,
    pub elf: P,
    pub endpoint: Endpoint,
    /// The session logs errors only, and tells its starter when the waveform is loaded.
    pub silent: bool,
}

/// A session on the default port.
pub fn start_with_args<P>(wave_path: P, mapping_path: P, elf: P) -> (r: Session<P>)
    ensures
        r == (Session { wave_path, mapping_path, elf, endpoint: Endpoint::Port(9001), silent: false }),
{
    start_with_args_and_port(wave_path, mapping_path, elf, DEFAULT_PORT)
}

/// A session on a port of the caller's choice.
pub fn start_with_args_and_port<P>(wave_path: P, mapping_path: P, elf: P, port: u16) -> (r: Session<
    P,
>)
    ensures
        r == (Session { wave_path, mapping_path, elf, endpoint: Endpoint::Port(port), silent: false }),
{
    Session { wave_path, mapping_path, elf, endpoint: Endpoint::Port(port), silent: false }
}

/// A session on a listener that the caller has bound.
pub fn start_with_args_and_listener<P>(wave_path: P, mapping_path: P, elf: P) -> (r: Session<P>)
    ensures
        r == (Session { wave_path, mapping_path, elf, endpoint: Endpoint::Listener, silent: false }),
{
    Session { wave_path, mapping_path, elf, endpoint: Endpoint::Listener, silent: false }
}

/// A session on a listener that the caller has bound, which keeps the log to errors.
pub fn start_with_args_and_listener_silent<P>(wave_path: P, mapping_path: P, elf: P) -> (r: Session<
    P,
>)
    ensures
        r == (Session { wave_path, mapping_path, elf, endpoint: Endpoint::Listener, silent: true }),
{
    Session { wave_path, mapping_path, elf, endpoint: Endpoint::Listener, silent: true }
}

/// A stage of a session.
#[derive(Debug, Clone, Copy, PartialEq, Eq, Structural)]
pub enum Stage {
    /// Set the logger up.
    InitLogger,
    /// Load the waveform.
    LoadRuntime,
    /// Tell the starter that the waveform is loaded.
    SignalReady,
    /// Wait for the debugger to connect.
    Accept,
    /// Serve the debugger until it leaves.
    RunStub,
}

/// What follows a stage.
#[derive(Debug, Clone, Copy, PartialEq, Eq, Structural)]
pub enum Progress {
    /// Another stage.
    Continue(Stage),
    /// The session gives the stage's error to its starter.
    Refuse,
    /// The session cannot go on at all.
    Abort,
    /// The session is over.
    Done,
}

impl<P> Session<P> {
    /// The address to bind, where the session binds one.
    pub fn bind_address(&self) -> (r: Option<String>)
        ensures
            match self.endpoint {
                Endpoint::Port(port) => r matches Some(text) && text@ == local_address_text(port),
                Endpoint::Listener => r is None,
            },
    {
        match self.endpoint {
            Endpoint::Port(port) => Some(local_address(port)),
            Endpoint::Listener => None,
        }
    }

    /// The level from which on messages are logged, unless the environment names one.
    pub fn default_filter(&self) -> (r: &'static str)
        ensures
            r@ == if self.silent {
                "error"@
            } else if self.endpoint == Endpoint::Listener {
                "debug"@
            } else {
                "info"@
            },
    {
        if self.silent {
            "error"
        } else {
            match self.endpoint {
                Endpoint::Listener => "debug",
                Endpoint::Port(_) => "info",
            }
        }
    }

    /// What follows a stage, by whether it succeeded.
    pub open spec fn following(self, stage: Stage, succeeded: bool) -> Progress {
        match stage {
            Stage::InitLogger => Progress::Continue(Stage::LoadRuntime),
            Stage::LoadRuntime => if !succeeded {
                Progress::Abort
            } else if self.silent {
                Progress::Continue(Stage::SignalReady)
            } else {
                Progress::Continue(Stage::Accept)
            },
            Stage::SignalReady => Progress::Continue(Stage::Accept),
            Stage::Accept => if succeeded {
                Progress::Continue(Stage::RunStub)
            } else {
                Progress::Refuse
            },
            Stage::RunStub => Progress::Done,
        }
    }

    /// What follows a stage. A waveform that does not load aborts the session, and a
    /// connection that fails is the starter's error; a logger that was set up before, a
    /// starter that no longer listens and a stub that fails change nothing.
    pub fn advance(&self, stage: Stage, succeeded: bool) -> (r: Progress)
        ensures
            r == self.following(stage, succeeded),
    {
        match stage {
            Stage::InitLogger => Progress::Continue(Stage::LoadRuntime),
            Stage::LoadRuntime => if !succeeded {
                Progress::Abort
            } else if self.silent {
                Progress::Continue(Stage::SignalReady)
            } else {
                Progress::Continue(Stage::Accept)
            },
            Stage::SignalReady => Progress::Continue(Stage::Accept),
            Stage::Accept => if succeeded {
                Progress::Continue(Stage::RunStub)
            } else {
                Progress::Refuse
            },
            Stage::RunStub => Progress::Done,
        }
    }

    /// What a session has come to after its first stages ended as `outcomes` says.
    pub open spec fn after(self, outcomes: Seq<bool>) -> Progress
        decreases outcomes.len(),
    {
        if outcomes.len() == 0 {
            Progress::Continue(Stage::InitLogger)
        } else {
            match self.after(outcomes.drop_last()) {
                Progress::Continue(stage) => self.following(stage, outcomes.last()),
                ended => ended,
            }
        }
    }

    /// A session serves the debugger only after the waveform has loaded and the debugger
    /// has connected, in this order; a silent one has told its starter in between. It is
    /// aborted exactly where the waveform does not load, refused exactly where the debugger
    /// then does not connect, and done exactly after it has served the debugger, however
    /// that ended.
    pub proof fn stub_runs_last(self, outcomes: Seq<bool>)
        ensures
            self.after(outcomes) == Progress::Continue(Stage::RunStub) <==> {
                if self.silent {
                    outcomes.len() == 4 && outcomes[1] && outcomes[3]
                } else {
                    outcomes.len() == 3 && outcomes[1] && outcomes[2]
                }
            },
            self.after(outcomes) == Progress::Continue(Stage::SignalReady) <==> self.silent
                && outcomes.len() == 2 && outcomes[1],
            self.after(outcomes) == Progress::Abort <==> outcomes.len() >= 2 && !outcomes[1],
            self.after(outcomes) == Progress::Refuse <==> {
                if self.silent {
                    outcomes.len() >= 4 && outcomes[1] && !outcomes[3]
                } else {
                    outcomes.len() >= 3 && outcomes[1] && !outcomes[2]
                }
            },
            self.after(outcomes) == Progress::Done <==> {
                if self.silent {
                    outcomes.len() >= 5 && outcomes[1] && outcomes[3]
                } else {
                    outcomes.len() >= 4 && outcomes[1] && outcomes[2]
                }
            },
        decreases outcomes.len(),
    {
        self.stages_in_order(outcomes);
    }

    proof fn stages_in_order(self, outcomes: Seq<bool>)
        ensures
            self.after(outcomes) == {
                let accept = if self.silent {
                    3int
                } else {
                    2
                };
                if outcomes.len() == 0 {
                    Progress::Continue(Stage::InitLogger)
                } else if outcomes.len() == 1 {
                    Progress::Continue(Stage::LoadRuntime)
                } else if !outcomes[1] {
                    Progress::Abort
                } else if outcomes.len() < accept {
                    Progress::Continue(Stage::SignalReady)
                } else if outcomes.len() == accept {
                    Progress::Continue(Stage::Accept)
                } else if !outcomes[accept] {
                    Progress::Refuse
                } else if outcomes.len() == accept + 1 {
                    Progress::Continue(Stage::RunStub)
                } else {
                    Progress::Done
                }
            },
        decreases outcomes.len(),
    {
        if outcomes.len() > 0 {
            self.stages_in_order(outcomes.drop_last());
        }
    }
}

/// What made the target stop.
#[derive(Debug, Clone, Copy, PartialEq, Eq, Structural)]
pub enum Event {
    DoneStep,
    Halted,
    Break,
}

/// What ended a run of the target.
#[derive(Debug, Clone, Copy, PartialEq, Eq, Structural)]
pub enum RunEvent {
    /// The debugger has sent something.
    IncomingData,
    /// The target stopped.
    Event(Event),
}

/// A signal that the stub reports.
#[derive(Debug, Clone, Copy, PartialEq, Eq, Structural)]
pub enum StopSignal {
    Sigint,
    Sigstop,
}

/// Why the target stopped, as the debugger is told.
#[derive(Debug, Clone, Copy, PartialEq, Eq, Structural)]
pub enum StopReason {
    DoneStep,
    Terminated(StopSignal),
    SwBreak,
    Signal(StopSignal),
}

/// What the stub does after a run of the target.
#[derive(Debug, Clone, Copy, PartialEq, Eq, Structural)]
pub enum AfterRun {
    /// Read the byte that has come in and hand it to the protocol.
    ReadByte,
    /// Report that the target stopped.
    Report(StopReason),
}

/// What the stub does after a run of the target: incoming data is read, and a stop is
/// reported as a finished step, a breakpoint, or the end of the target by `SIGSTOP`.
pub fn wait_for_stop_reason(event: RunEvent) -> (r: AfterRun)
    ensures
        r == match event {
            RunEvent::IncomingData => AfterRun::ReadByte,
            RunEvent::Event(Event::DoneStep) => AfterRun::Report(StopReason::DoneStep),
            RunEvent::Event(Event::Halted) => AfterRun::Report(
                StopReason::Terminated(StopSignal::Sigstop),
            ),
            RunEvent::Event(Event::Break) => AfterRun::Report(StopReason::SwBreak),
        },
{
    match event {
        RunEvent::IncomingData => AfterRun::ReadByte,
        RunEvent::Event(event) => AfterRun::Report(
            match event {
                Event::DoneStep => StopReason::DoneStep,
                Event::Halted => StopReason::Terminated(StopSignal::Sigstop),
                Event::Break => StopReason::SwBreak,
            },
        ),
    }
}

/// Whether a run of the target is to be ended for incoming data, given what a look at
/// the connection found: a byte, nothing, or an error, which counts as data.
pub fn poll_incoming_data<E>(peeked: Result<Option<u8>, E>) -> (r: bool)
    ensures
        r == match peeked {
            Ok(byte) => byte is Some,
            Err(_) => true,
        },
{
    match peeked {
        Ok(byte) => byte.is_some(),
        Err(_) => true,
    }
}

/// What the debugger is told when it interrupts the target.
pub fn on_interrupt() -> (r: Option<StopReason>)
    ensures
        r == Some(StopReason::Signal(StopSignal::Sigint)),
{
    Some(StopReason::Signal(StopSignal::Sigint))
}

} // verus!
