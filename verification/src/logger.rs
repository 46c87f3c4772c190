//! The log that the debug panel shows.
use std::collections::VecDeque;
use vstd::prelude::*;

verus! {

/// How grave a message is.
#[derive(Debug, Clone, Copy, PartialEq, Eq, Structural)]
pub enum Level {
    Error,
    Warn,
    Info,
    Debug,
    Trace,
}

/// The name of a level.
pub open spec fn level_name(level: Level) -> Seq<char> {
    match level {
        Level::Error => "ERROR"@,
        Level::Warn => "WARN"@,
        Level::Info => "INFO"@,
        Level::Debug => "DEBUG"@,
        Level::Trace => "TRACE"@,
    }
}

impl Level {
    /// The name of the level.
    pub fn name(&self) -> (r: &'static str)
        ensures
            r@ == level_name(*self),
    {
        match self {
            Level::Error => "ERROR",
            Level::Warn => "WARN",
            Level::Info => "INFO",
            Level::Debug => "DEBUG",
            Level::Trace => "TRACE",
        }
    }
}

/// A message that was logged.
#[derive(Debug, Clone)]
pub struct LogMessage {
    pub level: Level,
    pub message: String,
}

/// How many messages are kept.
pub const LOG_CAPACITY: usize = 1000;

/// The messages that were logged last.
pub struct AppLogger {
    buffer: VecDeque<LogMessage>,
}

impl View for AppLogger {
    type V = Seq<LogMessage>;

    closed spec fn view(&self) -> Seq<LogMessage> {
        self.buffer@
    }
}

/// What is kept of the messages `kept` and a new one: the oldest goes when the log is full.
pub open spec fn with_message(kept: Seq<LogMessage>, message: LogMessage) -> Seq<LogMessage> {
    if kept.len() >= LOG_CAPACITY {
        kept.drop_first().push(message)
    } else {
        kept.push(message)
    }
}

impl AppLogger {
    /// An empty log.
    pub fn new() -> (r: Self)
        ensures
            r@ == Seq::<LogMessage>::empty(),
    {
        AppLogger { buffer: VecDeque::with_capacity(LOG_CAPACITY) }
    }

    /// Whether messages of a level are logged: those of every level are.
    pub fn enabled(&self, _level: Level) -> (r: bool)
        ensures
            r,
    {
        true
    }

    /// Logs a message.
    pub fn log(&mut self, message: LogMessage)
        ensures
            final(self)@ == with_message(old(self)@, message),
    {
        if self.enabled(message.level) {
            if self.buffer.len() >= LOG_CAPACITY {
                self.buffer.pop_front();
            }
            self.buffer.push_back(message);
        }
        assert(self@ =~= with_message(old(self)@, message));
    }

    /// How many messages are kept.
    pub fn len(&self) -> (r: usize)
        ensures
            r == self@.len(),
    {
        self.buffer.len()
    }

    /// The message at a position, the oldest at the first one.
    pub fn message(&self, i: usize) -> (r: &LogMessage)
        requires
            i < self@.len(),
        ensures
            *r == self@[i as int],
    {
        &self.buffer[i]
    }
}

/// What is kept after the messages `logged` were logged into an empty log.
pub open spec fn kept_of(logged: Seq<LogMessage>) -> Seq<LogMessage>
    decreases logged.len(),
{
    if logged.len() == 0 {
        Seq::empty()
    } else {
        with_message(kept_of(logged.drop_last()), logged.last())
    }
}

/// The log keeps the last messages that were logged, in their order, as many as it has
/// room for.
pub proof fn log_keeps_the_last_messages(logged: Seq<LogMessage>)
    ensures
        logged.len() <= LOG_CAPACITY ==> kept_of(logged) == logged,
        logged.len() > LOG_CAPACITY ==> kept_of(logged) == logged.skip(
            logged.len() - LOG_CAPACITY,
        ),
        kept_of(logged).len() <= LOG_CAPACITY,
    decreases logged.len(),
{
    if logged.len() > 0 {
        log_keeps_the_last_messages(logged.drop_last());
        if logged.len() <= LOG_CAPACITY {
            assert(kept_of(logged) =~= logged);
        } else {
            assert(kept_of(logged) =~= logged.skip(logged.len() - LOG_CAPACITY));
        }
    }
}

} // verus!
