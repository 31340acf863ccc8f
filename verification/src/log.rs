//! The progress log: an append-only list of levelled messages.

use vstd::prelude::*;

verus! {

/// How a message is to be read.
#[derive(Clone, Copy, Debug, PartialEq, Eq, Structural)]
pub enum ScanLogLevel {
    /// Something the user may want to know.
    Info,
    /// A step that was completed.
    Success,
    /// A step that failed.
    Error,
}

/// One message of the progress log.
#[derive(Clone, Debug, PartialEq, Eq)]
pub struct ScanLog {
    /// How the message is to be read.
    pub level: ScanLogLevel,
    /// The message itself.
    pub message: String,
}

/// What a log message says: its level and its text.
pub struct LogEntry {
    /// How the message is to be read.
    pub level: ScanLogLevel,
    /// The characters of the message.
    pub message: Seq<char>,
}

impl View for ScanLog {
    type V = LogEntry;

    open spec fn view(&self) -> LogEntry {
        LogEntry { level: self.level, message: self.message@ }
    }
}

impl ScanLog {
    /// A message of the given level.
    pub fn new(level: ScanLogLevel, message: String) -> (log: Self)
        ensures
            log.level == level,
            log.message == message,
            log@ == (LogEntry { level, message: message@ }),
    {
        ScanLog { level, message }
    }
}

/// What the messages `logs` say, in the order they were emitted.
pub open spec fn entries_of(logs: Seq<ScanLog>) -> Seq<LogEntry> {
    Seq::new(logs.len(), |i: int| logs[i]@)
}

/// Collects the messages of one scan in the order they are emitted.
pub struct ScanLogger {
    logs: Vec<ScanLog>,
}

impl View for ScanLogger {
    type V = Seq<LogEntry>;

    closed spec fn view(&self) -> Seq<LogEntry> {
        entries_of(self.logs@)
    }
}

impl ScanLogger {
    /// A logger that holds no message yet.
    pub fn new() -> (logger: Self)
        ensures
            logger@ == Seq::<LogEntry>::empty(),
    {
        let logger = ScanLogger { logs: Vec::new() };
        proof {
            assert(logger@ =~= Seq::<LogEntry>::empty());
        }
        logger
    }

    /// Appends `log` to the messages.
    pub fn emit(&mut self, log: ScanLog)
        ensures
            final(self)@ == old(self)@.push(log@),
    {
        self.logs.push(log);
        proof {
            assert(final(self)@ =~= old(self)@.push(log@));
        }
    }

    /// Appends an informational message.
    pub fn info(&mut self, message: String)
        ensures
            final(self)@ == old(self)@.push(
                LogEntry { level: ScanLogLevel::Info, message: message@ },
            ),
    {
        self.emit(ScanLog::new(ScanLogLevel::Info, message));
    }

    /// Appends the message of a completed step.
    pub fn success(&mut self, message: String)
        ensures
            final(self)@ == old(self)@.push(
                LogEntry { level: ScanLogLevel::Success, message: message@ },
            ),
    {
        self.emit(ScanLog::new(ScanLogLevel::Success, message));
    }

    /// Appends the message of a failed step.
    pub fn error(&mut self, message: String)
        ensures
            final(self)@ == old(self)@.push(
                LogEntry { level: ScanLogLevel::Error, message: message@ },
            ),
    {
        self.emit(ScanLog::new(ScanLogLevel::Error, message));
    }

    /// Number of messages emitted so far.
    pub fn len(&self) -> (count: usize)
        ensures
            count == self@.len(),
    {
        self.logs.len()
    }

    /// The message emitted as number `index`.
    pub fn get(&self, index: usize) -> (log: &ScanLog)
        requires
            index < self@.len(),
        ensures
            log@ == self@[index as int],
    {
        &self.logs[index]
    }

    /// Hands out the messages, oldest first.
    pub fn finish(self) -> (logs: Vec<ScanLog>)
        ensures
            entries_of(logs@) == self@,
    {
        self.logs
    }
}

} // verus!
