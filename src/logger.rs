use vstd::prelude::*;

use crate::entry::{is_timestamp, LogEntry};
use crate::handler::{HandlerKind, LogHandler, SinkWrite};
use crate::level::LogLevel;

verus! {

/// Routes entries that pass its severity threshold to every handler, in the
/// order in which the handlers were added.
pub struct CustomLogger {
    pub handlers: Vec<HandlerKind>,
    pub threshold: LogLevel,
}

impl CustomLogger {
    /// `ws` is what dispatching `entry` asks of the sinks: nothing when the
    /// entry's level does not pass the threshold, else one write per handler,
    /// in order.
    pub open spec fn dispatched(&self, entry: LogEntry, ws: Seq<SinkWrite>) -> bool {
        if entry.level.at_least(self.threshold) {
            &&& ws.len() == self.handlers@.len()
            &&& forall|i: int| 0 <= i < ws.len() ==> #[trigger] self.handlers@[i].emits(entry, ws[i])
        } else {
            ws.len() == 0
        }
    }

    /// A logger with no handlers whose threshold is `Debug`.
    pub fn new() -> (r: Self)
        ensures
            r.handlers@.len() == 0,
            r.threshold == LogLevel::Debug,
    {
        CustomLogger { handlers: Vec::new(), threshold: LogLevel::Debug }
    }

    /// The logger with `handler` added after the others.
    pub fn add_handler(self, handler: HandlerKind) -> (r: Self)
        ensures
            r.handlers@ == self.handlers@.push(handler),
            r.threshold == self.threshold,
    {
        let mut r = self;
        r.handlers.push(handler);
        r
    }

    /// The logger with its threshold set to `level`.
    pub fn with_threshold(self, level: LogLevel) -> (r: Self)
        ensures
            r.handlers@ == self.handlers@,
            r.threshold == level,
    {
        let mut r = self;
        r.threshold = level;
        r
    }

    /// Whether an entry of `level` is dispatched.
    pub fn enabled(&self, level: LogLevel) -> (r: bool)
        ensures
            r == level.at_least(self.threshold),
    {
        level.is_at_least(self.threshold)
    }

    /// Hands `entry` to every handler when it passes the threshold.
    pub fn log(&self, entry: &LogEntry) -> (ws: Vec<SinkWrite>)
        ensures
            self.dispatched(*entry, ws@),
    {
        let mut ws: Vec<SinkWrite> = Vec::new();
        if !self.enabled(entry.level) {
            return ws;
        }
        let n = self.handlers.len();
        let mut i: usize = 0;
        while i < n
            invariant
                n == self.handlers@.len(),
                i <= n,
                ws@.len() == i,
                forall|j: int| 0 <= j < i ==> #[trigger] self.handlers@[j].emits(*entry, ws@[j]),
            decreases n - i,
        {
            let w = self.handlers[i].handle(entry);
            ws.push(w);
            i = i + 1;
        }
        ws
    }

    /// Logs `message` at `level`: the threshold is checked first, and only an
    /// entry that passes it is stamped and dispatched.
    pub fn emit(&self, level: LogLevel, message: &str) -> (ws: Vec<SinkWrite>)
        ensures
            !level.at_least(self.threshold) ==> ws@.len() == 0,
            level.at_least(self.threshold) ==> exists|e: LogEntry|
                e.level == level && e.message@ == message@ && is_timestamp(e.timestamp@)
                    && #[trigger] self.dispatched(e, ws@),
    {
        if !self.enabled(level) {
            return Vec::new();
        }
        let entry = LogEntry::new(level, message);
        let ws = self.log(&entry);
        assert(self.dispatched(entry, ws@));
        ws
    }

    pub fn error(&self, message: &str) -> (ws: Vec<SinkWrite>)
        ensures
            exists|e: LogEntry|
                e.level == LogLevel::Error && e.message@ == message@ && is_timestamp(e.timestamp@)
                    && #[trigger] self.dispatched(e, ws@),
    {
        self.emit(LogLevel::Error, message)
    }

    pub fn warn(&self, message: &str) -> (ws: Vec<SinkWrite>)
        ensures
            !LogLevel::Warning.at_least(self.threshold) ==> ws@.len() == 0,
            LogLevel::Warning.at_least(self.threshold) ==> exists|e: LogEntry|
                e.level == LogLevel::Warning && e.message@ == message@ && is_timestamp(
                    e.timestamp@,
                ) && #[trigger] self.dispatched(e, ws@),
    {
        self.emit(LogLevel::Warning, message)
    }

    pub fn info(&self, message: &str) -> (ws: Vec<SinkWrite>)
        ensures
            !LogLevel::Info.at_least(self.threshold) ==> ws@.len() == 0,
            LogLevel::Info.at_least(self.threshold) ==> exists|e: LogEntry|
                e.level == LogLevel::Info && e.message@ == message@ && is_timestamp(e.timestamp@)
                    && #[trigger] self.dispatched(e, ws@),
    {
        self.emit(LogLevel::Info, message)
    }

    pub fn debug(&self, message: &str) -> (ws: Vec<SinkWrite>)
        ensures
            !LogLevel::Debug.at_least(self.threshold) ==> ws@.len() == 0,
            LogLevel::Debug.at_least(self.threshold) ==> exists|e: LogEntry|
                e.level == LogLevel::Debug && e.message@ == message@ && is_timestamp(e.timestamp@)
                    && #[trigger] self.dispatched(e, ws@),
    {
        self.emit(LogLevel::Debug, message)
    }

    pub fn trace(&self, message: &str) -> (ws: Vec<SinkWrite>)
        ensures
            !LogLevel::Trace.at_least(self.threshold) ==> ws@.len() == 0,
            LogLevel::Trace.at_least(self.threshold) ==> exists|e: LogEntry|
                e.level == LogLevel::Trace && e.message@ == message@ && is_timestamp(e.timestamp@)
                    && #[trigger] self.dispatched(e, ws@),
    {
        self.emit(LogLevel::Trace, message)
    }
}

} // verus!
