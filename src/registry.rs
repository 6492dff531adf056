use vstd::prelude::*;

use crate::entry::{is_timestamp, LogEntry};
use crate::handler::SinkWrite;
use crate::level::LogLevel;
use crate::logger::CustomLogger;

verus! {

#[derive(Clone, Copy, Debug, PartialEq, Eq, Structural)]
pub enum InstallError {
    /// A logger was installed before; the first one stays active.
    AlreadyInstalled,
}

/// The active logger after an attempt to install `logger`.
pub open spec fn after_install(active: Option<CustomLogger>, logger: CustomLogger) -> Option<
    CustomLogger,
> {
    match active {
        Some(first) => Some(first),
        None => Some(logger),
    }
}

/// Holds the one logger that serves as the process's logging backend. It is
/// installed once and never replaced.
pub struct LoggerRegistry {
    pub active: Option<CustomLogger>,
}

impl LoggerRegistry {
    pub fn new() -> (r: Self)
        ensures
            r.active is None,
    {
        LoggerRegistry { active: None }
    }

    /// Installs `logger` unless one is installed already.
    pub fn install(&mut self, logger: CustomLogger) -> (r: Result<(), InstallError>)
        ensures
            r is Err <==> old(self).active is Some,
            r is Err ==> r == Err::<(), InstallError>(InstallError::AlreadyInstalled),
            final(self).active == after_install(old(self).active, logger),
    {
        if self.active.is_some() {
            return Err(InstallError::AlreadyInstalled);
        }
        self.active = Some(logger);
        Ok(())
    }

    /// Sets the threshold of the installed logger, if there is one.
    pub fn set_max_level(&mut self, level: LogLevel)
        ensures
            old(self).active is None ==> final(self).active is None,
            old(self).active is Some ==> final(self).active == Some(
                CustomLogger { threshold: level, ..old(self).active.unwrap() },
            ),
    {
        if self.active.is_some() {
            let mut l = self.active.take().unwrap();
            l.threshold = level;
            self.active = Some(l);
        }
    }

    /// Logs `message` at `level` through the installed logger; with none
    /// installed nothing is written.
    pub fn emit(&self, level: LogLevel, message: &str) -> (ws: Vec<SinkWrite>)
        ensures
            self.active is None ==> ws@.len() == 0,
            self.active is Some ==> {
                let l = self.active.unwrap();
                &&& !level.at_least(l.threshold) ==> ws@.len() == 0
                &&& level.at_least(l.threshold) ==> exists|e: LogEntry|
                    e.level == level && e.message@ == message@ && is_timestamp(
                        e.timestamp@,
                    ) && #[trigger] l.dispatched(e, ws@)
            },
    {
        match &self.active {
            Some(l) => l.emit(level, message),
            None => Vec::new(),
        }
    }
}

/// Installation is one-shot: once a logger is installed, installing another
/// is rejected and the first stays active.
pub proof fn lemma_second_install_rejected(
    active: Option<CustomLogger>,
    first: CustomLogger,
    second: CustomLogger,
)
    ensures
        after_install(active, first) is Some,
        after_install(after_install(active, first), second) == after_install(active, first),
        active is None ==> after_install(after_install(active, first), second) == Some(first),
{
}

} // verus!
