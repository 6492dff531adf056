//! A small pluggable logging core: entries are checked against a severity
//! threshold, then fanned out to handlers, each of which renders the entry
//! with its own formatter and names the write that its sink must perform.
//! Beside it stand the file manager's path rules and the configuration types.

pub mod config;
pub mod entry;
pub mod files;
pub mod format;
pub mod handler;
pub mod level;
pub mod logger;
pub mod registry;
pub mod text;

pub use config::{default_archive_dir, Config, Filetype, General};
pub use entry::LogEntry;
pub use files::{file_exists, FileManager};
pub use format::{CustomConsoleFormatter, CustomFileFormatter, FormatterKind, LogFormatter};
pub use handler::{ConsoleHandler, FileHandler, HandlerKind, LogHandler, SinkWrite};
pub use level::{LogLevel, TermColor};
pub use logger::CustomLogger;
pub use registry::{InstallError, LoggerRegistry};
