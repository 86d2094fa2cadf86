//! Validation of one-line commit headers against the Conventional Commits
//! grammar, with located diagnostics and a rendered report.
pub mod config;
pub mod laws;
pub mod parser;
pub mod report;
pub mod text;

pub use config::{CharSetConfig, Config};
pub use parser::{CommitHeader, ConventionalParser, ParseError, ParseErrorKind, ParseOutcome};
pub use report::{ErrorReporter, OutputFormat};
