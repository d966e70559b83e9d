//! A static checker for shell scripts: it scans a script's text for syntax
//! defects, security hazards, style violations and best-practice deviations,
//! and collects the findings as localized diagnostic issues in a report.

pub mod checker;
pub mod i18n;
pub mod parser;
pub mod report;
pub mod text;

pub use checker::Checker;
pub use i18n::Language;
pub use parser::{ScriptLine, ScriptParser};
pub use report::{Issue, Report, Severity};
