//! Rule resolution and scan orchestration for an LLM-backed code review tool.

pub mod catalog;
pub mod output;
pub mod response;
pub mod rules;
pub mod scanner;
pub mod selection;
pub mod text;

pub use catalog::{RuleCatalog, RuleManagerError};
pub use output::{OutputFormat, OutputManager, OutputManagerError};
pub use response::{DetectedIssue, Response, Violation};
pub use rules::{Rule, RuleExample, Ruleset};
pub use scanner::{
    AvailableScanner, LlmProvider, ScanMode, ScanPlan, ScannerError, ScannerManager,
    ScannerManagerError,
};
pub use selection::{RuleManager, RuleSelectionConfig};
