//! Lints over checked programs.

pub mod usage_checker;

pub use self::usage_checker::UsageChecker;
