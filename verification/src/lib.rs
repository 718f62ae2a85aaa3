//! Core library of a test-runner front end: a canonical report model, a
//! deterministic identity scheme for test cases, a catalog of the tests a
//! runner exposes, a merger that overlays a run outcome onto the catalog,
//! and the single-threaded orchestration state machine that serializes
//! commands and publishes feedback.
//!
//! Everything here is plain data and decisions. Spawning runner processes,
//! decoding their native report formats, watching files and drawing a user
//! interface are the caller's work, driven through the contracts of
//! [`server`], [`googletest`] and [`catch2`].

use vstd::prelude::*;

pub mod actions;
pub mod aggregate;
pub mod catalog;
pub mod catch2;
pub mod code;
pub mod compile;
pub mod config;
pub mod duration;
pub mod errors;
pub mod exec;
pub mod googletest;
pub mod gui;
pub mod identity;
pub mod lang;
pub mod merge;
pub mod report;
pub mod reporter;
pub mod result;
pub mod sequtil;
pub mod server;
pub mod strutil;

pub use catalog::AvailableTests;
pub use config::GuiConfig;
pub use errors::Error;
pub use identity::calculate_id;
pub use identity::FullyQualifiedTestCase;
pub use identity::FullyQualifiedTestCaseId;
pub use report::CoreFailure;
pub use report::CoreReport;
pub use report::CoreStatus;
pub use report::CoreTestCase;
pub use report::CoreTestSuite;
pub use result::Reason;
pub use result::TestResult;

verus! {

} // verus!
