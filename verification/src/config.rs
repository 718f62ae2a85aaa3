//! The configuration the observer hands to the orchestration actor: what to
//! run, how to select tests, and what to watch.

use crate::actions::Source;
use crate::actions::TestDataIn;
use crate::actions::TestDataOut;
use crate::exec::Executable;
use crate::identity::FullyQualifiedTestCaseId;
use crate::lang::Language;
use vstd::prelude::*;

verus! {

/// Which kind of external test runner to drive.
#[derive(Debug, Clone, Copy, PartialEq, Eq, Structural)]
pub enum TestRunnerType {
    GoogleTest,
    Catch2,
}

/// A runner: its executable and its kind.
#[derive(Debug)]
pub struct TestRunnerInfo {
    pub executable: Executable,
    pub trt: TestRunnerType,
}

impl TestRunnerInfo {
    /// Pair an executable with the kind of runner it is.
    pub fn new(executable: Executable, trt: TestRunnerType) -> (r: Self)
        ensures
            r.executable == executable,
            r.trt == trt,
    {
        Self { executable, trt }
    }
}

/// Which tests a run covers: all of them, one by its position in the
/// catalog, or one by its identity.
#[derive(Debug, Clone, Copy, PartialEq, Eq, Structural)]
pub enum Only {
    SingleByIndex(usize),
    All,
    SingleByFqtc(FullyQualifiedTestCaseId),
}

impl Default for Only {
    /// By default a run covers every test.
    fn default() -> (r: Self)
        ensures
            r == Only::All,
    {
        Only::All
    }
}

/// Options handed to a test runner.
#[derive(Debug, Clone, Copy, PartialEq, Eq, Structural)]
pub struct TestRunnerOpt {
    pub only: Only,
}

impl Default for TestRunnerOpt {
    /// By default a run covers every test.
    fn default() -> (r: Self)
        ensures
            r.only == Only::All,
    {
        TestRunnerOpt { only: Only::All }
    }
}

/// The action a configuration asks for: build a source file and compare its
/// output with the expected data, or drive an external test runner.
#[derive(Debug)]
pub enum ActionConfig {
    BuildTestInputOutput(Language, Source, TestDataIn, TestDataOut),
    TestRunner(TestRunnerInfo, TestRunnerOpt),
}

/// How to watch a path for changes: the file and the debounce window, in
/// milliseconds, that collapses bursts of changes into one notification.
#[derive(Debug)]
pub struct WatchOptions {
    pub file: String,
    pub debounce_millis: u64,
}

/// Everything the actor is configured with.
#[derive(Debug)]
pub struct GuiConfig {
    pub watch_path: Option<String>,
    pub watch: bool,
    pub action: Option<ActionConfig>,
}

impl Default for GuiConfig {
    /// An empty configuration: nothing to watch, nothing to run.
    fn default() -> (r: Self)
        ensures
            r.watch_path is None,
            !r.watch,
            r.action is None,
    {
        GuiConfig { watch_path: None, watch: false, action: None }
    }
}

} // verus!
