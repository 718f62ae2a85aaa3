//! The error taxonomy of the library, and the human-readable message each
//! error renders to.

use vstd::prelude::*;

verus! {

/// A capability a test runner may or may not offer.
#[derive(Debug, Clone, Copy, PartialEq, Eq, Structural)]
pub enum TestRunnerFeature {
    Run,
    List,
}

/// Everything that can go wrong around a run. Collaborator failures are
/// carried as plain messages.
#[derive(Debug)]
pub enum Error {
    NoResult,
    NoExecutable,
    BuildFailed(String),
    IoError(String),
    LangNotSupported(String),
    ExecError(String),
    InvalidInputData(String),
    InvalidOutputData(String),
    NothingToDo,
    NotImplemented,
    NotAvailable,
    CannotWatch(String),
    TestRunnerNotSupported(String),
    TestRunnerFeatureNotAvailable(TestRunnerFeature),
    ReporterError(String),
    ReportUnavailable,
    ReportParseError(String),
}

/// The message an error renders to.
pub open spec fn error_text(e: &Error) -> Seq<char> {
    match e {
        Error::NoResult => "no test result available"@,
        Error::NoExecutable => "executable not available"@,
        Error::BuildFailed(s) => "cannot build: "@ + s@,
        Error::IoError(_) => "i/o error"@,
        Error::LangNotSupported(s) => "language not supported: "@ + s@,
        Error::ExecError(_) => "cannot execute"@,
        Error::InvalidInputData(s) => s@,
        Error::InvalidOutputData(s) => s@,
        Error::NothingToDo => "nothing to do"@,
        Error::NotImplemented => "not implemented"@,
        Error::NotAvailable => "not available"@,
        Error::CannotWatch(s) => "cannot watch file: "@ + s@,
        Error::TestRunnerNotSupported(s) => "test runner not supported: "@ + s@,
        Error::TestRunnerFeatureNotAvailable(f) => match f {
            TestRunnerFeature::Run => "test runner feature not available: Run"@,
            TestRunnerFeature::List => "test runner feature not available: List"@,
        },
        Error::ReporterError(_) => "reporter error"@,
        Error::ReportUnavailable => "report unavailable"@,
        Error::ReportParseError(s) => "cannot parse report: "@ + s@,
    }
}

impl Error {
    /// Render the error as its human-readable message.
    pub fn message(&self) -> (r: String)
        ensures
            r@ == error_text(self),
    {
        match self {
            Error::NoResult => String::from_str("no test result available"),
            Error::NoExecutable => String::from_str("executable not available"),
            Error::BuildFailed(s) => {
                let mut r = String::from_str("cannot build: ");
                r.append(s.as_str());
                r
            },
            Error::IoError(_) => String::from_str("i/o error"),
            Error::LangNotSupported(s) => {
                let mut r = String::from_str("language not supported: ");
                r.append(s.as_str());
                r
            },
            Error::ExecError(_) => String::from_str("cannot execute"),
            Error::InvalidInputData(s) => s.clone(),
            Error::InvalidOutputData(s) => s.clone(),
            Error::NothingToDo => String::from_str("nothing to do"),
            Error::NotImplemented => String::from_str("not implemented"),
            Error::NotAvailable => String::from_str("not available"),
            Error::CannotWatch(s) => {
                let mut r = String::from_str("cannot watch file: ");
                r.append(s.as_str());
                r
            },
            Error::TestRunnerNotSupported(s) => {
                let mut r = String::from_str("test runner not supported: ");
                r.append(s.as_str());
                r
            },
            Error::TestRunnerFeatureNotAvailable(f) => match f {
                TestRunnerFeature::Run => String::from_str(
                    "test runner feature not available: Run",
                ),
                TestRunnerFeature::List => String::from_str(
                    "test runner feature not available: List",
                ),
            },
            Error::ReporterError(_) => String::from_str("reporter error"),
            Error::ReportUnavailable => String::from_str("report unavailable"),
            Error::ReportParseError(s) => {
                let mut r = String::from_str("cannot parse report: ");
                r.append(s.as_str());
                r
            },
        }
    }
}

} // verus!
