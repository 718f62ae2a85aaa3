//! The plain data a configured action is made of: a source file and the
//! input and expected-output data of a data-comparison test. Paths are
//! carried as plain strings; opening and reading them is the caller's work.

use vstd::prelude::*;

verus! {

/// Path of a source file to build.
#[derive(Debug)]
pub struct Source(pub String);

impl Source {
    /// Wrap the path of a source file.
    pub fn new(path: String) -> (r: Self)
        ensures
            r.0@ == path@,
    {
        Self(path)
    }
}

/// Path of the file fed to the program under test.
#[derive(Debug)]
pub struct TestDataIn(pub String);

impl TestDataIn {
    /// Wrap the path of an input file.
    pub fn new(path: String) -> (r: Self)
        ensures
            r.0@ == path@,
    {
        Self(path)
    }
}

/// Path of the file holding the expected output.
#[derive(Debug)]
pub struct TestDataOut(pub String);

impl TestDataOut {
    /// Wrap the path of an expected-output file.
    pub fn new(path: String) -> (r: Self)
        ensures
            r.0@ == path@,
    {
        Self(path)
    }
}

} // verus!
