//! A reference to a place in source code: a path and a line number.

use crate::strutil::dec_digits;
use crate::strutil::u64_to_string;
use vstd::prelude::*;

verus! {

/// A line number in a source file.
#[derive(Debug, Clone, Copy, PartialEq, Eq, Structural)]
pub struct CodeLine(pub u32);

impl From<u32> for CodeLine {
    /// Wrap a line number.
    fn from(n: u32) -> (r: Self) {
        CodeLine(n)
    }
}

impl vstd::std_specs::convert::FromSpecImpl<u32> for CodeLine {
    open spec fn obeys_from_spec() -> bool {
        true
    }

    open spec fn from_spec(n: u32) -> CodeLine {
        CodeLine(n)
    }
}

/// A place in source code: a file path and a line in it.
#[derive(Debug)]
pub struct CodeReference {
    pub path: String,
    pub line: CodeLine,
}

impl CodeReference {
    /// Point at a line of a file.
    pub fn new(path: &str, line: u32) -> (r: Self)
        ensures
            r.path@ == path@,
            r.line == CodeLine(line),
    {
        Self { path: String::from_str(path), line: CodeLine(line) }
    }

    /// Render the reference as `[path:line]`.
    pub fn to_string(&self) -> (r: String)
        ensures
            r@ == "["@ + self.path@ + ":"@ + dec_digits(self.line.0 as int) + "]"@,
    {
        let mut r = String::from_str("[");
        r.append(self.path.as_str());
        r.append(":");
        let digits = u64_to_string(self.line.0 as u64);
        r.append(digits.as_str());
        r.append("]");
        r
    }
}

impl Clone for CodeReference {
    fn clone(&self) -> (r: Self)
        ensures
            r.path@ == self.path@,
            r.line == self.line,
    {
        CodeReference { path: self.path.clone(), line: self.line }
    }
}

} // verus!
