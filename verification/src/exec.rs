//! What can be executed: a plain program path, or a full argument vector
//! for an interpreter.

use crate::actions::Source;
use vstd::prelude::*;

verus! {

/// A runnable program: a single executable path, or an argument vector.
#[derive(Debug)]
pub enum Executable {
    Simple(String),
    Multiple(Vec<String>),
}

impl Executable {
    /// Run a source file through an interpreter: the argument vector is the
    /// interpreter followed by the source path.
    pub fn interpreted(interpreter: String, source: &Source) -> (r: Self)
        ensures
            r matches Executable::Multiple(argv) && argv@.len() == 2 && argv@[0]@ == interpreter@
                && argv@[1]@ == source.0@,
    {
        let source_path = source.0.clone();
        let mut argv: Vec<String> = Vec::new();
        argv.push(interpreter);
        argv.push(source_path);
        Executable::Multiple(argv)
    }

    /// The argument vector this executable runs as.
    pub fn to_argv(&self) -> (r: Vec<String>)
        ensures
            match self {
                Executable::Simple(path) => r@.len() == 1 && r@[0]@ == path@,
                Executable::Multiple(argv) => r@.len() == argv@.len() && forall|i: int|
                    0 <= i < argv@.len() ==> #[trigger] r@[i]@ == argv@[i]@,
            },
    {
        match self {
            Executable::Simple(path) => {
                let mut r: Vec<String> = Vec::new();
                r.push(path.clone());
                r
            },
            Executable::Multiple(argv) => {
                let mut r: Vec<String> = Vec::new();
                let mut i: usize = 0;
                while i < argv.len()
                    invariant
                        i <= argv@.len(),
                        r@.len() == i,
                        forall|k: int| 0 <= k < i ==> #[trigger] r@[k]@ == argv@[k]@,
                    decreases argv@.len() - i,
                {
                    r.push(argv[i].clone());
                    i = i + 1;
                }
                r
            },
        }
    }
}

} // verus!
