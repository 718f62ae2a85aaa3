//! How a source file becomes something runnable: for interpreted languages
//! the interpreter line, for compiled ones the compiler command. Running
//! the compiler is the caller's work.

use crate::actions::Source;
use crate::errors::Error;
use crate::exec::Executable;
use crate::lang::lang_name;
use crate::lang::Language;
use vstd::prelude::*;

verus! {

/// What it takes to run a source file: it is ready as an interpreter line,
/// or this compiler command must succeed first.
#[derive(Debug)]
pub enum BuildStep {
    Ready(Executable),
    Compile(Vec<String>),
}

/// The argument vector `words` holds exactly these three words and the
/// source and output paths in the compiler's usual positions.
pub open spec fn compile_argv(
    words: Seq<Seq<char>>,
    compiler: Seq<char>,
    source: Seq<char>,
    exe: Seq<char>,
) -> bool {
    &&& words.len() == 4
    &&& words[0] == compiler
    &&& words[1] == source
    &&& words[2] == "-o"@
    &&& words[3] == exe
}

/// The views of an argument vector.
pub open spec fn argv_views(argv: Seq<String>) -> Seq<Seq<char>> {
    argv.map_values(|s: String| s@)
}

fn compiler_line(compiler: &str, source: &Source, exe: &str) -> (r: Vec<String>)
    ensures
        compile_argv(argv_views(r@), compiler@, source.0@, exe@),
{
    let mut argv: Vec<String> = Vec::new();
    argv.push(String::from_str(compiler));
    argv.push(source.0.clone());
    argv.push(String::from_str("-o"));
    argv.push(String::from_str(exe));
    proof {
        assert(argv_views(argv@) =~= seq![compiler@, source.0@, "-o"@, exe@]);
    }
    argv
}

/// The step that makes the source file runnable, for the languages whose
/// build is known: shell scripts run through `bash`; C, C++, Haskell and
/// Rust compile with their usual compilers into `exe`.
pub fn gen_command(lang: Language, source: &Source, exe: &str) -> (r: Result<BuildStep, Error>)
    ensures
        match lang {
            Language::Bash => r matches Ok(BuildStep::Ready(Executable::Multiple(argv)))
                && argv@.len() == 2 && argv@[0]@ == "bash"@ && argv@[1]@ == source.0@,
            Language::C => r matches Ok(BuildStep::Compile(argv)) && compile_argv(
                argv_views(argv@),
                "gcc"@,
                source.0@,
                exe@,
            ),
            Language::CPlusPlus => r matches Ok(BuildStep::Compile(argv)) && compile_argv(
                argv_views(argv@),
                "g++"@,
                source.0@,
                exe@,
            ),
            Language::Haskell => r matches Ok(BuildStep::Compile(argv)) && {
                &&& argv_views(argv@).len() == 6
                &&& argv_views(argv@)[0] == "stack"@
                &&& argv_views(argv@)[1] == "ghc"@
                &&& argv_views(argv@)[2] == "--"@
                &&& argv_views(argv@)[3] == source.0@
                &&& argv_views(argv@)[4] == "-o"@
                &&& argv_views(argv@)[5] == exe@
            },
            Language::Rust => r matches Ok(BuildStep::Compile(argv)) && compile_argv(
                argv_views(argv@),
                "rustc"@,
                source.0@,
                exe@,
            ),
            Language::Lisp => r matches Err(e) && e is NotImplemented,
            _ => r matches Err(e) && e matches Error::LangNotSupported(n) && n@ == lang_name(
                lang,
            ),
        },
{
    match lang {
        Language::Bash => Ok(
            BuildStep::Ready(Executable::interpreted(String::from_str("bash"), source)),
        ),
        Language::C => Ok(BuildStep::Compile(compiler_line("gcc", source, exe))),
        Language::CPlusPlus => Ok(BuildStep::Compile(compiler_line("g++", source, exe))),
        Language::Haskell => {
            let mut argv: Vec<String> = Vec::new();
            argv.push(String::from_str("stack"));
            argv.push(String::from_str("ghc"));
            argv.push(String::from_str("--"));
            argv.push(source.0.clone());
            argv.push(String::from_str("-o"));
            argv.push(String::from_str(exe));
            proof {
                assert(argv_views(argv@) =~= seq![
                    "stack"@,
                    "ghc"@,
                    "--"@,
                    source.0@,
                    "-o"@,
                    exe@,
                ]);
            }
            Ok(BuildStep::Compile(argv))
        },
        Language::Rust => Ok(BuildStep::Compile(compiler_line("rustc", source, exe))),
        Language::Lisp => Err(Error::NotImplemented),
        other => {
            let name = other.name();
            Err(Error::LangNotSupported(String::from_str(name)))
        },
    }
}

} // verus!
