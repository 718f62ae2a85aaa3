//! The languages a source file can be written in, how a language is named,
//! and how one is recognized from a name or a file path.

use crate::strutil::str_eq;
use vstd::prelude::*;

verus! {

/// A supported source language.
#[derive(Debug, Clone, Copy, PartialEq, Eq, Structural)]
pub enum Language {
    Ada,
    Bash,
    C,
    Caml,
    CPlusPlus,
    CSharp,
    Clojure,
    Dart,
    Elixir,
    Erlang,
    FSharp,
    Go,
    Groovy,
    Haskell,
    Java,
    JavaScript,
    Kotlin,
    Lisp,
    ObjectiveC,
    PHP,
    Python,
    R,
    Ruby,
    Rust,
    Scala,
    Swift,
    TypeScript,
    VBA,
}

/// The display name of a language.
pub open spec fn lang_name(l: Language) -> Seq<char> {
    match l {
        Language::Ada => "Ada"@,
        Language::Bash => "bash"@,
        Language::C => "C"@,
        Language::Caml => "caml"@,
        Language::CPlusPlus => "C++"@,
        Language::CSharp => "C#"@,
        Language::Clojure => "Clojure"@,
        Language::Dart => "dart"@,
        Language::Elixir => "elixir"@,
        Language::Erlang => "erlang"@,
        Language::FSharp => "f#"@,
        Language::Go => "Go"@,
        Language::Groovy => "Groovy"@,
        Language::Haskell => "Haskell"@,
        Language::Java => "Java"@,
        Language::JavaScript => "JavaScript"@,
        Language::Kotlin => "Kotlin"@,
        Language::Lisp => "Lisp"@,
        Language::ObjectiveC => "ObjectiveC"@,
        Language::PHP => "PHP"@,
        Language::Python => "Python"@,
        Language::R => "R"@,
        Language::Ruby => "Ruby"@,
        Language::Rust => "Rust"@,
        Language::Scala => "Scala"@,
        Language::Swift => "Swift"@,
        Language::TypeScript => "TypeScript"@,
        Language::VBA => "VBA"@,
    }
}

/// The language a lower-cased name denotes, if any.
pub open spec fn spec_lang_of(s: Seq<char>) -> Option<Language> {
    if s == "ada"@ {
        Some(Language::Ada)
    } else if s == "bash"@ {
        Some(Language::Bash)
    } else if s == "c"@ {
        Some(Language::C)
    } else if s == "caml"@ {
        Some(Language::Caml)
    } else if s == "cpp"@ || s == "c++"@ || s == "cxx"@ || s == "cplusplus"@ {
        Some(Language::CPlusPlus)
    } else if s == "c#"@ || s == "csharp"@ {
        Some(Language::CSharp)
    } else if s == "clojure"@ {
        Some(Language::Clojure)
    } else if s == "dart"@ {
        Some(Language::Dart)
    } else if s == "elixir"@ {
        Some(Language::Elixir)
    } else if s == "erlang"@ {
        Some(Language::Erlang)
    } else if s == "f#"@ || s == "fsharp"@ {
        Some(Language::FSharp)
    } else if s == "go"@ {
        Some(Language::Go)
    } else if s == "groovy"@ {
        Some(Language::Groovy)
    } else if s == "haskell"@ {
        Some(Language::Haskell)
    } else if s == "java"@ {
        Some(Language::Java)
    } else if s == "javascript"@ {
        Some(Language::JavaScript)
    } else if s == "kotlin"@ {
        Some(Language::Kotlin)
    } else if s == "lisp"@ {
        Some(Language::Lisp)
    } else if s == "objectivec"@ {
        Some(Language::ObjectiveC)
    } else if s == "php"@ {
        Some(Language::PHP)
    } else if s == "python"@ {
        Some(Language::Python)
    } else if s == "r"@ {
        Some(Language::R)
    } else if s == "ruby"@ {
        Some(Language::Ruby)
    } else if s == "rust"@ {
        Some(Language::Rust)
    } else if s == "scala"@ {
        Some(Language::Scala)
    } else if s == "swift"@ {
        Some(Language::Swift)
    } else if s == "typeScript"@ {
        Some(Language::TypeScript)
    } else if s == "vba"@ {
        Some(Language::VBA)
    } else {
        None
    }
}

/// What `str::to_lowercase` returns; a function of the characters alone.
pub uninterp spec fn lower_of(s: Seq<char>) -> Seq<char>;

/// Relies on `str::to_lowercase`: the lower-cased form of a string, a pure
/// function of its characters.
#[verifier::external_body]
fn to_lowercase(s: &str) -> (r: String)
    ensures
        r@ == lower_of(s@),
{
    s.to_lowercase()
}

impl Language {
    /// The language a lower-cased name denotes, if any.
    pub fn from_lower_name(s: &str) -> (r: Result<Language, String>)
        ensures
            match r {
                Ok(l) => spec_lang_of(s@) == Some(l),
                Err(e) => spec_lang_of(s@) is None && e@ == "Invalid language"@,
            },
    {
        if str_eq(s, "ada") {
            Ok(Language::Ada)
        } else if str_eq(s, "bash") {
            Ok(Language::Bash)
        } else if str_eq(s, "c") {
            Ok(Language::C)
        } else if str_eq(s, "caml") {
            Ok(Language::Caml)
        } else if str_eq(s, "cpp") || str_eq(s, "c++") || str_eq(s, "cxx") || str_eq(
            s,
            "cplusplus",
        ) {
            Ok(Language::CPlusPlus)
        } else if str_eq(s, "c#") || str_eq(s, "csharp") {
            Ok(Language::CSharp)
        } else if str_eq(s, "clojure") {
            Ok(Language::Clojure)
        } else if str_eq(s, "dart") {
            Ok(Language::Dart)
        } else if str_eq(s, "elixir") {
            Ok(Language::Elixir)
        } else if str_eq(s, "erlang") {
            Ok(Language::Erlang)
        } else if str_eq(s, "f#") || str_eq(s, "fsharp") {
            Ok(Language::FSharp)
        } else if str_eq(s, "go") {
            Ok(Language::Go)
        } else if str_eq(s, "groovy") {
            Ok(Language::Groovy)
        } else if str_eq(s, "haskell") {
            Ok(Language::Haskell)
        } else if str_eq(s, "java") {
            Ok(Language::Java)
        } else if str_eq(s, "javascript") {
            Ok(Language::JavaScript)
        } else if str_eq(s, "kotlin") {
            Ok(Language::Kotlin)
        } else if str_eq(s, "lisp") {
            Ok(Language::Lisp)
        } else if str_eq(s, "objectivec") {
            Ok(Language::ObjectiveC)
        } else if str_eq(s, "php") {
            Ok(Language::PHP)
        } else if str_eq(s, "python") {
            Ok(Language::Python)
        } else if str_eq(s, "r") {
            Ok(Language::R)
        } else if str_eq(s, "ruby") {
            Ok(Language::Ruby)
        } else if str_eq(s, "rust") {
            Ok(Language::Rust)
        } else if str_eq(s, "scala") {
            Ok(Language::Scala)
        } else if str_eq(s, "swift") {
            Ok(Language::Swift)
        } else if str_eq(s, "typeScript") {
            Ok(Language::TypeScript)
        } else if str_eq(s, "vba") {
            Ok(Language::VBA)
        } else {
            Err(String::from_str("Invalid language"))
        }
    }

    /// Recognize a language from a name, case-insensitively.
    pub fn from_str(s: &str) -> (r: Result<Language, String>)
        ensures
            match r {
                Ok(l) => spec_lang_of(lower_of(s@)) == Some(l),
                Err(e) => spec_lang_of(lower_of(s@)) is None && e@ == "Invalid language"@,
            },
    {
        let lower = to_lowercase(s);
        Language::from_lower_name(lower.as_str())
    }

    /// The display name of the language.
    pub fn name(&self) -> (r: &'static str)
        ensures
            r@ == lang_name(*self),
    {
        match self {
            Language::Ada => "Ada",
            Language::Bash => "bash",
            Language::C => "C",
            Language::Caml => "caml",
            Language::CPlusPlus => "C++",
            Language::CSharp => "C#",
            Language::Clojure => "Clojure",
            Language::Dart => "dart",
            Language::Elixir => "elixir",
            Language::Erlang => "erlang",
            Language::FSharp => "f#",
            Language::Go => "Go",
            Language::Groovy => "Groovy",
            Language::Haskell => "Haskell",
            Language::Java => "Java",
            Language::JavaScript => "JavaScript",
            Language::Kotlin => "Kotlin",
            Language::Lisp => "Lisp",
            Language::ObjectiveC => "ObjectiveC",
            Language::PHP => "PHP",
            Language::Python => "Python",
            Language::R => "R",
            Language::Ruby => "Ruby",
            Language::Rust => "Rust",
            Language::Scala => "Scala",
            Language::Swift => "Swift",
            Language::TypeScript => "TypeScript",
            Language::VBA => "VBA",
        }
    }
}

/// The file extension of a path: what follows the last `.` of its final
/// component, unless that dot starts the component. Scanned backwards from
/// position `i`.
pub open spec fn spec_ext_from(s: Seq<char>, i: int) -> Option<Seq<char>>
    decreases i,
{
    if i <= 0 {
        None
    } else if s[i - 1] == '/' {
        None
    } else if s[i - 1] == '.' {
        if i - 1 > 0 && s[i - 2] != '/' {
            Some(s.skip(i))
        } else {
            None
        }
    } else {
        spec_ext_from(s, i - 1)
    }
}

/// The file extension of a path, if any.
pub open spec fn extension_of(s: Seq<char>) -> Option<Seq<char>> {
    spec_ext_from(s, s.len() as int)
}

/// The language a file extension denotes, for the languages recognized by
/// looking at a source file alone.
pub open spec fn lang_of_ext(ext: Seq<char>) -> Option<Language> {
    if ext == "sh"@ {
        Some(Language::Bash)
    } else if ext == "c"@ {
        Some(Language::C)
    } else if ext == "cpp"@ || ext == "cxx"@ || ext == "c++"@ {
        Some(Language::CPlusPlus)
    } else if ext == "hs"@ {
        Some(Language::Haskell)
    } else {
        None
    }
}

impl Language {
    /// Guess the language of a source file from its path's extension.
    pub fn from_source(source: &str) -> (r: Option<Language>)
        ensures
            r == (match extension_of(source@) {
                Some(ext) => lang_of_ext(ext),
                None => None::<Language>,
            }),
    {
        let n = source.unicode_len();
        let mut i: usize = n;
        loop
            invariant
                i <= n,
                n == source@.len(),
                spec_ext_from(source@, n as int) == spec_ext_from(source@, i as int),
            decreases i,
        {
            if i == 0 {
                return None;
            }
            let c = source.get_char(i - 1);
            if c == '/' {
                return None;
            }
            if c == '.' {
                if i - 1 > 0 && source.get_char(i - 2) != '/' {
                    let ext = source.substring_char(i, n);
                    proof {
                        assert(ext@ == source@.skip(i as int)) by {
                            assert(ext@ == source@.subrange(i as int, n as int));
                            assert(source@.subrange(i as int, n as int) =~= source@.skip(i as int));
                        }
                    }
                    if str_eq(ext, "sh") {
                        return Some(Language::Bash);
                    } else if str_eq(ext, "c") {
                        return Some(Language::C);
                    } else if str_eq(ext, "cpp") || str_eq(ext, "cxx") || str_eq(ext, "c++") {
                        return Some(Language::CPlusPlus);
                    } else if str_eq(ext, "hs") {
                        return Some(Language::Haskell);
                    } else {
                        return None;
                    }
                } else {
                    return None;
                }
            }
            i = i - 1;
        }
    }
}

} // verus!
