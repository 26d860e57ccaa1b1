//! Languages Grafy can index, with their stable names and file extensions.

use vstd::prelude::*;
use crate::text::{push_decimal, spec_decimal, str_eq};

verus! {

/// Languages Grafy can parse.
#[derive(Clone, Copy, Debug, PartialEq, Eq, Hash, Structural)]
pub enum Language {
    Rust,
    Python,
    JavaScript,
    TypeScript,
    Tsx,
    Go,
    Java,
    Cpp,
    CSharp,
    Php,
    Scala,
    Lua,
}

/// The stable short name of each language, used in logs and reports.
pub open spec fn spec_language_name(l: Language) -> Seq<char> {
    match l {
        Language::Rust => "rust"@,
        Language::Python => "python"@,
        Language::JavaScript => "javascript"@,
        Language::TypeScript => "typescript"@,
        Language::Tsx => "tsx"@,
        Language::Go => "go"@,
        Language::Java => "java"@,
        Language::Cpp => "cpp"@,
        Language::CSharp => "csharp"@,
        Language::Php => "php"@,
        Language::Scala => "scala"@,
        Language::Lua => "lua"@,
    }
}

/// The extension table: which language a file extension (without the dot)
/// selects.
pub open spec fn spec_language_of_extension(e: Seq<char>) -> Option<Language> {
    if e == "rs"@ {
        Some(Language::Rust)
    } else if e == "py"@ || e == "pyi"@ {
        Some(Language::Python)
    } else if e == "js"@ || e == "mjs"@ || e == "cjs"@ || e == "jsx"@ {
        Some(Language::JavaScript)
    } else if e == "ts"@ || e == "mts"@ || e == "cts"@ {
        Some(Language::TypeScript)
    } else if e == "tsx"@ {
        Some(Language::Tsx)
    } else if e == "go"@ {
        Some(Language::Go)
    } else if e == "java"@ {
        Some(Language::Java)
    } else if e == "cc"@ || e == "cpp"@ || e == "cxx"@ || e == "c++"@ || e == "h"@ || e == "hpp"@
        || e == "hxx"@ || e == "h++"@ {
        Some(Language::Cpp)
    } else if e == "cs"@ {
        Some(Language::CSharp)
    } else if e == "php"@ || e == "phtml"@ {
        Some(Language::Php)
    } else if e == "scala"@ || e == "sc"@ {
        Some(Language::Scala)
    } else if e == "lua"@ {
        Some(Language::Lua)
    } else {
        None
    }
}

impl Language {
    /// Stable short name for logging and diagnostics.
    pub fn as_str(self) -> (r: &'static str)
        ensures
            r@ == spec_language_name(self),
    {
        match self {
            Language::Rust => "rust",
            Language::Python => "python",
            Language::JavaScript => "javascript",
            Language::TypeScript => "typescript",
            Language::Tsx => "tsx",
            Language::Go => "go",
            Language::Java => "java",
            Language::Cpp => "cpp",
            Language::CSharp => "csharp",
            Language::Php => "php",
            Language::Scala => "scala",
            Language::Lua => "lua",
        }
    }

    /// The language a file extension (without the dot) selects, if any.
    pub fn from_extension(ext: &str) -> (r: Option<Language>)
        ensures
            r == spec_language_of_extension(ext@),
    {
        if str_eq(ext, "rs") {
            Some(Language::Rust)
        } else if str_eq(ext, "py") || str_eq(ext, "pyi") {
            Some(Language::Python)
        } else if str_eq(ext, "js") || str_eq(ext, "mjs") || str_eq(ext, "cjs") || str_eq(ext, "jsx") {
            Some(Language::JavaScript)
        } else if str_eq(ext, "ts") || str_eq(ext, "mts") || str_eq(ext, "cts") {
            Some(Language::TypeScript)
        } else if str_eq(ext, "tsx") {
            Some(Language::Tsx)
        } else if str_eq(ext, "go") {
            Some(Language::Go)
        } else if str_eq(ext, "java") {
            Some(Language::Java)
        } else if str_eq(ext, "cc") || str_eq(ext, "cpp") || str_eq(ext, "cxx") || str_eq(ext, "c++")
            || str_eq(ext, "h") || str_eq(ext, "hpp") || str_eq(ext, "hxx") || str_eq(ext, "h++") {
            Some(Language::Cpp)
        } else if str_eq(ext, "cs") {
            Some(Language::CSharp)
        } else if str_eq(ext, "php") || str_eq(ext, "phtml") {
            Some(Language::Php)
        } else if str_eq(ext, "scala") || str_eq(ext, "sc") {
            Some(Language::Scala)
        } else if str_eq(ext, "lua") {
            Some(Language::Lua)
        } else {
            None
        }
    }
    pub open spec fn spec_code(self) -> u8 {
        match self {
            Language::Rust => 0,
            Language::Python => 1,
            Language::JavaScript => 2,
            Language::TypeScript => 3,
            Language::Tsx => 4,
            Language::Go => 5,
            Language::Java => 6,
            Language::Cpp => 7,
            Language::CSharp => 8,
            Language::Php => 9,
            Language::Scala => 10,
            Language::Lua => 11,
        }
    }

    /// The language's number, in declaration order from 0.
    pub fn code(self) -> (c: u8)
        ensures
            c == self.spec_code(),
    {
        match self {
            Language::Rust => 0,
            Language::Python => 1,
            Language::JavaScript => 2,
            Language::TypeScript => 3,
            Language::Tsx => 4,
            Language::Go => 5,
            Language::Java => 6,
            Language::Cpp => 7,
            Language::CSharp => 8,
            Language::Php => 9,
            Language::Scala => 10,
            Language::Lua => 11,
        }
    }
}

/// Per-file wall-clock cap on parsing, in seconds.
pub const PER_FILE_TIMEOUT_SECS: u64 = 5;

/// Why a file could not be parsed.
#[derive(Debug)]
pub enum ParseError {
    UnsupportedLanguage { path: String, lang: String },
    NoTree { path: String },
    Timeout { path: String, timeout_secs: u64 },
}

/// The message of a parse error.
pub open spec fn spec_parse_message(e: ParseError) -> Seq<char> {
    match e {
        ParseError::UnsupportedLanguage { path, lang } => path@ + ": unsupported language `"@ + lang@
            + "`. Add a grammar in grafy-parser/Cargo.toml or open an issue."@,
        ParseError::NoTree { path } => path@
            + ": tree-sitter parser returned no tree. File may be empty or contain invalid UTF-8 — re-encode to UTF-8 and retry."@,
        ParseError::Timeout { path, timeout_secs } => path@ + ": parse exceeded "@ + spec_decimal(timeout_secs as nat)
            + "s. File too large or grammar pathology — split the file or open an issue with a minimal repro."@,
    }
}

impl ParseError {
    /// The message shown for this error.
    pub fn message(&self) -> (m: String)
        ensures
            m@ == spec_parse_message(*self),
    {
        match self {
            ParseError::UnsupportedLanguage { path, lang } => {
                let mut m = path.clone();
                m.append(": unsupported language `");
                m.append(lang.as_str());
                m.append("`. Add a grammar in grafy-parser/Cargo.toml or open an issue.");
                m
            },
            ParseError::NoTree { path } => {
                let mut m = path.clone();
                m.append(
                    ": tree-sitter parser returned no tree. File may be empty or contain invalid UTF-8 — re-encode to UTF-8 and retry.",
                );
                m
            },
            ParseError::Timeout { path, timeout_secs } => {
                let mut m = path.clone();
                m.append(": parse exceeded ");
                push_decimal(&mut m, *timeout_secs);
                m.append("s. File too large or grammar pathology — split the file or open an issue with a minimal repro.");
                m
            },
        }
    }
}

proof fn extension_selects_0()
    ensures
        spec_language_of_extension("rs"@) == Some(Language::Rust),
{
    reveal_strlit("rs");
}

proof fn extension_selects_1()
    ensures
        spec_language_of_extension("py"@) == Some(Language::Python),
{
    reveal_strlit("py");
    reveal_strlit("rs");
    assert("py"@[0] != "rs"@[0]);
}

proof fn extension_selects_2()
    ensures
        spec_language_of_extension("pyi"@) == Some(Language::Python),
{
    reveal_strlit("pyi");
    reveal_strlit("rs");
    assert("pyi"@.len() != "rs"@.len());
    reveal_strlit("py");
    assert("pyi"@.len() != "py"@.len());
}

proof fn extension_selects_3()
    ensures
        spec_language_of_extension("js"@) == Some(Language::JavaScript),
{
    reveal_strlit("js");
    reveal_strlit("rs");
    assert("js"@[0] != "rs"@[0]);
    reveal_strlit("py");
    assert("js"@[0] != "py"@[0]);
    reveal_strlit("pyi");
    assert("js"@.len() != "pyi"@.len());
}

proof fn extension_selects_4()
    ensures
        spec_language_of_extension("mjs"@) == Some(Language::JavaScript),
{
    reveal_strlit("mjs");
    reveal_strlit("rs");
    assert("mjs"@.len() != "rs"@.len());
    reveal_strlit("py");
    assert("mjs"@.len() != "py"@.len());
    reveal_strlit("pyi");
    assert("mjs"@[0] != "pyi"@[0]);
    reveal_strlit("js");
    assert("mjs"@.len() != "js"@.len());
}

proof fn extension_selects_5()
    ensures
        spec_language_of_extension("cjs"@) == Some(Language::JavaScript),
{
    reveal_strlit("cjs");
    reveal_strlit("rs");
    assert("cjs"@.len() != "rs"@.len());
    reveal_strlit("py");
    assert("cjs"@.len() != "py"@.len());
    reveal_strlit("pyi");
    assert("cjs"@[0] != "pyi"@[0]);
    reveal_strlit("js");
    assert("cjs"@.len() != "js"@.len());
    reveal_strlit("mjs");
    assert("cjs"@[0] != "mjs"@[0]);
}

proof fn extension_selects_6()
    ensures
        spec_language_of_extension("jsx"@) == Some(Language::JavaScript),
{
    reveal_strlit("jsx");
    reveal_strlit("rs");
    assert("jsx"@.len() != "rs"@.len());
    reveal_strlit("py");
    assert("jsx"@.len() != "py"@.len());
    reveal_strlit("pyi");
    assert("jsx"@[0] != "pyi"@[0]);
    reveal_strlit("js");
    assert("jsx"@.len() != "js"@.len());
    reveal_strlit("mjs");
    assert("jsx"@[0] != "mjs"@[0]);
    reveal_strlit("cjs");
    assert("jsx"@[0] != "cjs"@[0]);
}

proof fn extension_selects_7()
    ensures
        spec_language_of_extension("ts"@) == Some(Language::TypeScript),
{
    reveal_strlit("ts");
    reveal_strlit("rs");
    assert("ts"@[0] != "rs"@[0]);
    reveal_strlit("py");
    assert("ts"@[0] != "py"@[0]);
    reveal_strlit("pyi");
    assert("ts"@.len() != "pyi"@.len());
    reveal_strlit("js");
    assert("ts"@[0] != "js"@[0]);
    reveal_strlit("mjs");
    assert("ts"@.len() != "mjs"@.len());
    reveal_strlit("cjs");
    assert("ts"@.len() != "cjs"@.len());
    reveal_strlit("jsx");
    assert("ts"@.len() != "jsx"@.len());
}

proof fn extension_selects_8()
    ensures
        spec_language_of_extension("mts"@) == Some(Language::TypeScript),
{
    reveal_strlit("mts");
    reveal_strlit("rs");
    assert("mts"@.len() != "rs"@.len());
    reveal_strlit("py");
    assert("mts"@.len() != "py"@.len());
    reveal_strlit("pyi");
    assert("mts"@[0] != "pyi"@[0]);
    reveal_strlit("js");
    assert("mts"@.len() != "js"@.len());
    reveal_strlit("mjs");
    assert("mts"@[1] != "mjs"@[1]);
    reveal_strlit("cjs");
    assert("mts"@[0] != "cjs"@[0]);
    reveal_strlit("jsx");
    assert("mts"@[0] != "jsx"@[0]);
    reveal_strlit("ts");
    assert("mts"@.len() != "ts"@.len());
}

proof fn extension_selects_9()
    ensures
        spec_language_of_extension("cts"@) == Some(Language::TypeScript),
{
    reveal_strlit("cts");
    reveal_strlit("rs");
    assert("cts"@.len() != "rs"@.len());
    reveal_strlit("py");
    assert("cts"@.len() != "py"@.len());
    reveal_strlit("pyi");
    assert("cts"@[0] != "pyi"@[0]);
    reveal_strlit("js");
    assert("cts"@.len() != "js"@.len());
    reveal_strlit("mjs");
    assert("cts"@[0] != "mjs"@[0]);
    reveal_strlit("cjs");
    assert("cts"@[1] != "cjs"@[1]);
    reveal_strlit("jsx");
    assert("cts"@[0] != "jsx"@[0]);
    reveal_strlit("ts");
    assert("cts"@.len() != "ts"@.len());
    reveal_strlit("mts");
    assert("cts"@[0] != "mts"@[0]);
}

proof fn extension_selects_10()
    ensures
        spec_language_of_extension("tsx"@) == Some(Language::Tsx),
{
    reveal_strlit("tsx");
    reveal_strlit("rs");
    assert("tsx"@.len() != "rs"@.len());
    reveal_strlit("py");
    assert("tsx"@.len() != "py"@.len());
    reveal_strlit("pyi");
    assert("tsx"@[0] != "pyi"@[0]);
    reveal_strlit("js");
    assert("tsx"@.len() != "js"@.len());
    reveal_strlit("mjs");
    assert("tsx"@[0] != "mjs"@[0]);
    reveal_strlit("cjs");
    assert("tsx"@[0] != "cjs"@[0]);
    reveal_strlit("jsx");
    assert("tsx"@[0] != "jsx"@[0]);
    reveal_strlit("ts");
    assert("tsx"@.len() != "ts"@.len());
    reveal_strlit("mts");
    assert("tsx"@[0] != "mts"@[0]);
    reveal_strlit("cts");
    assert("tsx"@[0] != "cts"@[0]);
}

proof fn extension_selects_11()
    ensures
        spec_language_of_extension("go"@) == Some(Language::Go),
{
    reveal_strlit("go");
    reveal_strlit("rs");
    assert("go"@[0] != "rs"@[0]);
    reveal_strlit("py");
    assert("go"@[0] != "py"@[0]);
    reveal_strlit("pyi");
    assert("go"@.len() != "pyi"@.len());
    reveal_strlit("js");
    assert("go"@[0] != "js"@[0]);
    reveal_strlit("mjs");
    assert("go"@.len() != "mjs"@.len());
    reveal_strlit("cjs");
    assert("go"@.len() != "cjs"@.len());
    reveal_strlit("jsx");
    assert("go"@.len() != "jsx"@.len());
    reveal_strlit("ts");
    assert("go"@[0] != "ts"@[0]);
    reveal_strlit("mts");
    assert("go"@.len() != "mts"@.len());
    reveal_strlit("cts");
    assert("go"@.len() != "cts"@.len());
    reveal_strlit("tsx");
    assert("go"@.len() != "tsx"@.len());
}

proof fn extension_selects_12()
    ensures
        spec_language_of_extension("java"@) == Some(Language::Java),
{
    reveal_strlit("java");
    reveal_strlit("rs");
    assert("java"@.len() != "rs"@.len());
    reveal_strlit("py");
    assert("java"@.len() != "py"@.len());
    reveal_strlit("pyi");
    assert("java"@.len() != "pyi"@.len());
    reveal_strlit("js");
    assert("java"@.len() != "js"@.len());
    reveal_strlit("mjs");
    assert("java"@.len() != "mjs"@.len());
    reveal_strlit("cjs");
    assert("java"@.len() != "cjs"@.len());
    reveal_strlit("jsx");
    assert("java"@.len() != "jsx"@.len());
    reveal_strlit("ts");
    assert("java"@.len() != "ts"@.len());
    reveal_strlit("mts");
    assert("java"@.len() != "mts"@.len());
    reveal_strlit("cts");
    assert("java"@.len() != "cts"@.len());
    reveal_strlit("tsx");
    assert("java"@.len() != "tsx"@.len());
    reveal_strlit("go");
    assert("java"@.len() != "go"@.len());
}

proof fn extension_selects_13()
    ensures
        spec_language_of_extension("cc"@) == Some(Language::Cpp),
{
    reveal_strlit("cc");
    reveal_strlit("rs");
    assert("cc"@[0] != "rs"@[0]);
    reveal_strlit("py");
    assert("cc"@[0] != "py"@[0]);
    reveal_strlit("pyi");
    assert("cc"@.len() != "pyi"@.len());
    reveal_strlit("js");
    assert("cc"@[0] != "js"@[0]);
    reveal_strlit("mjs");
    assert("cc"@.len() != "mjs"@.len());
    reveal_strlit("cjs");
    assert("cc"@.len() != "cjs"@.len());
    reveal_strlit("jsx");
    assert("cc"@.len() != "jsx"@.len());
    reveal_strlit("ts");
    assert("cc"@[0] != "ts"@[0]);
    reveal_strlit("mts");
    assert("cc"@.len() != "mts"@.len());
    reveal_strlit("cts");
    assert("cc"@.len() != "cts"@.len());
    reveal_strlit("tsx");
    assert("cc"@.len() != "tsx"@.len());
    reveal_strlit("go");
    assert("cc"@[0] != "go"@[0]);
    reveal_strlit("java");
    assert("cc"@.len() != "java"@.len());
}

proof fn extension_selects_14()
    ensures
        spec_language_of_extension("cpp"@) == Some(Language::Cpp),
{
    reveal_strlit("cpp");
    reveal_strlit("rs");
    assert("cpp"@.len() != "rs"@.len());
    reveal_strlit("py");
    assert("cpp"@.len() != "py"@.len());
    reveal_strlit("pyi");
    assert("cpp"@[0] != "pyi"@[0]);
    reveal_strlit("js");
    assert("cpp"@.len() != "js"@.len());
    reveal_strlit("mjs");
    assert("cpp"@[0] != "mjs"@[0]);
    reveal_strlit("cjs");
    assert("cpp"@[1] != "cjs"@[1]);
    reveal_strlit("jsx");
    assert("cpp"@[0] != "jsx"@[0]);
    reveal_strlit("ts");
    assert("cpp"@.len() != "ts"@.len());
    reveal_strlit("mts");
    assert("cpp"@[0] != "mts"@[0]);
    reveal_strlit("cts");
    assert("cpp"@[1] != "cts"@[1]);
    reveal_strlit("tsx");
    assert("cpp"@[0] != "tsx"@[0]);
    reveal_strlit("go");
    assert("cpp"@.len() != "go"@.len());
    reveal_strlit("java");
    assert("cpp"@.len() != "java"@.len());
    reveal_strlit("cc");
    assert("cpp"@.len() != "cc"@.len());
}

proof fn extension_selects_15()
    ensures
        spec_language_of_extension("cxx"@) == Some(Language::Cpp),
{
    reveal_strlit("cxx");
    reveal_strlit("rs");
    assert("cxx"@.len() != "rs"@.len());
    reveal_strlit("py");
    assert("cxx"@.len() != "py"@.len());
    reveal_strlit("pyi");
    assert("cxx"@[0] != "pyi"@[0]);
    reveal_strlit("js");
    assert("cxx"@.len() != "js"@.len());
    reveal_strlit("mjs");
    assert("cxx"@[0] != "mjs"@[0]);
    reveal_strlit("cjs");
    assert("cxx"@[1] != "cjs"@[1]);
    reveal_strlit("jsx");
    assert("cxx"@[0] != "jsx"@[0]);
    reveal_strlit("ts");
    assert("cxx"@.len() != "ts"@.len());
    reveal_strlit("mts");
    assert("cxx"@[0] != "mts"@[0]);
    reveal_strlit("cts");
    assert("cxx"@[1] != "cts"@[1]);
    reveal_strlit("tsx");
    assert("cxx"@[0] != "tsx"@[0]);
    reveal_strlit("go");
    assert("cxx"@.len() != "go"@.len());
    reveal_strlit("java");
    assert("cxx"@.len() != "java"@.len());
    reveal_strlit("cc");
    assert("cxx"@.len() != "cc"@.len());
    reveal_strlit("cpp");
    assert("cxx"@[1] != "cpp"@[1]);
}

proof fn extension_selects_16()
    ensures
        spec_language_of_extension("c++"@) == Some(Language::Cpp),
{
    reveal_strlit("c++");
    reveal_strlit("rs");
    assert("c++"@.len() != "rs"@.len());
    reveal_strlit("py");
    assert("c++"@.len() != "py"@.len());
    reveal_strlit("pyi");
    assert("c++"@[0] != "pyi"@[0]);
    reveal_strlit("js");
    assert("c++"@.len() != "js"@.len());
    reveal_strlit("mjs");
    assert("c++"@[0] != "mjs"@[0]);
    reveal_strlit("cjs");
    assert("c++"@[1] != "cjs"@[1]);
    reveal_strlit("jsx");
    assert("c++"@[0] != "jsx"@[0]);
    reveal_strlit("ts");
    assert("c++"@.len() != "ts"@.len());
    reveal_strlit("mts");
    assert("c++"@[0] != "mts"@[0]);
    reveal_strlit("cts");
    assert("c++"@[1] != "cts"@[1]);
    reveal_strlit("tsx");
    assert("c++"@[0] != "tsx"@[0]);
    reveal_strlit("go");
    assert("c++"@.len() != "go"@.len());
    reveal_strlit("java");
    assert("c++"@.len() != "java"@.len());
    reveal_strlit("cc");
    assert("c++"@.len() != "cc"@.len());
    reveal_strlit("cpp");
    assert("c++"@[1] != "cpp"@[1]);
    reveal_strlit("cxx");
    assert("c++"@[1] != "cxx"@[1]);
}

proof fn extension_selects_17()
    ensures
        spec_language_of_extension("h"@) == Some(Language::Cpp),
{
    reveal_strlit("h");
    reveal_strlit("rs");
    assert("h"@.len() != "rs"@.len());
    reveal_strlit("py");
    assert("h"@.len() != "py"@.len());
    reveal_strlit("pyi");
    assert("h"@.len() != "pyi"@.len());
    reveal_strlit("js");
    assert("h"@.len() != "js"@.len());
    reveal_strlit("mjs");
    assert("h"@.len() != "mjs"@.len());
    reveal_strlit("cjs");
    assert("h"@.len() != "cjs"@.len());
    reveal_strlit("jsx");
    assert("h"@.len() != "jsx"@.len());
    reveal_strlit("ts");
    assert("h"@.len() != "ts"@.len());
    reveal_strlit("mts");
    assert("h"@.len() != "mts"@.len());
    reveal_strlit("cts");
    assert("h"@.len() != "cts"@.len());
    reveal_strlit("tsx");
    assert("h"@.len() != "tsx"@.len());
    reveal_strlit("go");
    assert("h"@.len() != "go"@.len());
    reveal_strlit("java");
    assert("h"@.len() != "java"@.len());
    reveal_strlit("cc");
    assert("h"@.len() != "cc"@.len());
    reveal_strlit("cpp");
    assert("h"@.len() != "cpp"@.len());
    reveal_strlit("cxx");
    assert("h"@.len() != "cxx"@.len());
    reveal_strlit("c++");
    assert("h"@.len() != "c++"@.len());
}

proof fn extension_selects_18()
    ensures
        spec_language_of_extension("hpp"@) == Some(Language::Cpp),
{
    reveal_strlit("hpp");
    reveal_strlit("rs");
    assert("hpp"@.len() != "rs"@.len());
    reveal_strlit("py");
    assert("hpp"@.len() != "py"@.len());
    reveal_strlit("pyi");
    assert("hpp"@[0] != "pyi"@[0]);
    reveal_strlit("js");
    assert("hpp"@.len() != "js"@.len());
    reveal_strlit("mjs");
    assert("hpp"@[0] != "mjs"@[0]);
    reveal_strlit("cjs");
    assert("hpp"@[0] != "cjs"@[0]);
    reveal_strlit("jsx");
    assert("hpp"@[0] != "jsx"@[0]);
    reveal_strlit("ts");
    assert("hpp"@.len() != "ts"@.len());
    reveal_strlit("mts");
    assert("hpp"@[0] != "mts"@[0]);
    reveal_strlit("cts");
    assert("hpp"@[0] != "cts"@[0]);
    reveal_strlit("tsx");
    assert("hpp"@[0] != "tsx"@[0]);
    reveal_strlit("go");
    assert("hpp"@.len() != "go"@.len());
    reveal_strlit("java");
    assert("hpp"@.len() != "java"@.len());
    reveal_strlit("cc");
    assert("hpp"@.len() != "cc"@.len());
    reveal_strlit("cpp");
    assert("hpp"@[0] != "cpp"@[0]);
    reveal_strlit("cxx");
    assert("hpp"@[0] != "cxx"@[0]);
    reveal_strlit("c++");
    assert("hpp"@[0] != "c++"@[0]);
    reveal_strlit("h");
    assert("hpp"@.len() != "h"@.len());
}

proof fn extension_selects_19()
    ensures
        spec_language_of_extension("hxx"@) == Some(Language::Cpp),
{
    reveal_strlit("hxx");
    reveal_strlit("rs");
    assert("hxx"@.len() != "rs"@.len());
    reveal_strlit("py");
    assert("hxx"@.len() != "py"@.len());
    reveal_strlit("pyi");
    assert("hxx"@[0] != "pyi"@[0]);
    reveal_strlit("js");
    assert("hxx"@.len() != "js"@.len());
    reveal_strlit("mjs");
    assert("hxx"@[0] != "mjs"@[0]);
    reveal_strlit("cjs");
    assert("hxx"@[0] != "cjs"@[0]);
    reveal_strlit("jsx");
    assert("hxx"@[0] != "jsx"@[0]);
    reveal_strlit("ts");
    assert("hxx"@.len() != "ts"@.len());
    reveal_strlit("mts");
    assert("hxx"@[0] != "mts"@[0]);
    reveal_strlit("cts");
    assert("hxx"@[0] != "cts"@[0]);
    reveal_strlit("tsx");
    assert("hxx"@[0] != "tsx"@[0]);
    reveal_strlit("go");
    assert("hxx"@.len() != "go"@.len());
    reveal_strlit("java");
    assert("hxx"@.len() != "java"@.len());
    reveal_strlit("cc");
    assert("hxx"@.len() != "cc"@.len());
    reveal_strlit("cpp");
    assert("hxx"@[0] != "cpp"@[0]);
    reveal_strlit("cxx");
    assert("hxx"@[0] != "cxx"@[0]);
    reveal_strlit("c++");
    assert("hxx"@[0] != "c++"@[0]);
    reveal_strlit("h");
    assert("hxx"@.len() != "h"@.len());
    reveal_strlit("hpp");
    assert("hxx"@[1] != "hpp"@[1]);
}

proof fn extension_selects_20()
    ensures
        spec_language_of_extension("h++"@) == Some(Language::Cpp),
{
    reveal_strlit("h++");
    reveal_strlit("rs");
    assert("h++"@.len() != "rs"@.len());
    reveal_strlit("py");
    assert("h++"@.len() != "py"@.len());
    reveal_strlit("pyi");
    assert("h++"@[0] != "pyi"@[0]);
    reveal_strlit("js");
    assert("h++"@.len() != "js"@.len());
    reveal_strlit("mjs");
    assert("h++"@[0] != "mjs"@[0]);
    reveal_strlit("cjs");
    assert("h++"@[0] != "cjs"@[0]);
    reveal_strlit("jsx");
    assert("h++"@[0] != "jsx"@[0]);
    reveal_strlit("ts");
    assert("h++"@.len() != "ts"@.len());
    reveal_strlit("mts");
    assert("h++"@[0] != "mts"@[0]);
    reveal_strlit("cts");
    assert("h++"@[0] != "cts"@[0]);
    reveal_strlit("tsx");
    assert("h++"@[0] != "tsx"@[0]);
    reveal_strlit("go");
    assert("h++"@.len() != "go"@.len());
    reveal_strlit("java");
    assert("h++"@.len() != "java"@.len());
    reveal_strlit("cc");
    assert("h++"@.len() != "cc"@.len());
    reveal_strlit("cpp");
    assert("h++"@[0] != "cpp"@[0]);
    reveal_strlit("cxx");
    assert("h++"@[0] != "cxx"@[0]);
    reveal_strlit("c++");
    assert("h++"@[0] != "c++"@[0]);
    reveal_strlit("h");
    assert("h++"@.len() != "h"@.len());
    reveal_strlit("hpp");
    assert("h++"@[1] != "hpp"@[1]);
    reveal_strlit("hxx");
    assert("h++"@[1] != "hxx"@[1]);
}

proof fn extension_selects_21()
    ensures
        spec_language_of_extension("cs"@) == Some(Language::CSharp),
{
    reveal_strlit("cs");
    reveal_strlit("rs");
    assert("cs"@[0] != "rs"@[0]);
    reveal_strlit("py");
    assert("cs"@[0] != "py"@[0]);
    reveal_strlit("pyi");
    assert("cs"@.len() != "pyi"@.len());
    reveal_strlit("js");
    assert("cs"@[0] != "js"@[0]);
    reveal_strlit("mjs");
    assert("cs"@.len() != "mjs"@.len());
    reveal_strlit("cjs");
    assert("cs"@.len() != "cjs"@.len());
    reveal_strlit("jsx");
    assert("cs"@.len() != "jsx"@.len());
    reveal_strlit("ts");
    assert("cs"@[0] != "ts"@[0]);
    reveal_strlit("mts");
    assert("cs"@.len() != "mts"@.len());
    reveal_strlit("cts");
    assert("cs"@.len() != "cts"@.len());
    reveal_strlit("tsx");
    assert("cs"@.len() != "tsx"@.len());
    reveal_strlit("go");
    assert("cs"@[0] != "go"@[0]);
    reveal_strlit("java");
    assert("cs"@.len() != "java"@.len());
    reveal_strlit("cc");
    assert("cs"@[1] != "cc"@[1]);
    reveal_strlit("cpp");
    assert("cs"@.len() != "cpp"@.len());
    reveal_strlit("cxx");
    assert("cs"@.len() != "cxx"@.len());
    reveal_strlit("c++");
    assert("cs"@.len() != "c++"@.len());
    reveal_strlit("h");
    assert("cs"@.len() != "h"@.len());
    reveal_strlit("hpp");
    assert("cs"@.len() != "hpp"@.len());
    reveal_strlit("hxx");
    assert("cs"@.len() != "hxx"@.len());
    reveal_strlit("h++");
    assert("cs"@.len() != "h++"@.len());
}

proof fn extension_selects_22()
    ensures
        spec_language_of_extension("php"@) == Some(Language::Php),
{
    reveal_strlit("php");
    reveal_strlit("rs");
    assert("php"@.len() != "rs"@.len());
    reveal_strlit("py");
    assert("php"@.len() != "py"@.len());
    reveal_strlit("pyi");
    assert("php"@[1] != "pyi"@[1]);
    reveal_strlit("js");
    assert("php"@.len() != "js"@.len());
    reveal_strlit("mjs");
    assert("php"@[0] != "mjs"@[0]);
    reveal_strlit("cjs");
    assert("php"@[0] != "cjs"@[0]);
    reveal_strlit("jsx");
    assert("php"@[0] != "jsx"@[0]);
    reveal_strlit("ts");
    assert("php"@.len() != "ts"@.len());
    reveal_strlit("mts");
    assert("php"@[0] != "mts"@[0]);
    reveal_strlit("cts");
    assert("php"@[0] != "cts"@[0]);
    reveal_strlit("tsx");
    assert("php"@[0] != "tsx"@[0]);
    reveal_strlit("go");
    assert("php"@.len() != "go"@.len());
    reveal_strlit("java");
    assert("php"@.len() != "java"@.len());
    reveal_strlit("cc");
    assert("php"@.len() != "cc"@.len());
    reveal_strlit("cpp");
    assert("php"@[0] != "cpp"@[0]);
    reveal_strlit("cxx");
    assert("php"@[0] != "cxx"@[0]);
    reveal_strlit("c++");
    assert("php"@[0] != "c++"@[0]);
    reveal_strlit("h");
    assert("php"@.len() != "h"@.len());
    reveal_strlit("hpp");
    assert("php"@[0] != "hpp"@[0]);
    reveal_strlit("hxx");
    assert("php"@[0] != "hxx"@[0]);
    reveal_strlit("h++");
    assert("php"@[0] != "h++"@[0]);
    reveal_strlit("cs");
    assert("php"@.len() != "cs"@.len());
}

proof fn extension_selects_23()
    ensures
        spec_language_of_extension("phtml"@) == Some(Language::Php),
{
    reveal_strlit("phtml");
    reveal_strlit("rs");
    assert("phtml"@.len() != "rs"@.len());
    reveal_strlit("py");
    assert("phtml"@.len() != "py"@.len());
    reveal_strlit("pyi");
    assert("phtml"@.len() != "pyi"@.len());
    reveal_strlit("js");
    assert("phtml"@.len() != "js"@.len());
    reveal_strlit("mjs");
    assert("phtml"@.len() != "mjs"@.len());
    reveal_strlit("cjs");
    assert("phtml"@.len() != "cjs"@.len());
    reveal_strlit("jsx");
    assert("phtml"@.len() != "jsx"@.len());
    reveal_strlit("ts");
    assert("phtml"@.len() != "ts"@.len());
    reveal_strlit("mts");
    assert("phtml"@.len() != "mts"@.len());
    reveal_strlit("cts");
    assert("phtml"@.len() != "cts"@.len());
    reveal_strlit("tsx");
    assert("phtml"@.len() != "tsx"@.len());
    reveal_strlit("go");
    assert("phtml"@.len() != "go"@.len());
    reveal_strlit("java");
    assert("phtml"@.len() != "java"@.len());
    reveal_strlit("cc");
    assert("phtml"@.len() != "cc"@.len());
    reveal_strlit("cpp");
    assert("phtml"@.len() != "cpp"@.len());
    reveal_strlit("cxx");
    assert("phtml"@.len() != "cxx"@.len());
    reveal_strlit("c++");
    assert("phtml"@.len() != "c++"@.len());
    reveal_strlit("h");
    assert("phtml"@.len() != "h"@.len());
    reveal_strlit("hpp");
    assert("phtml"@.len() != "hpp"@.len());
    reveal_strlit("hxx");
    assert("phtml"@.len() != "hxx"@.len());
    reveal_strlit("h++");
    assert("phtml"@.len() != "h++"@.len());
    reveal_strlit("cs");
    assert("phtml"@.len() != "cs"@.len());
    reveal_strlit("php");
    assert("phtml"@.len() != "php"@.len());
}

proof fn extension_selects_24()
    ensures
        spec_language_of_extension("scala"@) == Some(Language::Scala),
{
    reveal_strlit("scala");
    reveal_strlit("rs");
    assert("scala"@.len() != "rs"@.len());
    reveal_strlit("py");
    assert("scala"@.len() != "py"@.len());
    reveal_strlit("pyi");
    assert("scala"@.len() != "pyi"@.len());
    reveal_strlit("js");
    assert("scala"@.len() != "js"@.len());
    reveal_strlit("mjs");
    assert("scala"@.len() != "mjs"@.len());
    reveal_strlit("cjs");
    assert("scala"@.len() != "cjs"@.len());
    reveal_strlit("jsx");
    assert("scala"@.len() != "jsx"@.len());
    reveal_strlit("ts");
    assert("scala"@.len() != "ts"@.len());
    reveal_strlit("mts");
    assert("scala"@.len() != "mts"@.len());
    reveal_strlit("cts");
    assert("scala"@.len() != "cts"@.len());
    reveal_strlit("tsx");
    assert("scala"@.len() != "tsx"@.len());
    reveal_strlit("go");
    assert("scala"@.len() != "go"@.len());
    reveal_strlit("java");
    assert("scala"@.len() != "java"@.len());
    reveal_strlit("cc");
    assert("scala"@.len() != "cc"@.len());
    reveal_strlit("cpp");
    assert("scala"@.len() != "cpp"@.len());
    reveal_strlit("cxx");
    assert("scala"@.len() != "cxx"@.len());
    reveal_strlit("c++");
    assert("scala"@.len() != "c++"@.len());
    reveal_strlit("h");
    assert("scala"@.len() != "h"@.len());
    reveal_strlit("hpp");
    assert("scala"@.len() != "hpp"@.len());
    reveal_strlit("hxx");
    assert("scala"@.len() != "hxx"@.len());
    reveal_strlit("h++");
    assert("scala"@.len() != "h++"@.len());
    reveal_strlit("cs");
    assert("scala"@.len() != "cs"@.len());
    reveal_strlit("php");
    assert("scala"@.len() != "php"@.len());
    reveal_strlit("phtml");
    assert("scala"@[0] != "phtml"@[0]);
}

proof fn extension_selects_25()
    ensures
        spec_language_of_extension("sc"@) == Some(Language::Scala),
{
    reveal_strlit("sc");
    reveal_strlit("rs");
    assert("sc"@[0] != "rs"@[0]);
    reveal_strlit("py");
    assert("sc"@[0] != "py"@[0]);
    reveal_strlit("pyi");
    assert("sc"@.len() != "pyi"@.len());
    reveal_strlit("js");
    assert("sc"@[0] != "js"@[0]);
    reveal_strlit("mjs");
    assert("sc"@.len() != "mjs"@.len());
    reveal_strlit("cjs");
    assert("sc"@.len() != "cjs"@.len());
    reveal_strlit("jsx");
    assert("sc"@.len() != "jsx"@.len());
    reveal_strlit("ts");
    assert("sc"@[0] != "ts"@[0]);
    reveal_strlit("mts");
    assert("sc"@.len() != "mts"@.len());
    reveal_strlit("cts");
    assert("sc"@.len() != "cts"@.len());
    reveal_strlit("tsx");
    assert("sc"@.len() != "tsx"@.len());
    reveal_strlit("go");
    assert("sc"@[0] != "go"@[0]);
    reveal_strlit("java");
    assert("sc"@.len() != "java"@.len());
    reveal_strlit("cc");
    assert("sc"@[0] != "cc"@[0]);
    reveal_strlit("cpp");
    assert("sc"@.len() != "cpp"@.len());
    reveal_strlit("cxx");
    assert("sc"@.len() != "cxx"@.len());
    reveal_strlit("c++");
    assert("sc"@.len() != "c++"@.len());
    reveal_strlit("h");
    assert("sc"@.len() != "h"@.len());
    reveal_strlit("hpp");
    assert("sc"@.len() != "hpp"@.len());
    reveal_strlit("hxx");
    assert("sc"@.len() != "hxx"@.len());
    reveal_strlit("h++");
    assert("sc"@.len() != "h++"@.len());
    reveal_strlit("cs");
    assert("sc"@[0] != "cs"@[0]);
    reveal_strlit("php");
    assert("sc"@.len() != "php"@.len());
    reveal_strlit("phtml");
    assert("sc"@.len() != "phtml"@.len());
    reveal_strlit("scala");
    assert("sc"@.len() != "scala"@.len());
}

proof fn extension_selects_26()
    ensures
        spec_language_of_extension("lua"@) == Some(Language::Lua),
{
    reveal_strlit("lua");
    reveal_strlit("rs");
    assert("lua"@.len() != "rs"@.len());
    reveal_strlit("py");
    assert("lua"@.len() != "py"@.len());
    reveal_strlit("pyi");
    assert("lua"@[0] != "pyi"@[0]);
    reveal_strlit("js");
    assert("lua"@.len() != "js"@.len());
    reveal_strlit("mjs");
    assert("lua"@[0] != "mjs"@[0]);
    reveal_strlit("cjs");
    assert("lua"@[0] != "cjs"@[0]);
    reveal_strlit("jsx");
    assert("lua"@[0] != "jsx"@[0]);
    reveal_strlit("ts");
    assert("lua"@.len() != "ts"@.len());
    reveal_strlit("mts");
    assert("lua"@[0] != "mts"@[0]);
    reveal_strlit("cts");
    assert("lua"@[0] != "cts"@[0]);
    reveal_strlit("tsx");
    assert("lua"@[0] != "tsx"@[0]);
    reveal_strlit("go");
    assert("lua"@.len() != "go"@.len());
    reveal_strlit("java");
    assert("lua"@.len() != "java"@.len());
    reveal_strlit("cc");
    assert("lua"@.len() != "cc"@.len());
    reveal_strlit("cpp");
    assert("lua"@[0] != "cpp"@[0]);
    reveal_strlit("cxx");
    assert("lua"@[0] != "cxx"@[0]);
    reveal_strlit("c++");
    assert("lua"@[0] != "c++"@[0]);
    reveal_strlit("h");
    assert("lua"@.len() != "h"@.len());
    reveal_strlit("hpp");
    assert("lua"@[0] != "hpp"@[0]);
    reveal_strlit("hxx");
    assert("lua"@[0] != "hxx"@[0]);
    reveal_strlit("h++");
    assert("lua"@[0] != "h++"@[0]);
    reveal_strlit("cs");
    assert("lua"@.len() != "cs"@.len());
    reveal_strlit("php");
    assert("lua"@[0] != "php"@[0]);
    reveal_strlit("phtml");
    assert("lua"@.len() != "phtml"@.len());
    reveal_strlit("scala");
    assert("lua"@.len() != "scala"@.len());
    reveal_strlit("sc");
    assert("lua"@.len() != "sc"@.len());
}

/// The extensions each language is indexed under: `.rs` Rust; `.py`,
/// `.pyi` Python; `.js`, `.mjs`, `.cjs`, `.jsx` JavaScript; `.ts`, `.mts`,
/// `.cts` TypeScript; `.tsx` TSX; `.go` Go; `.java` Java; `.cc`, `.cpp`,
/// `.cxx`, `.c++`, `.h`, `.hpp`, `.hxx`, `.h++` C++; `.cs` C#; `.php`,
/// `.phtml` PHP; `.scala`, `.sc` Scala; `.lua` Lua. No other extension
/// selects a language.
pub proof fn extension_table_law(e: Seq<char>)
    ensures
        spec_language_of_extension("rs"@) == Some(Language::Rust),
        spec_language_of_extension("py"@) == Some(Language::Python),
        spec_language_of_extension("pyi"@) == Some(Language::Python),
        spec_language_of_extension("js"@) == Some(Language::JavaScript),
        spec_language_of_extension("mjs"@) == Some(Language::JavaScript),
        spec_language_of_extension("cjs"@) == Some(Language::JavaScript),
        spec_language_of_extension("jsx"@) == Some(Language::JavaScript),
        spec_language_of_extension("ts"@) == Some(Language::TypeScript),
        spec_language_of_extension("mts"@) == Some(Language::TypeScript),
        spec_language_of_extension("cts"@) == Some(Language::TypeScript),
        spec_language_of_extension("tsx"@) == Some(Language::Tsx),
        spec_language_of_extension("go"@) == Some(Language::Go),
        spec_language_of_extension("java"@) == Some(Language::Java),
        spec_language_of_extension("cc"@) == Some(Language::Cpp),
        spec_language_of_extension("cpp"@) == Some(Language::Cpp),
        spec_language_of_extension("cxx"@) == Some(Language::Cpp),
        spec_language_of_extension("c++"@) == Some(Language::Cpp),
        spec_language_of_extension("h"@) == Some(Language::Cpp),
        spec_language_of_extension("hpp"@) == Some(Language::Cpp),
        spec_language_of_extension("hxx"@) == Some(Language::Cpp),
        spec_language_of_extension("h++"@) == Some(Language::Cpp),
        spec_language_of_extension("cs"@) == Some(Language::CSharp),
        spec_language_of_extension("php"@) == Some(Language::Php),
        spec_language_of_extension("phtml"@) == Some(Language::Php),
        spec_language_of_extension("scala"@) == Some(Language::Scala),
        spec_language_of_extension("sc"@) == Some(Language::Scala),
        spec_language_of_extension("lua"@) == Some(Language::Lua),
        spec_language_of_extension(e) is Some ==> (e == "rs"@ || e == "py"@ || e == "pyi"@ || e == "js"@ || e == "mjs"@ || e == "cjs"@ || e == "jsx"@ || e == "ts"@ || e == "mts"@ || e == "cts"@ || e == "tsx"@ || e == "go"@ || e == "java"@ || e == "cc"@ || e == "cpp"@ || e == "cxx"@ || e == "c++"@ || e == "h"@ || e == "hpp"@ || e == "hxx"@ || e == "h++"@ || e == "cs"@ || e == "php"@ || e == "phtml"@ || e == "scala"@ || e == "sc"@ || e == "lua"@),
{
    extension_selects_0();
    extension_selects_1();
    extension_selects_2();
    extension_selects_3();
    extension_selects_4();
    extension_selects_5();
    extension_selects_6();
    extension_selects_7();
    extension_selects_8();
    extension_selects_9();
    extension_selects_10();
    extension_selects_11();
    extension_selects_12();
    extension_selects_13();
    extension_selects_14();
    extension_selects_15();
    extension_selects_16();
    extension_selects_17();
    extension_selects_18();
    extension_selects_19();
    extension_selects_20();
    extension_selects_21();
    extension_selects_22();
    extension_selects_23();
    extension_selects_24();
    extension_selects_25();
    extension_selects_26();
}

} // verus!
