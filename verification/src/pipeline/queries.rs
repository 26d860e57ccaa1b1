//! The kinds of per-language tree-sitter queries the passes run.

use vstd::prelude::*;
use crate::language::{Language, spec_language_name};

verus! {

/// Which query of a language: definitions (pass 1), calls and imports
/// (pass 3).
#[derive(Clone, Copy, Hash, PartialEq, Eq, Debug, Structural)]
pub enum QueryKind {
    Definitions,
    Calls,
    Imports,
}

/// Where `lang`'s definitions (pass 1) query source lives, relative to the queries
/// directory: `<language>/definitions.scm`.
pub fn definitions_scm(lang: Language) -> (r: String)
    ensures
        r@ == spec_language_name(lang) + "/definitions.scm"@,
{
    let mut r = String::from_str(lang.as_str());
    r.append("/definitions.scm");
    r
}

/// Where `lang`'s calls (pass 3) query source lives, relative to the queries
/// directory: `<language>/calls.scm`.
pub fn calls_scm(lang: Language) -> (r: String)
    ensures
        r@ == spec_language_name(lang) + "/calls.scm"@,
{
    let mut r = String::from_str(lang.as_str());
    r.append("/calls.scm");
    r
}

/// Where `lang`'s imports (pass 3) query source lives, relative to the queries
/// directory: `<language>/imports.scm`.
pub fn imports_scm(lang: Language) -> (r: String)
    ensures
        r@ == spec_language_name(lang) + "/imports.scm"@,
{
    let mut r = String::from_str(lang.as_str());
    r.append("/imports.scm");
    r
}

/// Where `lang`'s query of `kind` lives, relative to the queries directory.
pub fn query_file(lang: Language, kind: QueryKind) -> (r: String)
    ensures
        r@ == spec_language_name(lang) + match kind {
            QueryKind::Definitions => "/definitions.scm"@,
            QueryKind::Calls => "/calls.scm"@,
            QueryKind::Imports => "/imports.scm"@,
        },
{
    match kind {
        QueryKind::Definitions => definitions_scm(lang),
        QueryKind::Calls => calls_scm(lang),
        QueryKind::Imports => imports_scm(lang),
    }
}

} // verus!
