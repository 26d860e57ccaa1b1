//! Module names derived from file paths, per language.
//!
//! The path operations themselves (relative path, extension removal,
//! components, parent) are `std::path`'s; the naming rules are ours.

use vstd::prelude::*;
use crate::language::Language;
use crate::text::{push_chars, str_eq};

pub mod rust;
pub mod python;
pub mod javascript;
pub mod typescript;
pub mod tsx;
pub mod go;
pub mod java;
pub mod scala;
pub mod cpp;
pub mod laws;

verus! {

/// `file` relative to `root` (`Path::strip_prefix`), if `root` is a prefix
/// of it.
pub uninterp spec fn path_relative_to(file: Seq<char>, root: Seq<char>) -> Option<Seq<char>>;

/// `p` with the extension of its last component removed
/// (`Path::with_extension("")`).
pub uninterp spec fn path_without_extension(p: Seq<char>) -> Seq<char>;

/// The components of `p` (`Path::iter`).
pub uninterp spec fn path_components(p: Seq<char>) -> Seq<Seq<char>>;

/// The parent of `p` (`Path::parent`).
pub uninterp spec fn path_parent(p: Seq<char>) -> Option<Seq<char>>;

pub open spec fn opt_string_view(o: Option<String>) -> Option<Seq<char>> {
    match o {
        Some(s) => Some(s@),
        None => None,
    }
}

pub open spec fn strings_view(v: Seq<String>) -> Seq<Seq<char>> {
    v.map_values(|s: String| s@)
}

/// Calls `Path::strip_prefix`: `file` relative to `root`, a function of the
/// two paths.
#[verifier::external_body]
pub(crate) fn strip_root(file: &str, root: &str) -> (r: Option<String>)
    ensures
        opt_string_view(r) == path_relative_to(file@, root@),
{
    match std::path::Path::new(file).strip_prefix(root) {
        Ok(p) => Some(p.to_string_lossy().into_owned()),
        Err(_) => None,
    }
}

/// Calls `Path::with_extension("")`: the path without its extension.
#[verifier::external_body]
pub(crate) fn without_extension(p: &str) -> (r: String)
    ensures
        r@ == path_without_extension(p@),
{
    std::path::Path::new(p).with_extension("").to_string_lossy().into_owned()
}

/// Calls `Path::iter`: the path's components, in order.
#[verifier::external_body]
pub(crate) fn components(p: &str) -> (r: Vec<String>)
    ensures
        strings_view(r@) == path_components(p@),
{
    let mut v = Vec::new();
    for c in std::path::Path::new(p).iter() {
        v.push(c.to_string_lossy().into_owned());
    }
    v
}

/// Calls `Path::parent`: the path without its last component, if any.
#[verifier::external_body]
pub(crate) fn parent(p: &str) -> (r: Option<String>)
    ensures
        opt_string_view(r) == path_parent(p@),
{
    std::path::Path::new(p).parent().map(|q| q.to_string_lossy().into_owned())
}

/// The parts joined by `sep`.
pub open spec fn join(parts: Seq<Seq<char>>, sep: Seq<char>) -> Seq<char>
    decreases parts.len(),
{
    if parts.len() == 0 {
        Seq::empty()
    } else if parts.len() == 1 {
        parts[0]
    } else {
        join(parts.drop_last(), sep) + sep + parts.last()
    }
}

/// Joins strings with a separator.
pub fn join_strings(parts: &Vec<String>, sep: &str) -> (r: String)
    ensures
        r@ == join(strings_view(parts@), sep@),
{
    let ghost pv = strings_view(parts@);
    let mut out = String::new();
    let mut i: usize = 0;
    assert(pv.subrange(0, 0) =~= Seq::<Seq<char>>::empty());
    while i < parts.len()
        invariant
            i <= parts.len(),
            pv == strings_view(parts@),
            out@ == join(pv.subrange(0, i as int), sep@),
        decreases parts.len() - i,
    {
        let ghost sub = pv.subrange(0, (i + 1) as int);
        assert(sub.drop_last() =~= pv.subrange(0, i as int));
        if i > 0 {
            out.append(sep);
        }
        out.append(parts[i].as_str());
        i = i + 1;
        assert(out@ =~= join(sub, sep@));
    }
    assert(pv.subrange(0, pv.len() as int) =~= pv);
    out
}

/// The components of `file` relative to `root`, extension removed.
pub open spec fn module_parts(root: Seq<char>, file: Seq<char>) -> Option<Seq<Seq<char>>> {
    match path_relative_to(file, root) {
        Some(rel) => Some(path_components(path_without_extension(rel))),
        None => None,
    }
}

pub(crate) fn parts_of(root: &str, file: &str) -> (r: Option<Vec<String>>)
    ensures
        match r {
            Some(v) => module_parts(root@, file@) == Some(strings_view(v@)),
            None => module_parts(root@, file@) is None,
        },
{
    match strip_root(file, root) {
        Some(rel) => {
            let stem = without_extension(rel.as_str());
            Some(components(stem.as_str()))
        },
        None => None,
    }
}

/// `parts` without a last part equal to one of `names`.
pub open spec fn drop_last_named(parts: Seq<Seq<char>>, names: Seq<Seq<char>>) -> Seq<Seq<char>> {
    if parts.len() > 0 && names.contains(parts.last()) {
        parts.drop_last()
    } else {
        parts
    }
}

pub(crate) fn pop_if_named(parts: &mut Vec<String>, names: &[&str])
    ensures
        strings_view(final(parts)@) == drop_last_named(
            strings_view(old(parts)@),
            names@.map_values(|n: &str| n@),
        ),
{
    let ghost pv = strings_view(parts@);
    let ghost nv = names@.map_values(|n: &str| n@);
    if parts.len() == 0 {
        return;
    }
    let last = parts.len() - 1;
    let mut i: usize = 0;
    while i < names.len()
        invariant
            i <= names.len(),
            parts@ == old(parts)@,
            pv == strings_view(parts@),
            nv == names@.map_values(|n: &str| n@),
            last == parts@.len() - 1,
            forall|k: int| 0 <= k < i ==> nv[k] != pv.last(),
        decreases names.len() - i,
    {
        if str_eq(parts[last].as_str(), names[i]) {
            assert(nv[i as int] == pv.last());
            parts.pop();
            assert(strings_view(parts@) =~= pv.drop_last());
            return;
        }
        i = i + 1;
    }
}

/// Rust: `a/b.rs` → `a::b`; `mod`, `lib` and `main` name their directory.
pub open spec fn spec_rust_fqn(root: Seq<char>, file: Seq<char>) -> Option<Seq<char>> {
    match module_parts(root, file) {
        Some(p) => Some(join(drop_last_named(p, seq!["mod"@, "lib"@, "main"@]), "::"@)),
        None => None,
    }
}

/// Python: `pkg/mod.py` → `pkg.mod`; `__init__` names its package.
pub open spec fn spec_python_fqn(root: Seq<char>, file: Seq<char>) -> Option<Seq<char>> {
    match module_parts(root, file) {
        Some(p) => Some(join(drop_last_named(p, seq!["__init__"@]), "."@)),
        None => None,
    }
}

/// JavaScript family: `a/b.js` → `a/b`; `index` names its directory.
pub open spec fn spec_js_fqn(root: Seq<char>, file: Seq<char>) -> Option<Seq<char>> {
    match module_parts(root, file) {
        Some(p) => Some(join(drop_last_named(p, seq!["index"@]), "/"@)),
        None => None,
    }
}

/// C++: `a/b.cpp` → `a::b`.
pub open spec fn spec_cpp_fqn(root: Seq<char>, file: Seq<char>) -> Option<Seq<char>> {
    match module_parts(root, file) {
        Some(p) => Some(join(p, "::"@)),
        None => None,
    }
}

/// The parts after the first `src`, `main`, `java` run that ends before the
/// last part; all parts if there is none.
pub open spec fn maven_tail(parts: Seq<Seq<char>>, i: int) -> Seq<Seq<char>>
    decreases parts.len() - i,
{
    if i < 0 || i + 3 >= parts.len() {
        parts
    } else if parts[i] == "src"@ && parts[i + 1] == "main"@ && parts[i + 2] == "java"@ {
        parts.subrange(i + 3, parts.len() as int)
    } else {
        maven_tail(parts, i + 1)
    }
}

/// Java and Scala: dotted path, after a Maven `src/main/java` prefix.
pub open spec fn spec_java_fqn(root: Seq<char>, file: Seq<char>) -> Option<Seq<char>> {
    match module_parts(root, file) {
        Some(p) => Some(join(maven_tail(p, 0), "."@)),
        None => None,
    }
}

/// Go: the file's directory, components joined by `/`.
pub open spec fn spec_go_fqn(root: Seq<char>, file: Seq<char>) -> Option<Seq<char>> {
    match path_relative_to(file, root) {
        Some(rel) => match path_parent(rel) {
            Some(dir) => Some(join(path_components(dir), "/"@)),
            None => None,
        },
        None => None,
    }
}

/// The module name of `file` under `root` for languages with a path rule;
/// `None` when `file` is not under `root` (or, for Go, has no parent) and
/// for C#, PHP and Lua.
pub open spec fn spec_for_file(lang: Language, root: Seq<char>, file: Seq<char>) -> Option<Seq<char>> {
    match lang {
        Language::Rust => spec_rust_fqn(root, file),
        Language::Python => spec_python_fqn(root, file),
        Language::JavaScript | Language::TypeScript | Language::Tsx => spec_js_fqn(root, file),
        Language::Go => spec_go_fqn(root, file),
        Language::Java | Language::Scala => spec_java_fqn(root, file),
        Language::Cpp => spec_cpp_fqn(root, file),
        _ => None,
    }
}

/// Dispatches a file path to its language's module-name rule.
pub fn for_file(lang: Language, root: &str, file: &str) -> (r: Option<String>)
    ensures
        opt_string_view(r) == spec_for_file(lang, root@, file@),
{
    match lang {
        Language::Rust => rust::fqn(root, file),
        Language::Python => python::fqn(root, file),
        Language::JavaScript => javascript::fqn(root, file),
        Language::TypeScript => typescript::fqn(root, file),
        Language::Tsx => tsx::fqn(root, file),
        Language::Go => go::fqn(root, file),
        Language::Java => java::fqn(root, file),
        Language::Scala => scala::fqn(root, file),
        Language::Cpp => cpp::fqn(root, file),
        _ => None,
    }
}

} // verus!
