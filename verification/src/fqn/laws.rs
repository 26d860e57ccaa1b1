//! Laws of module naming: what each language's rule makes of a file's path
//! components (relative to the root, extension removed).

use vstd::prelude::*;
use crate::fqn::{
    join, module_parts, path_components, path_parent, path_relative_to, spec_cpp_fqn, spec_for_file, spec_go_fqn,
    spec_java_fqn, spec_js_fqn, spec_python_fqn, spec_rust_fqn,
};
use crate::language::Language;

verus! {

/// Rust: the components joined by `::`, except that a last component `mod`,
/// `lib` or `main` names its directory and is left out; `None` for a file
/// outside the root. So `app/lib.rs` and `app/main.rs` are both `app`.
pub proof fn rust_module_names(root: Seq<char>, file: Seq<char>)
    ensures
        module_parts(root, file) is None ==> spec_rust_fqn(root, file) is None,
        module_parts(root, file) matches Some(p) ==> spec_rust_fqn(root, file) == Some(
            if p.len() > 0 && (p.last() == "mod"@ || p.last() == "lib"@ || p.last() == "main"@) {
                join(p.drop_last(), "::"@)
            } else {
                join(p, "::"@)
            },
        ),
{
    if let Some(p) = module_parts(root, file) {
        let names = seq!["mod"@, "lib"@, "main"@];
        if p.len() > 0 {
            assert(names.contains(p.last()) == (p.last() == "mod"@ || p.last() == "lib"@ || p.last() == "main"@)) by {
                if names.contains(p.last()) {
                    let k = choose|k: int| 0 <= k < names.len() && names[k] == p.last();
                }
                if p.last() == "mod"@ { assert(names[0] == p.last()); }
                if p.last() == "lib"@ { assert(names[1] == p.last()); }
                if p.last() == "main"@ { assert(names[2] == p.last()); }
            }
        }
    }
}

/// Python: the components joined by `.`, except that a last component
/// `__init__` names its package and is left out.
pub proof fn python_module_names(root: Seq<char>, file: Seq<char>)
    ensures
        module_parts(root, file) is None ==> spec_python_fqn(root, file) is None,
        module_parts(root, file) matches Some(p) ==> spec_python_fqn(root, file) == Some(
            if p.len() > 0 && p.last() == "__init__"@ {
                join(p.drop_last(), "."@)
            } else {
                join(p, "."@)
            },
        ),
{
    if let Some(p) = module_parts(root, file) {
        let names = seq!["__init__"@];
        if p.len() > 0 {
            assert(names.contains(p.last()) == (p.last() == "__init__"@)) by {
                if p.last() == "__init__"@ { assert(names[0] == p.last()); }
            }
        }
    }
}

/// JavaScript, TypeScript and TSX: the components joined by `/`, except
/// that a last component `index` names its directory and is left out.
pub proof fn js_module_names(root: Seq<char>, file: Seq<char>)
    ensures
        module_parts(root, file) is None ==> spec_js_fqn(root, file) is None,
        module_parts(root, file) matches Some(p) ==> spec_js_fqn(root, file) == Some(
            if p.len() > 0 && p.last() == "index"@ {
                join(p.drop_last(), "/"@)
            } else {
                join(p, "/"@)
            },
        ),
{
    if let Some(p) = module_parts(root, file) {
        let names = seq!["index"@];
        if p.len() > 0 {
            assert(names.contains(p.last()) == (p.last() == "index"@)) by {
                if p.last() == "index"@ { assert(names[0] == p.last()); }
            }
        }
    }
}

/// C++: every component, joined by `::`.
pub proof fn cpp_module_names(root: Seq<char>, file: Seq<char>)
    ensures
        module_parts(root, file) is None ==> spec_cpp_fqn(root, file) is None,
        module_parts(root, file) matches Some(p) ==> spec_cpp_fqn(root, file) == Some(join(p, "::"@)),
{
}

/// Java and Scala: the components joined by `.`; a path that starts with
/// `src/main/java` (with something after it) drops that prefix, and a path
/// with no `src/main/java` run before its last component keeps everything.
pub proof fn java_module_names(root: Seq<char>, file: Seq<char>)
    ensures
        module_parts(root, file) is None ==> spec_java_fqn(root, file) is None,
        module_parts(root, file) matches Some(p) ==> {
            &&& (p.len() > 3 && p[0] == "src"@ && p[1] == "main"@ && p[2] == "java"@) ==> spec_java_fqn(root, file)
                == Some(join(p.subrange(3, p.len() as int), "."@))
            &&& (forall|i: int|
                0 <= i && i + 3 < p.len() ==> !(#[trigger] p[i] == "src"@ && p[i + 1] == "main"@ && p[i + 2] == "java"@))
                ==> spec_java_fqn(root, file) == Some(join(p, "."@))
        },
{
    if let Some(p) = module_parts(root, file) {
        if forall|i: int|
            0 <= i && i + 3 < p.len() ==> !(#[trigger] p[i] == "src"@ && p[i + 1] == "main"@ && p[i + 2] == "java"@) {
            maven_tail_without_run(p, 0);
        }
    }
}

proof fn maven_tail_without_run(p: Seq<Seq<char>>, i: int)
    requires
        0 <= i,
        forall|j: int| 0 <= j && j + 3 < p.len() ==> !(#[trigger] p[j] == "src"@ && p[j + 1] == "main"@ && p[j + 2] == "java"@),
    ensures
        crate::fqn::maven_tail(p, i) == p,
    decreases p.len() - i,
{
    if i + 3 < p.len() {
        assert(!(p[i] == "src"@ && p[i + 1] == "main"@ && p[i + 2] == "java"@));
        maven_tail_without_run(p, i + 1);
    }
}

/// Go: the components of the file's directory, joined by `/`.
pub proof fn go_module_names(root: Seq<char>, file: Seq<char>)
    ensures
        path_relative_to(file, root) matches Some(rel) ==> spec_go_fqn(root, file) == match path_parent(rel) {
            Some(dir) => Some(join(path_components(dir), "/"@)),
            None => None,
        },
        path_relative_to(file, root) is None ==> spec_go_fqn(root, file) is None,
{
}

/// Each language is named by its own rule: Rust by the Rust rule, Python by
/// the Python rule, JavaScript, TypeScript and TSX by the JavaScript rule,
/// Java and Scala by the Java rule, Go and C++ by theirs; C#, PHP and Lua
/// have no rule.
pub proof fn each_language_uses_its_rule(root: Seq<char>, file: Seq<char>)
    ensures
        spec_for_file(Language::Rust, root, file) == spec_rust_fqn(root, file),
        spec_for_file(Language::Python, root, file) == spec_python_fqn(root, file),
        spec_for_file(Language::JavaScript, root, file) == spec_js_fqn(root, file),
        spec_for_file(Language::TypeScript, root, file) == spec_js_fqn(root, file),
        spec_for_file(Language::Tsx, root, file) == spec_js_fqn(root, file),
        spec_for_file(Language::Go, root, file) == spec_go_fqn(root, file),
        spec_for_file(Language::Java, root, file) == spec_java_fqn(root, file),
        spec_for_file(Language::Scala, root, file) == spec_java_fqn(root, file),
        spec_for_file(Language::Cpp, root, file) == spec_cpp_fqn(root, file),
        spec_for_file(Language::CSharp, root, file) is None,
        spec_for_file(Language::Php, root, file) is None,
        spec_for_file(Language::Lua, root, file) is None,
{
}

} // verus!
