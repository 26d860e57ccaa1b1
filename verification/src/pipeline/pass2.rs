//! Pass 2 — definitions: each structure event gets its fully-qualified
//! name (the file's module name, a separator, the symbol's name) and its
//! node identifier.
//!
//! The separator is language-family specific: `::` for Rust and C++, `.`
//! for Python, Java, C#, Scala and Lua, `/` for JavaScript, TypeScript,
//! TSX and Go, `\` for PHP.

use vstd::prelude::*;
use crate::fqn::{for_file, opt_string_view, path_relative_to, spec_for_file, strip_root};
use crate::language::{Language, spec_language_of_extension};
use crate::mcp::search::{extension_of, path_extension};
use crate::pipeline::channels::{DefinitionEvent, DefinitionEventV, NodeWriteEvent, NodeWriteEventV, StructureEvent, StructureEventV};
use crate::pipeline::pass1::{spec_node_kind_of, structure_to_node_kind};
use crate::store::{NodeRecord, NodeRecordV, node_id, spec_node_id};

verus! {

pub open spec fn spec_sep(lang: Language) -> Seq<char> {
    match lang {
        Language::Rust | Language::Cpp => "::"@,
        Language::Python | Language::Java | Language::CSharp | Language::Scala | Language::Lua => "."@,
        Language::JavaScript | Language::TypeScript | Language::Tsx | Language::Go => "/"@,
        Language::Php => "\\"@,
    }
}

/// Separator between a file's module name and a symbol name.
pub fn sep(lang: Language) -> (r: &'static str)
    ensures
        r@ == spec_sep(lang),
{
    match lang {
        Language::Rust | Language::Cpp => "::",
        Language::Python | Language::Java | Language::CSharp | Language::Scala | Language::Lua => ".",
        Language::JavaScript | Language::TypeScript | Language::Tsx | Language::Go => "/",
        Language::Php => "\\",
    }
}

/// The language of a path, by its extension.
pub open spec fn language_of_path(p: Seq<char>) -> Option<Language> {
    match path_extension(p) {
        Some(e) => spec_language_of_extension(e),
        None => None,
    }
}

/// The language of a path, by its extension.
pub fn language_of(path: &str) -> (r: Option<Language>)
    ensures
        r == language_of_path(path@),
{
    match extension_of(path) {
        Some(e) => Language::from_extension(e.as_str()),
        None => None,
    }
}

/// A path relative to `root`, or the path itself when it is not under it.
pub open spec fn rel_path(file: Seq<char>, root: Seq<char>) -> Seq<char> {
    match path_relative_to(file, root) {
        Some(r) => r,
        None => file,
    }
}

/// `file` relative to `root`, or `file` itself when not under it.
pub fn relative_path(file: &str, root: &str) -> (r: String)
    ensures
        r@ == rel_path(file@, root@),
{
    match strip_root(file, root) {
        Some(r) => r,
        None => String::from_str(file),
    }
}

/// The fully-qualified name of `name` in a file with module name `prefix`.
pub open spec fn qualified(prefix: Seq<char>, lang: Language, name: Seq<char>) -> Seq<char> {
    if prefix.len() == 0 {
        name
    } else {
        prefix + spec_sep(lang) + name
    }
}

/// The node and the definition pass 2 derives from a structure event, or
/// `None` when the file's extension names no language.
pub open spec fn spec_process_event(root: Seq<char>, ev: StructureEventV) -> Option<(NodeWriteEventV, DefinitionEventV)> {
    match language_of_path(ev.file_path) {
        None => None,
        Some(lang) => {
            let prefix = match spec_for_file(lang, root, ev.file_path) {
                Some(p) => p,
                None => Seq::empty(),
            };
            let fqn = qualified(prefix, lang, ev.name);
            let rel = rel_path(ev.file_path, root);
            let kind = spec_node_kind_of(ev.kind);
            Some(
                (
                    NodeWriteEventV {
                        id: spec_node_id(rel, fqn, kind, ev.byte_start as u32),
                        record: NodeRecordV {
                            fqn,
                            kind,
                            file: rel,
                            byte_start: ev.byte_start as u32,
                            byte_end: ev.byte_end as u32,
                        },
                    },
                    DefinitionEventV {
                        file_path: ev.file_path,
                        fqn,
                        kind: ev.kind,
                        byte_start: ev.byte_start,
                        byte_end: ev.byte_end,
                    },
                ),
            )
        },
    }
}

/// Resolves one structure event: the node record to store and the
/// definition to hand to pass 3.
pub fn process_event(root: &str, ev: &StructureEvent) -> (r: Option<(NodeWriteEvent, DefinitionEvent)>)
    ensures
        match r {
            Some((n, d)) => spec_process_event(root@, ev@) == Some((n@, d@)),
            None => spec_process_event(root@, ev@) is None,
        },
{
    let lang = match language_of(ev.file_path.as_str()) {
        Some(l) => l,
        None => {
            return None;
        },
    };
    let prefix = match for_file(lang, root, ev.file_path.as_str()) {
        Some(p) => p,
        None => String::new(),
    };
    let fqn = if prefix.as_str().unicode_len() == 0 {
        ev.name.clone()
    } else {
        let mut f = prefix;
        f.append(sep(lang));
        f.append(ev.name.as_str());
        f
    };
    let rel = relative_path(ev.file_path.as_str(), root);
    let kind = structure_to_node_kind(ev.kind);
    let id = node_id(rel.as_str(), fqn.as_str(), kind, ev.byte_start as u32);
    let node = NodeWriteEvent {
        id,
        record: NodeRecord {
            fqn: fqn.clone(),
            kind,
            file: rel,
            byte_start: ev.byte_start as u32,
            byte_end: ev.byte_end as u32,
        },
    };
    let def = DefinitionEvent {
        file_path: ev.file_path.clone(),
        fqn,
        kind: ev.kind,
        byte_start: ev.byte_start,
        byte_end: ev.byte_end,
    };
    Some((node, def))
}

} // verus!
