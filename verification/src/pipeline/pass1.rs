//! Pass 1 — structure: the file record and file node of each indexed
//! file, and the structure events read off the definitions query's matches.
//!
//! A match carries a `*.def` capture giving the kind and byte range of a
//! definition, and a `*.name` capture giving its name; `*.table` captures
//! are name prefixes and are passed over.

use vstd::prelude::*;
use crate::pipeline::channels::{FileWriteEvent, NodeWriteEvent, StructureEvent, StructureEventV, StructureKind};
use crate::store::{FileRecord, NodeKind, NodeRecord, blake3_digest, blake3_hash, node_id, spec_node_id};
use crate::language::{Language, spec_language_name};
use crate::text::{has_suffix, str_ends_with, str_eq};

verus! {

/// The structure kind a `*.def` capture name stands for.
pub open spec fn spec_capture_kind(name: Seq<char>) -> Option<StructureKind> {
    if name == "function.def"@ || name == "arrow.def"@ {
        Some(StructureKind::Function)
    } else if name == "class.def"@ || name == "interface.def"@ || name == "object.def"@ {
        Some(StructureKind::Class)
    } else if name == "struct.def"@ {
        Some(StructureKind::Struct)
    } else if name == "enum.def"@ {
        Some(StructureKind::Enum)
    } else if name == "trait.def"@ {
        Some(StructureKind::Trait)
    } else if name == "method.def"@ || name == "ctor.def"@ {
        Some(StructureKind::Method)
    } else if name == "mod.def"@ || name == "ns.def"@ {
        Some(StructureKind::Module)
    } else if name == "impl.def"@ {
        Some(StructureKind::Struct)
    } else if name == "decorated.def"@ {
        Some(StructureKind::Function)
    } else if name == "type.def"@ || name == "signature.def"@ || name == "local.def"@ {
        Some(StructureKind::Function)
    } else {
        None
    }
}

/// Maps a capture name to a structure kind; `None` for name captures and
/// unknown kinds. Impl blocks count as structs.
pub fn capture_to_kind(name: &str) -> (r: Option<StructureKind>)
    ensures
        r == spec_capture_kind(name@),
{
    if str_eq(name, "function.def") || str_eq(name, "arrow.def") {
        Some(StructureKind::Function)
    } else if str_eq(name, "class.def") || str_eq(name, "interface.def") || str_eq(name, "object.def") {
        Some(StructureKind::Class)
    } else if str_eq(name, "struct.def") {
        Some(StructureKind::Struct)
    } else if str_eq(name, "enum.def") {
        Some(StructureKind::Enum)
    } else if str_eq(name, "trait.def") {
        Some(StructureKind::Trait)
    } else if str_eq(name, "method.def") || str_eq(name, "ctor.def") {
        Some(StructureKind::Method)
    } else if str_eq(name, "mod.def") || str_eq(name, "ns.def") {
        Some(StructureKind::Module)
    } else if str_eq(name, "impl.def") {
        Some(StructureKind::Struct)
    } else if str_eq(name, "decorated.def") {
        Some(StructureKind::Function)
    } else if str_eq(name, "type.def") || str_eq(name, "signature.def") || str_eq(name, "local.def") {
        Some(StructureKind::Function)
    } else {
        None
    }
}

pub open spec fn spec_node_kind_of(k: StructureKind) -> NodeKind {
    match k {
        StructureKind::Module => NodeKind::Module,
        StructureKind::Function => NodeKind::Function,
        StructureKind::Class => NodeKind::Class,
        StructureKind::Struct => NodeKind::Struct,
        StructureKind::Enum => NodeKind::Enum,
        StructureKind::Trait => NodeKind::Trait,
        StructureKind::Method => NodeKind::Method,
    }
}

/// The node kind a structure kind is stored as.
pub fn structure_to_node_kind(k: StructureKind) -> (r: NodeKind)
    ensures
        r == spec_node_kind_of(k),
{
    match k {
        StructureKind::Module => NodeKind::Module,
        StructureKind::Function => NodeKind::Function,
        StructureKind::Class => NodeKind::Class,
        StructureKind::Struct => NodeKind::Struct,
        StructureKind::Enum => NodeKind::Enum,
        StructureKind::Trait => NodeKind::Trait,
        StructureKind::Method => NodeKind::Method,
    }
}

/// The events recorded for a file before its definitions: its file record
/// (content hash, modification time, language) and its `File` node, whose
/// FQN is the relative path and whose range is the whole file (the length
/// cut to 32 bits).
pub fn file_events(rel_path: &str, bytes: &[u8], mtime_ns: u64, lang: Language) -> (r: (FileWriteEvent, NodeWriteEvent))
    ensures
        r.0.rel_path@ == rel_path@,
        r.0.record.blake3@ == blake3_digest(bytes@),
        r.0.record.mtime_ns == mtime_ns,
        r.0.record.lang@ == spec_language_name(lang),
        r.1.id == spec_node_id(rel_path@, rel_path@, NodeKind::File, 0),
        r.1.record.fqn@ == rel_path@,
        r.1.record.kind == NodeKind::File,
        r.1.record.file@ == rel_path@,
        r.1.record.byte_start == 0,
        r.1.record.byte_end == bytes@.len() as u32,
{
    let file = FileWriteEvent {
        rel_path: String::from_str(rel_path),
        record: FileRecord { blake3: blake3_hash(bytes), mtime_ns, lang: String::from_str(lang.as_str()) },
    };
    let id = node_id(rel_path, rel_path, NodeKind::File, 0);
    let node = NodeWriteEvent {
        id,
        record: NodeRecord {
            fqn: String::from_str(rel_path),
            kind: NodeKind::File,
            file: String::from_str(rel_path),
            byte_start: 0,
            byte_end: bytes.len() as u32,
        },
    };
    (file, node)
}

/// One capture of a query match: its name, byte range, and its text when
/// the captured bytes are valid UTF-8.
pub struct DefCapture {
    pub name: String,
    pub start_byte: usize,
    pub end_byte: usize,
    pub text: Option<String>,
}

pub struct DefCaptureV {
    pub name: Seq<char>,
    pub start_byte: usize,
    pub end_byte: usize,
    pub text: Option<Seq<char>>,
}

impl View for DefCapture {
    type V = DefCaptureV;

    open spec fn view(&self) -> DefCaptureV {
        DefCaptureV {
            name: self.name@,
            start_byte: self.start_byte,
            end_byte: self.end_byte,
            text: match self.text {
                Some(t) => Some(t@),
                None => None,
            },
        }
    }
}

pub open spec fn captures_view(m: Seq<DefCapture>) -> Seq<DefCaptureV> {
    m.map_values(|c: DefCapture| c@)
}

/// What a match has read so far: the last recognised definition (kind,
/// start, end) and the first name.
pub open spec fn read_match(caps: Seq<DefCaptureV>) -> (Option<(StructureKind, usize, usize)>, Option<Seq<char>>)
    decreases caps.len(),
{
    if caps.len() == 0 {
        (None, None)
    } else {
        let (def, name) = read_match(caps.drop_last());
        let c = caps.last();
        if has_suffix(c.name, ".def"@) {
            match spec_capture_kind(c.name) {
                Some(k) => (Some((k, c.start_byte, c.end_byte)), name),
                None => (def, name),
            }
        } else if has_suffix(c.name, ".name"@) && name is None {
            (def, c.text)
        } else {
            (def, name)
        }
    }
}

/// The structure events of a file's matches: one per match with both a
/// definition and a name.
pub open spec fn match_events(path: Seq<char>, ms: Seq<Seq<DefCaptureV>>) -> Seq<StructureEventV>
    decreases ms.len(),
{
    if ms.len() == 0 {
        Seq::empty()
    } else {
        let prev = match_events(path, ms.drop_last());
        match read_match(ms.last()) {
            (Some((k, s, e)), Some(n)) => prev.push(
                StructureEventV { file_path: path, kind: k, name: n, byte_start: s, byte_end: e },
            ),
            _ => prev,
        }
    }
}

pub open spec fn matches_view(ms: Seq<Vec<DefCapture>>) -> Seq<Seq<DefCaptureV>> {
    ms.map_values(|m: Vec<DefCapture>| captures_view(m@))
}

fn opt_text(t: &Option<String>) -> (r: Option<String>)
    ensures
        match r {
            Some(x) => t matches Some(y) && x@ == y@,
            None => t is None,
        },
{
    match t {
        Some(x) => Some(x.clone()),
        None => None,
    }
}

/// The structure events of the definitions query's matches on `path`.
pub fn structure_events(path: &str, matches: &Vec<Vec<DefCapture>>) -> (r: Vec<StructureEvent>)
    ensures
        r@.map_values(|e: StructureEvent| e@) == match_events(path@, matches_view(matches@)),
{
    let ghost mv = matches_view(matches@);
    let mut out: Vec<StructureEvent> = Vec::new();
    let mut i: usize = 0;
    assert(mv.subrange(0, 0) =~= Seq::<Seq<DefCaptureV>>::empty());
    while i < matches.len()
        invariant
            i <= matches@.len(),
            mv == matches_view(matches@),
            out@.map_values(|e: StructureEvent| e@) == match_events(path@, mv.subrange(0, i as int)),
        decreases matches.len() - i,
    {
        let caps = &matches[i];
        let ghost cv = captures_view(caps@);
        assert(mv[i as int] == cv);
        let mut def: Option<(StructureKind, usize, usize)> = None;
        let mut name: Option<String> = None;
        let mut j: usize = 0;
        assert(cv.subrange(0, 0) =~= Seq::<DefCaptureV>::empty());
        while j < caps.len()
            invariant
                j <= caps@.len(),
                cv == captures_view(caps@),
                ({
                    let (d, n) = read_match(cv.subrange(0, j as int));
                    &&& d == def
                    &&& n == match name {
                        Some(x) => Some(x@),
                        None => None,
                    }
                }),
            decreases caps.len() - j,
        {
            let ghost pre = cv.subrange(0, (j + 1) as int);
            assert(pre.drop_last() =~= cv.subrange(0, j as int));
            let c = &caps[j];
            assert(pre.last() == c@);
            if str_ends_with(c.name.as_str(), ".def") {
                match capture_to_kind(c.name.as_str()) {
                    Some(k) => {
                        def = Some((k, c.start_byte, c.end_byte));
                    },
                    None => {},
                }
            } else if str_ends_with(c.name.as_str(), ".name") && name.is_none() {
                name = opt_text(&c.text);
            }
            j = j + 1;
        }
        assert(cv.subrange(0, cv.len() as int) =~= cv);
        let ghost pre = mv.subrange(0, (i + 1) as int);
        assert(pre.drop_last() =~= mv.subrange(0, i as int));
        match (def, name) {
            (Some((k, s, e)), Some(n)) => {
                let ev = StructureEvent { file_path: String::from_str(path), kind: k, name: n, byte_start: s, byte_end: e };
                let ghost before = out@.map_values(|e: StructureEvent| e@);
                out.push(ev);
                assert(out@.map_values(|e: StructureEvent| e@) =~= before.push(ev@));
            },
            _ => {},
        }
        i = i + 1;
    }
    assert(mv.subrange(0, mv.len() as int) =~= mv);
    out
}

} // verus!
