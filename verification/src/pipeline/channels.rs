//! The events that flow between the indexing passes and into the single
//! store writer.

use vstd::prelude::*;
use crate::language::Language;
use crate::store::{FileRecord, NodeRecord, NodeRecordV};

verus! {

/// Buffer size of the channels between passes: faster passes wait for
/// slower ones to drain.
pub const CHANNEL_BUFFER: usize = 1024;

/// One file entering pass 1.
#[derive(Debug, Clone)]
pub struct FileWork {
    pub path: String,
    pub language: Language,
}

/// Kinds of structural definitions found by pass 1.
#[derive(Debug, Clone, Copy, PartialEq, Eq, Structural)]
pub enum StructureKind {
    Module,
    Function,
    Class,
    Struct,
    Enum,
    Trait,
    Method,
}

/// Pass 1 to pass 2: one definition found in a file.
#[derive(Debug, Clone)]
pub struct StructureEvent {
    pub file_path: String,
    pub kind: StructureKind,
    pub name: String,
    pub byte_start: usize,
    pub byte_end: usize,
}

pub struct StructureEventV {
    pub file_path: Seq<char>,
    pub kind: StructureKind,
    pub name: Seq<char>,
    pub byte_start: usize,
    pub byte_end: usize,
}

impl View for StructureEvent {
    type V = StructureEventV;

    open spec fn view(&self) -> StructureEventV {
        StructureEventV {
            file_path: self.file_path@,
            kind: self.kind,
            name: self.name@,
            byte_start: self.byte_start,
            byte_end: self.byte_end,
        }
    }
}

/// Pass 2 to pass 3: a definition with its fully-qualified name.
#[derive(Debug, Clone)]
pub struct DefinitionEvent {
    pub file_path: String,
    pub fqn: String,
    pub kind: StructureKind,
    pub byte_start: usize,
    pub byte_end: usize,
}

pub struct DefinitionEventV {
    pub file_path: Seq<char>,
    pub fqn: Seq<char>,
    pub kind: StructureKind,
    pub byte_start: usize,
    pub byte_end: usize,
}

impl View for DefinitionEvent {
    type V = DefinitionEventV;

    open spec fn view(&self) -> DefinitionEventV {
        DefinitionEventV {
            file_path: self.file_path@,
            fqn: self.fqn@,
            kind: self.kind,
            byte_start: self.byte_start,
            byte_end: self.byte_end,
        }
    }
}

pub open spec fn definitions_view(v: Seq<DefinitionEvent>) -> Seq<DefinitionEventV> {
    v.map_values(|e: DefinitionEvent| e@)
}

/// Pass 3 to pass 4: a resolved call.
#[derive(Debug, Clone)]
pub struct CallEdge {
    pub caller_fqn: String,
    pub callee_fqn: String,
}

/// A route found by pass 4.
#[derive(Debug, Clone)]
pub struct RouteEdge {
    pub method: String,
    pub pattern: String,
    pub handler_fqn: String,
}

/// A file record to store under the file's relative path.
#[derive(Debug, Clone)]
pub struct FileWriteEvent {
    pub rel_path: String,
    pub record: FileRecord,
}

/// A node record to store under its id.
#[derive(Debug, Clone)]
pub struct NodeWriteEvent {
    pub id: u64,
    pub record: NodeRecord,
}

pub struct NodeWriteEventV {
    pub id: u64,
    pub record: NodeRecordV,
}

impl View for NodeWriteEvent {
    type V = NodeWriteEventV;

    open spec fn view(&self) -> NodeWriteEventV {
        NodeWriteEventV { id: self.id, record: self.record@ }
    }
}

/// An edge to store: from, to, and the edge kind's byte.
#[derive(Debug, Clone, Copy, PartialEq, Eq, Structural)]
pub struct EdgeWriteEvent {
    pub from: u64,
    pub to: u64,
    pub kind: u8,
}

/// Anything that lands in the store. The writer is the only consumer.
#[derive(Debug, Clone)]
pub enum WriteEvent {
    File(FileWriteEvent),
    Node(NodeWriteEvent),
    Edge(EdgeWriteEvent),
    /// Remove every node of this file (relative path) before it is
    /// indexed again, or because it is gone.
    DeleteNodesForFile(String),
    Structure(StructureEvent),
    Definition(DefinitionEvent),
    Call(CallEdge),
    Route(RouteEdge),
}

} // verus!
