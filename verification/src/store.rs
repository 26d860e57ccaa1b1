//! The graph store's record model: node and edge kinds, on-disk records,
//! writer statistics, and the deterministic node identifier.

use vstd::prelude::*;
use vstd::string::StringSliceAdditionalSpecFns;
use vstd::utf8::encode_utf8;
use crate::pipeline::channels::WriteEvent;

verus! {

/// Kinds of graph nodes. The byte of each kind (see `NodeKind::to_byte`) is
/// what the store and the node identifier record.
#[derive(Debug, Clone, Copy, PartialEq, Eq, Hash, Structural)]
pub enum NodeKind {
    File,
    Module,
    Function,
    Class,
    Struct,
    Enum,
    Trait,
    Method,
    Route,
}

/// Kinds of graph edges, stored as the third component of an edge key.
#[derive(Debug, Clone, Copy, PartialEq, Eq, Hash, Structural)]
pub enum EdgeKind {
    Calls,
    Routes,
    Scip,
}

impl NodeKind {
    pub open spec fn spec_byte(self) -> u8 {
        match self {
            NodeKind::File => 0,
            NodeKind::Module => 1,
            NodeKind::Function => 2,
            NodeKind::Class => 3,
            NodeKind::Struct => 4,
            NodeKind::Enum => 5,
            NodeKind::Trait => 6,
            NodeKind::Method => 7,
            NodeKind::Route => 8,
        }
    }

    /// The stored byte of this kind.
    pub fn to_byte(self) -> (b: u8)
        ensures
            b == self.spec_byte(),
    {
        match self {
            NodeKind::File => 0,
            NodeKind::Module => 1,
            NodeKind::Function => 2,
            NodeKind::Class => 3,
            NodeKind::Struct => 4,
            NodeKind::Enum => 5,
            NodeKind::Trait => 6,
            NodeKind::Method => 7,
            NodeKind::Route => 8,
        }
    }

    /// The kind a stored byte stands for; `None` for bytes no kind uses.
    pub fn from_byte(b: u8) -> (r: Option<NodeKind>)
        ensures
            r == spec_node_kind_of_byte(b),
    {
        match b {
            0 => Some(NodeKind::File),
            1 => Some(NodeKind::Module),
            2 => Some(NodeKind::Function),
            3 => Some(NodeKind::Class),
            4 => Some(NodeKind::Struct),
            5 => Some(NodeKind::Enum),
            6 => Some(NodeKind::Trait),
            7 => Some(NodeKind::Method),
            8 => Some(NodeKind::Route),
            _ => None,
        }
    }
}

pub open spec fn spec_node_kind_of_byte(b: u8) -> Option<NodeKind> {
    if b == 0 {
        Some(NodeKind::File)
    } else if b == 1 {
        Some(NodeKind::Module)
    } else if b == 2 {
        Some(NodeKind::Function)
    } else if b == 3 {
        Some(NodeKind::Class)
    } else if b == 4 {
        Some(NodeKind::Struct)
    } else if b == 5 {
        Some(NodeKind::Enum)
    } else if b == 6 {
        Some(NodeKind::Trait)
    } else if b == 7 {
        Some(NodeKind::Method)
    } else if b == 8 {
        Some(NodeKind::Route)
    } else {
        None
    }
}

/// Reading back the byte of a kind gives that kind again, and no two kinds
/// share a byte.
pub proof fn node_kind_byte_roundtrip(k: NodeKind, j: NodeKind)
    ensures
        spec_node_kind_of_byte(k.spec_byte()) == Some(k),
        k.spec_byte() == j.spec_byte() ==> k == j,
{
}

impl EdgeKind {
    pub open spec fn spec_byte(self) -> u8 {
        match self {
            EdgeKind::Calls => 0,
            EdgeKind::Routes => 1,
            EdgeKind::Scip => 2,
        }
    }

    /// The stored byte of this edge kind.
    pub fn to_byte(self) -> (b: u8)
        ensures
            b == self.spec_byte(),
    {
        match self {
            EdgeKind::Calls => 0,
            EdgeKind::Routes => 1,
            EdgeKind::Scip => 2,
        }
    }
}

/// Per-file record: content hash, modification time and language name.
#[derive(Debug, Clone)]
pub struct FileRecord {
    pub blake3: [u8; 32],
    pub mtime_ns: u64,
    pub lang: String,
}

/// Per-node record.
#[derive(Debug, Clone)]
pub struct NodeRecord {
    pub fqn: String,
    pub kind: NodeKind,
    pub file: String,
    pub byte_start: u32,
    pub byte_end: u32,
}

pub struct NodeRecordV {
    pub fqn: Seq<char>,
    pub kind: NodeKind,
    pub file: Seq<char>,
    pub byte_start: u32,
    pub byte_end: u32,
}

impl View for NodeRecord {
    type V = NodeRecordV;

    open spec fn view(&self) -> NodeRecordV {
        NodeRecordV { fqn: self.fqn@, kind: self.kind, file: self.file@, byte_start: self.byte_start, byte_end: self.byte_end }
    }
}

/// Counters kept by the single writer.
#[derive(Debug, Default)]
pub struct WriterStats {
    pub transactions: u64,
    pub files_written: u64,
    pub nodes_written: u64,
    pub edges_written: u64,
}

/// Events per writer transaction.
pub const BATCH_SIZE: usize = 256;

/// Longest time a batch waits before it is written, in milliseconds.
pub const BATCH_DEADLINE_MS: u64 = 50;

/// A batch is written once it holds `BATCH_SIZE` events or has waited
/// `BATCH_DEADLINE_MS`, whichever comes first.
pub fn batch_ready(pending: usize, waited_ms: u64) -> (b: bool)
    ensures
        b == (pending >= BATCH_SIZE || waited_ms >= BATCH_DEADLINE_MS),
{
    pending >= BATCH_SIZE || waited_ms >= BATCH_DEADLINE_MS
}

impl WriterStats {
    /// Counts one event whose insert succeeded: file records, node records
    /// and edges each have their counter; other events are not stored.
    pub fn record_insert(&mut self, ev: &WriteEvent)
        requires
            old(self).files_written < u64::MAX,
            old(self).nodes_written < u64::MAX,
            old(self).edges_written < u64::MAX,
        ensures
            final(self).transactions == old(self).transactions,
            final(self).files_written == old(self).files_written + if ev is File { 1int } else { 0int },
            final(self).nodes_written == old(self).nodes_written + if ev is Node { 1int } else { 0int },
            final(self).edges_written == old(self).edges_written + if ev is Edge { 1int } else { 0int },
    {
        match ev {
            WriteEvent::File(_) => {
                self.files_written = self.files_written + 1;
            },
            WriteEvent::Node(_) => {
                self.nodes_written = self.nodes_written + 1;
            },
            WriteEvent::Edge(_) => {
                self.edges_written = self.edges_written + 1;
            },
            _ => {},
        }
    }

    /// Counts one committed transaction.
    pub fn record_commit(&mut self)
        requires
            old(self).transactions < u64::MAX,
        ensures
            final(self).transactions == old(self).transactions + 1,
            final(self).files_written == old(self).files_written,
            final(self).nodes_written == old(self).nodes_written,
            final(self).edges_written == old(self).edges_written,
    {
        self.transactions = self.transactions + 1;
    }
}

/// The BLAKE3 digest of `data`.
pub uninterp spec fn blake3_digest(data: Seq<u8>) -> Seq<u8>;

/// Calls `blake3::hash`: the result is the 32-byte BLAKE3 digest of `data`,
/// a function of `data` alone.
#[verifier::external_body]
pub(crate) fn blake3_hash(data: &[u8]) -> (r: [u8; 32])
    ensures
        r@ == blake3_digest(data@),
{
    *blake3::hash(data).as_bytes()
}

/// Little-endian bytes of a `u32`.
pub open spec fn le_bytes_u32(x: u32) -> Seq<u8> {
    seq![
        (x % 256) as u8,
        ((x / 256) % 256) as u8,
        ((x / 65536) % 256) as u8,
        ((x / 16777216) % 256) as u8,
    ]
}

/// The `u64` whose little-endian bytes are the first eight of `d`.
pub open spec fn le_u64_prefix(d: Seq<u8>) -> int {
    d[0] + d[1] * 0x100 + d[2] * 0x10000 + d[3] * 0x1000000 + d[4] * 0x100000000 + d[5]
        * 0x10000000000 + d[6] * 0x1000000000000 + d[7] * 0x100000000000000
}

/// What the node identifier hashes: file, NUL, FQN, NUL, kind byte, and the
/// start offset in little-endian order.
pub open spec fn node_id_preimage(file: Seq<char>, fqn: Seq<char>, kind: NodeKind, byte_start: u32) -> Seq<u8> {
    encode_utf8(file) + seq![0u8] + encode_utf8(fqn) + seq![0u8] + seq![kind.spec_byte()]
        + le_bytes_u32(byte_start)
}

/// The identifier `node_id` gives a node.
pub open spec fn spec_node_id(file: Seq<char>, fqn: Seq<char>, kind: NodeKind, byte_start: u32) -> u64 {
    le_u64_prefix(blake3_digest(node_id_preimage(file, fqn, kind, byte_start))) as u64
}

fn push_bytes(buf: &mut Vec<u8>, b: &[u8])
    ensures
        final(buf)@ == old(buf)@ + b@,
{
    let mut i: usize = 0;
    while i < b.len()
        invariant
            i <= b.len(),
            buf@ == old(buf)@ + b@.subrange(0, i as int),
        decreases b.len() - i,
    {
        buf.push(b[i]);
        i = i + 1;
        assert(b@.subrange(0, i as int) =~= b@.subrange(0, (i - 1) as int).push(b@[i - 1]));
    }
    assert(b@.subrange(0, b@.len() as int) =~= b@);
}

/// Deterministic node identifier: the first eight bytes, read little-endian,
/// of the BLAKE3 digest of `node_id_preimage`. Stable across runs for the
/// same content.
pub fn node_id(file: &str, fqn: &str, kind: NodeKind, byte_start: u32) -> (r: u64)
    ensures
        r == le_u64_prefix(blake3_digest(node_id_preimage(file@, fqn@, kind, byte_start))),
        r == spec_node_id(file@, fqn@, kind, byte_start),
{
    let mut buf: Vec<u8> = Vec::new();
    push_bytes(&mut buf, file.as_bytes());
    buf.push(0u8);
    push_bytes(&mut buf, fqn.as_bytes());
    buf.push(0u8);
    buf.push(kind.to_byte());
    buf.push((byte_start % 256) as u8);
    buf.push(((byte_start / 256) % 256) as u8);
    buf.push(((byte_start / 65536) % 256) as u8);
    buf.push(((byte_start / 16777216) % 256) as u8);
    assert(buf@ =~= node_id_preimage(file@, fqn@, kind, byte_start));
    let d = blake3_hash(buf.as_slice());
    let r: u64 = d[0] as u64 + d[1] as u64 * 0x100 + d[2] as u64 * 0x10000 + d[3] as u64 * 0x1000000
        + d[4] as u64 * 0x100000000 + d[5] as u64 * 0x10000000000 + d[6] as u64 * 0x1000000000000
        + d[7] as u64 * 0x100000000000000;
    r
}

} // verus!
