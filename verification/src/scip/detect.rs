//! The SCIP indexers Grafy knows, one row per (language, binary), and the
//! detected set built from what a PATH lookup found for each row.

use vstd::prelude::*;
use crate::bench::scip_refs::first_index;
use crate::language::Language;
use crate::text::{chars_of, chars_slice, string_from_chars, trim, trim_chars};

verus! {

/// One row of the indexer table: language, tool name, binary, the
/// arguments that make it print its version, and how to install it.
pub struct Probe {
    pub language: Language,
    pub name: String,
    pub binary: String,
    pub version_args: Vec<String>,
    pub install_hint: String,
}

pub struct ProbeV {
    pub language: Language,
    pub name: Seq<char>,
    pub binary: Seq<char>,
    pub version_args: Seq<Seq<char>>,
    pub install_hint: Seq<char>,
}

impl View for Probe {
    type V = ProbeV;

    open spec fn view(&self) -> ProbeV {
        ProbeV {
            language: self.language,
            name: self.name@,
            binary: self.binary@,
            version_args: self.version_args@.map_values(|a: String| a@),
            install_hint: self.install_hint@,
        }
    }
}

pub open spec fn probe_row(language: Language, name: Seq<char>, arg: Seq<char>, hint: Seq<char>) -> ProbeV {
    ProbeV { language, name, binary: name, version_args: seq![arg], install_hint: hint }
}

/// The indexer table. A tool serving several languages has one row per
/// language; `scip-java` has no version flag, so its help is asked for.
pub open spec fn probe_table() -> Seq<ProbeV> {
    seq![
        probe_row(Language::Python, "scip-python"@, "--version"@, "npm install -g @sourcegraph/scip-python"@),
        probe_row(Language::TypeScript, "scip-typescript"@, "--version"@, "npm install -g @sourcegraph/scip-typescript"@),
        probe_row(Language::JavaScript, "scip-typescript"@, "--version"@, "npm install -g @sourcegraph/scip-typescript"@),
        probe_row(Language::Tsx, "scip-typescript"@, "--version"@, "npm install -g @sourcegraph/scip-typescript"@),
        probe_row(Language::Go, "scip-go"@, "--version"@, "go install github.com/sourcegraph/scip-go/cmd/scip-go@latest"@),
        probe_row(Language::Java, "scip-java"@, "--help"@, "cs install scip-java   # or: brew install scip-java"@),
        probe_row(Language::Cpp, "scip-clang"@, "--version"@, "see https://github.com/sourcegraph/scip-clang/releases"@),
        probe_row(Language::Rust, "rust-analyzer"@, "--version"@, "rustup component add rust-analyzer"@),
    ]
}

fn row(language: Language, name: &str, arg: &str, hint: &str) -> (p: Probe)
    ensures
        p@ == probe_row(language, name@, arg@, hint@),
{
    let mut args: Vec<String> = Vec::new();
    args.push(String::from_str(arg));
    let p = Probe {
        language,
        name: String::from_str(name),
        binary: String::from_str(name),
        version_args: args,
        install_hint: String::from_str(hint),
    };
    assert(p@.version_args =~= seq![arg@]);
    p
}

/// The indexer table, in probing order.
pub fn probes() -> (r: Vec<Probe>)
    ensures
        r@.map_values(|p: Probe| p@) == probe_table(),
{
    let mut r: Vec<Probe> = Vec::new();
    r.push(row(Language::Python, "scip-python", "--version", "npm install -g @sourcegraph/scip-python"));
    r.push(row(Language::TypeScript, "scip-typescript", "--version", "npm install -g @sourcegraph/scip-typescript"));
    r.push(row(Language::JavaScript, "scip-typescript", "--version", "npm install -g @sourcegraph/scip-typescript"));
    r.push(row(Language::Tsx, "scip-typescript", "--version", "npm install -g @sourcegraph/scip-typescript"));
    r.push(row(Language::Go, "scip-go", "--version", "go install github.com/sourcegraph/scip-go/cmd/scip-go@latest"));
    r.push(row(Language::Java, "scip-java", "--help", "cs install scip-java   # or: brew install scip-java"));
    r.push(row(Language::Cpp, "scip-clang", "--version", "see https://github.com/sourcegraph/scip-clang/releases"));
    r.push(row(Language::Rust, "rust-analyzer", "--version", "rustup component add rust-analyzer"));
    assert(r@.map_values(|p: Probe| p@) =~= probe_table());
    r
}

/// The first line of `s` (up to the first newline), trimmed.
pub open spec fn first_line_trimmed(s: Seq<char>) -> Seq<char> {
    trim(s.subrange(0, first_index(s, '\n', 0)))
}

/// The version a tool reported: the trimmed first line of its output, or
/// `None` when that is empty.
pub open spec fn spec_version_line(out: Seq<char>) -> Option<Seq<char>> {
    if first_line_trimmed(out).len() == 0 {
        None
    } else {
        Some(first_line_trimmed(out))
    }
}

/// The first line of `s`, trimmed.
pub fn first_line(s: &str) -> (r: String)
    ensures
        r@ == first_line_trimmed(s@),
{
    let cs = chars_of(s);
    let mut j: usize = 0;
    while j < cs.len() && cs[j] != '\n'
        invariant
            j <= cs@.len(),
            first_index(cs@, '\n', 0) == first_index(cs@, '\n', j as int),
        decreases cs.len() - j,
    {
        j = j + 1;
    }
    let line = chars_slice(&cs, 0, j);
    let t = trim_chars(&line);
    string_from_chars(t.as_slice())
}

/// The version line of a tool's standard output.
pub fn version_line(out: &str) -> (r: Option<String>)
    ensures
        match r {
            Some(v) => spec_version_line(out@) == Some(v@),
            None => spec_version_line(out@) is None,
        },
{
    let l = first_line(out);
    if l.as_str().unicode_len() == 0 {
        None
    } else {
        Some(l)
    }
}

/// A detected indexer: the binary was found on PATH and answered its
/// version probe.
#[derive(Debug, Clone)]
pub struct IndexerInfo {
    /// Language this indexer covers.
    pub language: Language,
    /// Path of the binary as found on PATH.
    pub binary: String,
    /// Version as reported by the tool.
    pub version: String,
    /// Tool name (`scip-python`, `rust-analyzer`, ...).
    pub name: String,
    /// Command that installs the tool.
    pub install_hint: String,
}

pub struct IndexerInfoV {
    pub language: Language,
    pub binary: Seq<char>,
    pub version: Seq<char>,
    pub name: Seq<char>,
    pub install_hint: Seq<char>,
}

impl View for IndexerInfo {
    type V = IndexerInfoV;

    open spec fn view(&self) -> IndexerInfoV {
        IndexerInfoV {
            language: self.language,
            binary: self.binary@,
            version: self.version@,
            name: self.name@,
            install_hint: self.install_hint@,
        }
    }
}

/// Longest a version probe may take, in milliseconds; a slower tool is
/// taken as not present.
pub const PROBE_TIMEOUT_MS: u64 = 2000;

/// What a PATH lookup found for one table row: the binary's path, the
/// standard output of its version command when that command ran, and how
/// long the command took, in milliseconds.
pub struct ProbeLookup {
    pub binary: Option<String>,
    pub version_output: Option<String>,
    pub elapsed_ms: u64,
}

/// The version a lookup's tool answered with: the trimmed first line of
/// its output, when the command ran within the time budget and that line
/// is not empty.
pub open spec fn answered_version(out: Option<Seq<char>>, elapsed_ms: u64) -> Option<Seq<char>> {
    match out {
        Some(o) => if elapsed_ms <= PROBE_TIMEOUT_MS {
            spec_version_line(o)
        } else {
            None
        },
        None => None,
    }
}

/// The indexers of the table whose binary was found and answered its
/// version probe in time, in table order.
pub open spec fn detected(table: Seq<ProbeV>, found: Seq<(Option<Seq<char>>, Option<Seq<char>>, u64)>) -> Seq<IndexerInfoV>
    decreases table.len(),
{
    if table.len() == 0 {
        Seq::empty()
    } else {
        let prev = detected(table.drop_last(), found);
        let p = table.last();
        let f = found[table.len() - 1];
        match (f.0, answered_version(f.1, f.2)) {
            (Some(b), Some(v)) => prev.push(
                IndexerInfoV { language: p.language, binary: b, version: v, name: p.name, install_hint: p.install_hint },
            ),
            _ => prev,
        }
    }
}

pub open spec fn lookups_view(v: Seq<ProbeLookup>) -> Seq<(Option<Seq<char>>, Option<Seq<char>>, u64)> {
    v.map_values(
        |l: ProbeLookup|
            (
                match l.binary {
                    Some(b) => Some(b@),
                    None => None,
                },
                match l.version_output {
                    Some(o) => Some(o@),
                    None => None,
                },
                l.elapsed_ms,
            ),
    )
}

fn opt_copy(s: &Option<String>) -> (r: Option<String>)
    ensures
        match r {
            Some(x) => s matches Some(y) && x@ == y@,
            None => s is None,
        },
{
    match s {
        Some(x) => Some(x.clone()),
        None => None,
    }
}

/// The detected indexers, one per table row whose binary `lookups` (one
/// per row of `probes()`, in order) found on PATH and which answered its
/// version probe within `PROBE_TIMEOUT_MS`.
pub fn detected_indexers(lookups: &Vec<ProbeLookup>) -> (r: Vec<IndexerInfo>)
    requires
        lookups@.len() == probe_table().len(),
    ensures
        r@.map_values(|i: IndexerInfo| i@) == detected(probe_table(), lookups_view(lookups@)),
{
    let table = probes();
    let ghost tv = table@.map_values(|p: Probe| p@);
    let ghost fv = lookups_view(lookups@);
    let mut out: Vec<IndexerInfo> = Vec::new();
    let mut i: usize = 0;
    assert(tv.subrange(0, 0) =~= Seq::<ProbeV>::empty());
    while i < table.len()
        invariant
            i <= table@.len(),
            table@.len() == lookups@.len(),
            tv == table@.map_values(|p: Probe| p@),
            tv == probe_table(),
            fv == lookups_view(lookups@),
            out@.map_values(|x: IndexerInfo| x@) == detected(tv.subrange(0, i as int), fv),
        decreases table.len() - i,
    {
        let ghost pre = tv.subrange(0, (i + 1) as int);
        assert(pre.drop_last() =~= tv.subrange(0, i as int));
        assert(pre.last() == table@[i as int]@);
        let p = &table[i];
        let l = &lookups[i];
        let answer = match &l.version_output {
            Some(o) => if l.elapsed_ms <= PROBE_TIMEOUT_MS {
                version_line(o.as_str())
            } else {
                None
            },
            None => None,
        };
        match (opt_copy(&l.binary), answer) {
            (Some(binary), Some(version)) => {
                let info = IndexerInfo {
                    language: p.language,
                    binary,
                    version,
                    name: p.name.clone(),
                    install_hint: p.install_hint.clone(),
                };
                let ghost before = out@.map_values(|x: IndexerInfo| x@);
                out.push(info);
                assert(out@.map_values(|x: IndexerInfo| x@) =~= before.push(info@));
            },
            _ => {},
        }
        i = i + 1;
    }
    assert(tv.subrange(0, tv.len() as int) =~= tv);
    out
}

} // verus!
