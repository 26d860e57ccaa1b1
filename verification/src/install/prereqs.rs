//! The toolchains each SCIP indexer needs, as found on the host.

use vstd::prelude::*;
use crate::scip::detect::first_line_trimmed;
use crate::scip::detect::first_line;

verus! {

/// One toolchain binary: its name, the version it reported (or `not
/// installed`), and its path on PATH.
#[derive(Debug, Clone)]
pub struct Tool {
    pub name: String,
    pub version: String,
    pub path: Option<String>,
}

impl Default for Tool {
    fn default() -> (t: Tool)
        ensures
            t.name@ == Seq::<char>::empty(),
            t.version@ == "not installed"@,
            t.path is None,
    {
        Tool { name: String::new(), version: String::from_str("not installed"), path: None }
    }
}

/// The toolchains found on the host.
#[derive(Debug, Clone, Default)]
pub struct PrereqReport {
    pub node: Tool,
    pub npm: Tool,
    pub go: Tool,
    pub java: Tool,
    pub javac: Tool,
    pub coursier: Tool,
    pub cargo: Tool,
    pub rustup: Tool,
    pub brew: Tool,
}

impl PrereqReport {
    /// `npm` is on PATH (enough for the npm-installed indexers).
    pub fn has_npm(&self) -> (b: bool)
        ensures
            b == self.npm.path is Some,
    {
        self.npm.path.is_some()
    }

    /// `go` is on PATH.
    pub fn has_go(&self) -> (b: bool)
        ensures
            b == self.go.path is Some,
    {
        self.go.path.is_some()
    }

    /// `coursier` is on PATH, the usual route to scip-java.
    pub fn has_coursier(&self) -> (b: bool)
        ensures
            b == self.coursier.path is Some,
    {
        self.coursier.path.is_some()
    }

    /// `rustup` is on PATH.
    pub fn has_rustup(&self) -> (b: bool)
        ensures
            b == self.rustup.path is Some,
    {
        self.rustup.path.is_some()
    }
}

/// What a PATH lookup found for a tool: its path, and the standard output
/// and standard error of its version command when that command ran.
pub struct ToolLookup {
    pub path: Option<String>,
    pub output: Option<(String, String)>,
}

/// The version text of a tool's output: the first line of standard output
/// (of standard error when standard output is empty), trimmed; `unknown`
/// when there is no line at all.
pub open spec fn spec_tool_version(stdout: Seq<char>, stderr: Seq<char>) -> Seq<char> {
    let s = if stdout.len() > 0 {
        stdout
    } else {
        stderr
    };
    if s.len() == 0 {
        "unknown"@
    } else {
        first_line_trimmed(s)
    }
}

/// The tool as a lookup found it.
pub open spec fn spec_tool(bin: Seq<char>, path: Option<Seq<char>>, output: Option<(Seq<char>, Seq<char>)>) -> (
    Seq<char>,
    Seq<char>,
    Option<Seq<char>>,
) {
    match path {
        None => (bin, "not installed"@, None),
        Some(p) => (
            bin,
            match output {
                Some((o, e)) => spec_tool_version(o, e),
                None => "unknown"@,
            },
            Some(p),
        ),
    }
}

pub open spec fn tool_view(t: Tool) -> (Seq<char>, Seq<char>, Option<Seq<char>>) {
    (
        t.name@,
        t.version@,
        match t.path {
            Some(p) => Some(p@),
            None => None,
        },
    )
}

pub open spec fn lookup_view(l: ToolLookup) -> (Option<Seq<char>>, Option<(Seq<char>, Seq<char>)>) {
    (
        match l.path {
            Some(p) => Some(p@),
            None => None,
        },
        match l.output {
            Some((o, e)) => Some((o@, e@)),
            None => None,
        },
    )
}

/// The tool `bin` as `lookup` found it.
pub fn tool(bin: &str, lookup: &ToolLookup) -> (t: Tool)
    ensures
        tool_view(t) == spec_tool(bin@, lookup_view(*lookup).0, lookup_view(*lookup).1),
{
    match &lookup.path {
        None => Tool { name: String::from_str(bin), version: String::from_str("not installed"), path: None },
        Some(p) => {
            let version = match &lookup.output {
                Some((o, e)) => {
                    let s = if o.as_str().unicode_len() > 0 {
                        o.as_str()
                    } else {
                        e.as_str()
                    };
                    if s.unicode_len() == 0 {
                        String::from_str("unknown")
                    } else {
                        first_line(s)
                    }
                },
                None => String::from_str("unknown"),
            };
            Tool { name: String::from_str(bin), version, path: Some(p.clone()) }
        },
    }
}

/// The probed tools, in order, with the arguments that make each print
/// its version.
pub open spec fn probe_tools() -> Seq<(Seq<char>, Seq<char>)> {
    seq![
        ("node"@, "--version"@),
        ("npm"@, "--version"@),
        ("go"@, "version"@),
        ("java"@, "-version"@),
        ("javac"@, "-version"@),
        ("coursier"@, "--version"@),
        ("cargo"@, "--version"@),
        ("rustup"@, "--version"@),
        ("brew"@, "--version"@),
    ]
}

/// The tools to probe, in order: name and version argument.
pub fn probe_list() -> (r: Vec<(&'static str, &'static str)>)
    ensures
        r@.map_values(|p: (&str, &str)| (p.0@, p.1@)) == probe_tools(),
{
    let mut r: Vec<(&'static str, &'static str)> = Vec::new();
    r.push(("node", "--version"));
    r.push(("npm", "--version"));
    r.push(("go", "version"));
    r.push(("java", "-version"));
    r.push(("javac", "-version"));
    r.push(("coursier", "--version"));
    r.push(("cargo", "--version"));
    r.push(("rustup", "--version"));
    r.push(("brew", "--version"));
    assert(r@.map_values(|p: (&str, &str)| (p.0@, p.1@)) =~= probe_tools());
    r
}

/// The host's toolchains, from one lookup per entry of `probe_list()`.
pub fn probe(lookups: &Vec<ToolLookup>) -> (r: PrereqReport)
    requires
        lookups@.len() == 9,
    ensures
        tool_view(r.node) == spec_tool("node"@, lookup_view(lookups@[0]).0, lookup_view(lookups@[0]).1),
        tool_view(r.npm) == spec_tool("npm"@, lookup_view(lookups@[1]).0, lookup_view(lookups@[1]).1),
        tool_view(r.go) == spec_tool("go"@, lookup_view(lookups@[2]).0, lookup_view(lookups@[2]).1),
        tool_view(r.java) == spec_tool("java"@, lookup_view(lookups@[3]).0, lookup_view(lookups@[3]).1),
        tool_view(r.javac) == spec_tool("javac"@, lookup_view(lookups@[4]).0, lookup_view(lookups@[4]).1),
        tool_view(r.coursier) == spec_tool("coursier"@, lookup_view(lookups@[5]).0, lookup_view(lookups@[5]).1),
        tool_view(r.cargo) == spec_tool("cargo"@, lookup_view(lookups@[6]).0, lookup_view(lookups@[6]).1),
        tool_view(r.rustup) == spec_tool("rustup"@, lookup_view(lookups@[7]).0, lookup_view(lookups@[7]).1),
        tool_view(r.brew) == spec_tool("brew"@, lookup_view(lookups@[8]).0, lookup_view(lookups@[8]).1),
{
    PrereqReport {
        node: tool("node", &lookups[0]),
        npm: tool("npm", &lookups[1]),
        go: tool("go", &lookups[2]),
        java: tool("java", &lookups[3]),
        javac: tool("javac", &lookups[4]),
        coursier: tool("coursier", &lookups[5]),
        cargo: tool("cargo", &lookups[6]),
        rustup: tool("rustup", &lookups[7]),
        brew: tool("brew", &lookups[8]),
    }
}

/// Each probed tool carries its own name; a tool no lookup found is
/// reported "not installed", with no path.
pub proof fn probed_tools_are_named(bin: Seq<char>, path: Option<Seq<char>>, output: Option<(Seq<char>, Seq<char>)>)
    ensures
        spec_tool(bin, path, output).0 == bin,
        path is None ==> spec_tool(bin, path, output).1 == "not installed"@ && spec_tool(bin, path, output).2 is None,
        path matches Some(p) ==> spec_tool(bin, path, output).2 == Some(p),
{
}

} // verus!
