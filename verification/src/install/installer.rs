//! Which SCIP indexers to install, with which command, and the summary
//! row of each. Tools already on PATH are reported as present; a tool
//! whose toolchain is missing is skipped with a hint; `--dry-run` reports
//! the command that would run.

use vstd::prelude::*;
use crate::install::prereqs::PrereqReport;
use crate::text::str_eq;

verus! {

/// Outcome of one indexer in the summary.
#[derive(Debug, Clone, Copy, PartialEq, Eq, Structural)]
pub enum Status {
    Installed,
    AlreadyPresent,
    Skipped,
    Failed,
}

pub open spec fn spec_label(s: Status) -> Seq<char> {
    match s {
        Status::Installed => "installed"@,
        Status::AlreadyPresent => "already present"@,
        Status::Skipped => "skipped"@,
        Status::Failed => "FAILED"@,
    }
}

impl Status {
    /// The word the summary shows for this status.
    pub fn label(&self) -> (r: &'static str)
        ensures
            r@ == spec_label(*self),
    {
        match self {
            Status::Installed => "installed",
            Status::AlreadyPresent => "already present",
            Status::Skipped => "skipped",
            Status::Failed => "FAILED",
        }
    }
}

/// One row of the post-install summary.
#[derive(Debug, Clone)]
pub struct InstallEntry {
    pub indexer: String,
    pub status: Status,
    pub detail: String,
}

pub type InstallEntryV = (Seq<char>, Status, Seq<char>);

impl View for InstallEntry {
    type V = InstallEntryV;

    open spec fn view(&self) -> InstallEntryV {
        (self.indexer@, self.status, self.detail@)
    }
}

/// What to do for one indexer: report a row now, or run a command and
/// report its outcome (see `install_result`).
pub enum InstallAction {
    Report(InstallEntry),
    Execute { indexer: String, argv: Vec<String> },
}

pub enum InstallActionV {
    Report(InstallEntryV),
    Execute(Seq<char>, Seq<Seq<char>>),
}

pub open spec fn strs(v: Seq<String>) -> Seq<Seq<char>> {
    v.map_values(|s: String| s@)
}

impl View for InstallAction {
    type V = InstallActionV;

    open spec fn view(&self) -> InstallActionV {
        match self {
            InstallAction::Report(e) => InstallActionV::Report(e@),
            InstallAction::Execute { indexer, argv } => InstallActionV::Execute(indexer@, strs(argv@)),
        }
    }
}

/// The indexers the installer handles, in order.
pub open spec fn installable() -> Seq<Seq<char>> {
    seq!["scip-python"@, "scip-typescript"@, "scip-go"@, "scip-java"@, "rust-analyzer"@]
}

pub open spec fn needs_npm() -> Seq<char> {
    "needs npm — install Node.js (https://nodejs.org/) and retry."@
}

/// The install command of an indexer, or why it is skipped.
pub open spec fn install_argv(name: Seq<char>, p: PrereqReport) -> Result<Seq<Seq<char>>, Seq<char>> {
    if name == "scip-python"@ {
        if p.npm.path is Some {
            Ok(seq!["npm"@, "install"@, "-g"@, "@sourcegraph/scip-python"@])
        } else {
            Err(needs_npm())
        }
    } else if name == "scip-typescript"@ {
        if p.npm.path is Some {
            Ok(seq!["npm"@, "install"@, "-g"@, "@sourcegraph/scip-typescript"@])
        } else {
            Err(needs_npm())
        }
    } else if name == "scip-go"@ {
        if p.go.path is Some {
            Ok(seq!["go"@, "install"@, "github.com/sourcegraph/scip-go/cmd/scip-go@latest"@])
        } else {
            Err("needs `go` (https://go.dev/dl/) and a $GOPATH/bin on PATH."@)
        }
    } else if name == "scip-java"@ {
        if p.coursier.path is Some {
            Ok(seq!["cs"@, "install"@, "scip-java"@])
        } else if p.brew.path is Some {
            Ok(seq!["brew"@, "install"@, "scip-java"@])
        } else {
            Err("needs coursier (`brew install coursier`) or Homebrew — install one and retry."@)
        }
    } else {
        if p.rustup.path is Some {
            Ok(seq!["rustup"@, "component"@, "add"@, "rust-analyzer"@])
        } else {
            Err("needs rustup (https://rustup.rs/)."@)
        }
    }
}

/// The words of `argv` joined by single spaces.
pub open spec fn joined_argv(argv: Seq<Seq<char>>) -> Seq<char>
    decreases argv.len(),
{
    if argv.len() == 0 {
        Seq::empty()
    } else if argv.len() == 1 {
        argv[0]
    } else {
        joined_argv(argv.drop_last()) + " "@ + argv.last()
    }
}

/// The action for one indexer.
pub open spec fn spec_action(name: Seq<char>, already: Seq<Seq<char>>, p: PrereqReport, dry_run: bool) -> InstallActionV {
    if already.contains(name) {
        InstallActionV::Report((name, Status::AlreadyPresent, "on PATH; no action"@))
    } else {
        match install_argv(name, p) {
            Err(why) => InstallActionV::Report((name, Status::Skipped, why)),
            Ok(argv) => if dry_run {
                InstallActionV::Report(
                    (name, Status::Skipped, "dry-run: would execute `"@ + joined_argv(argv) + "`"@),
                )
            } else {
                InstallActionV::Execute(name, argv)
            },
        }
    }
}

/// The actions of `grafy install --with-scip`.
pub open spec fn spec_run_with_scip(dry_run: bool, on_windows: bool, p: PrereqReport, already: Seq<Seq<char>>) -> Seq<
    InstallActionV,
> {
    if on_windows {
        seq![
            InstallActionV::Report(
                (
                    "(all)"@,
                    Status::Skipped,
                    "Windows install not supported in v1.0; install scip-* tools manually."@,
                ),
            ),
        ]
    } else {
        installable().map_values(|n: Seq<char>| spec_action(n, already, p, dry_run))
    }
}

fn arg(v: &mut Vec<String>, s: &str)
    ensures
        strs(final(v)@) == strs(old(v)@).push(s@),
{
    v.push(String::from_str(s));
    assert(strs(v@) =~= strs(old(v)@).push(s@));
}

fn argv_of(name: &str, p: &PrereqReport) -> (r: Result<Vec<String>, String>)
    ensures
        match r {
            Ok(a) => install_argv(name@, *p) == Ok::<Seq<Seq<char>>, Seq<char>>(strs(a@)),
            Err(m) => install_argv(name@, *p) == Err::<Seq<Seq<char>>, Seq<char>>(m@),
        },
{
    let mut a: Vec<String> = Vec::new();
    if str_eq(name, "scip-python") || str_eq(name, "scip-typescript") {
        if !p.has_npm() {
            return Err(String::from_str("needs npm — install Node.js (https://nodejs.org/) and retry."));
        }
        arg(&mut a, "npm");
        arg(&mut a, "install");
        arg(&mut a, "-g");
        if str_eq(name, "scip-python") {
            arg(&mut a, "@sourcegraph/scip-python");
            assert(strs(a@) =~= seq!["npm"@, "install"@, "-g"@, "@sourcegraph/scip-python"@]);
        } else {
            arg(&mut a, "@sourcegraph/scip-typescript");
            assert(strs(a@) =~= seq!["npm"@, "install"@, "-g"@, "@sourcegraph/scip-typescript"@]);
        }
        Ok(a)
    } else if str_eq(name, "scip-go") {
        if !p.has_go() {
            return Err(String::from_str("needs `go` (https://go.dev/dl/) and a $GOPATH/bin on PATH."));
        }
        arg(&mut a, "go");
        arg(&mut a, "install");
        arg(&mut a, "github.com/sourcegraph/scip-go/cmd/scip-go@latest");
        assert(strs(a@) =~= seq!["go"@, "install"@, "github.com/sourcegraph/scip-go/cmd/scip-go@latest"@]);
        Ok(a)
    } else if str_eq(name, "scip-java") {
        if p.has_coursier() {
            arg(&mut a, "cs");
        } else if p.brew.path.is_some() {
            arg(&mut a, "brew");
        } else {
            return Err(
                String::from_str("needs coursier (`brew install coursier`) or Homebrew — install one and retry."),
            );
        }
        arg(&mut a, "install");
        arg(&mut a, "scip-java");
        assert(p.coursier.path is Some ==> strs(a@) =~= seq!["cs"@, "install"@, "scip-java"@]);
        assert(p.coursier.path is None ==> strs(a@) =~= seq!["brew"@, "install"@, "scip-java"@]);
        Ok(a)
    } else {
        if !p.has_rustup() {
            return Err(String::from_str("needs rustup (https://rustup.rs/)."));
        }
        arg(&mut a, "rustup");
        arg(&mut a, "component");
        arg(&mut a, "add");
        arg(&mut a, "rust-analyzer");
        assert(strs(a@) =~= seq!["rustup"@, "component"@, "add"@, "rust-analyzer"@]);
        Ok(a)
    }
}

/// The words of `argv` joined by single spaces.
pub fn join_argv(argv: &Vec<String>) -> (r: String)
    ensures
        r@ == joined_argv(strs(argv@)),
{
    let ghost av = strs(argv@);
    let mut r = String::new();
    let mut i: usize = 0;
    while i < argv.len()
        invariant
            i <= argv@.len(),
            av == strs(argv@),
            r@ == joined_argv(av.subrange(0, i as int)),
        decreases argv.len() - i,
    {
        let ghost pre = av.subrange(0, (i + 1) as int);
        assert(pre.drop_last() =~= av.subrange(0, i as int));
        if i > 0 {
            r.append(" ");
        }
        r.append(argv[i].as_str());
        i = i + 1;
    }
    assert(av.subrange(0, av.len() as int) =~= av);
    r
}

fn contains_name(v: &Vec<String>, s: &str) -> (b: bool)
    ensures
        b == strs(v@).contains(s@),
{
    let mut i: usize = 0;
    while i < v.len()
        invariant
            i <= v@.len(),
            forall|k: int| 0 <= k < i ==> v@[k]@ != s@,
        decreases v.len() - i,
    {
        if str_eq(v[i].as_str(), s) {
            assert(strs(v@)[i as int] == s@);
            return true;
        }
        i = i + 1;
    }
    assert forall|k: int| 0 <= k < strs(v@).len() implies strs(v@)[k] != s@ by {
        assert(v@[k]@ != s@);
    }
    false
}

fn action(name: &str, already: &Vec<String>, p: &PrereqReport, dry_run: bool) -> (r: InstallAction)
    ensures
        r@ == spec_action(name@, strs(already@), *p, dry_run),
{
    if contains_name(already, name) {
        return InstallAction::Report(
            InstallEntry {
                indexer: String::from_str(name),
                status: Status::AlreadyPresent,
                detail: String::from_str("on PATH; no action"),
            },
        );
    }
    match argv_of(name, p) {
        Err(why) => InstallAction::Report(InstallEntry { indexer: String::from_str(name), status: Status::Skipped, detail: why }),
        Ok(argv) => {
            if dry_run {
                let mut d = String::from_str("dry-run: would execute `");
                let pretty = join_argv(&argv);
                d.append(pretty.as_str());
                d.append("`");
                InstallAction::Report(InstallEntry { indexer: String::from_str(name), status: Status::Skipped, detail: d })
            } else {
                InstallAction::Execute { indexer: String::from_str(name), argv }
            }
        },
    }
}

/// The actions of `grafy install --with-scip [--dry-run]`: one per
/// installable indexer (one skip for all on Windows), given the host's
/// toolchains and the indexers already on PATH.
pub fn run_with_scip(dry_run: bool, on_windows: bool, prereqs: &PrereqReport, already: &Vec<String>) -> (r: Vec<
    InstallAction,
>)
    ensures
        r@.map_values(|a: InstallAction| a@) == spec_run_with_scip(dry_run, on_windows, *prereqs, strs(already@)),
{
    let mut out: Vec<InstallAction> = Vec::new();
    if on_windows {
        out.push(
            InstallAction::Report(
                InstallEntry {
                    indexer: String::from_str("(all)"),
                    status: Status::Skipped,
                    detail: String::from_str("Windows install not supported in v1.0; install scip-* tools manually."),
                },
            ),
        );
        assert(out@.map_values(|a: InstallAction| a@) =~= spec_run_with_scip(
            dry_run,
            on_windows,
            *prereqs,
            strs(already@),
        ));
        return out;
    }
    let a0 = action("scip-python", already, prereqs, dry_run);
    let a1 = action("scip-typescript", already, prereqs, dry_run);
    let a2 = action("scip-go", already, prereqs, dry_run);
    let a3 = action("scip-java", already, prereqs, dry_run);
    let a4 = action("rust-analyzer", already, prereqs, dry_run);
    let ghost v = seq![a0@, a1@, a2@, a3@, a4@];
    out.push(a0);
    out.push(a1);
    out.push(a2);
    out.push(a3);
    out.push(a4);
    assert(out@.map_values(|a: InstallAction| a@) =~= v);
    assert(v =~= spec_run_with_scip(dry_run, on_windows, *prereqs, strs(already@)));
    out
}

/// How a run of an install command ended.
pub enum InstallOutcome {
    /// The command exited; `status` is its exit status as text.
    Exited { success: bool, status: String },
    /// The command could not be started; the error as text.
    SpawnFailed(String),
}

/// The summary row of an executed install command.
pub open spec fn spec_install_result(name: Seq<char>, argv: Seq<Seq<char>>, o: InstallOutcome) -> InstallEntryV {
    let pretty = joined_argv(argv);
    match o {
        InstallOutcome::Exited { success, status } => if success {
            (name, Status::Installed, pretty)
        } else {
            (name, Status::Failed, "`"@ + pretty + "` exited non-zero ("@ + status@ + ")"@)
        },
        InstallOutcome::SpawnFailed(e) => (name, Status::Failed, "failed to spawn `"@ + pretty + "`: "@ + e@),
    }
}

/// The summary row of an executed install command, from its outcome.
pub fn install_result(indexer: &str, argv: &Vec<String>, outcome: InstallOutcome) -> (r: InstallEntry)
    ensures
        r@ == spec_install_result(indexer@, strs(argv@), outcome),
{
    let pretty = join_argv(argv);
    match outcome {
        InstallOutcome::Exited { success, status } => {
            if success {
                InstallEntry { indexer: String::from_str(indexer), status: Status::Installed, detail: pretty }
            } else {
                let mut d = String::from_str("`");
                d.append(pretty.as_str());
                d.append("` exited non-zero (");
                d.append(status.as_str());
                d.append(")");
                InstallEntry { indexer: String::from_str(indexer), status: Status::Failed, detail: d }
            }
        },
        InstallOutcome::SpawnFailed(e) => {
            let mut d = String::from_str("failed to spawn `");
            d.append(pretty.as_str());
            d.append("`: ");
            d.append(e.as_str());
            InstallEntry { indexer: String::from_str(indexer), status: Status::Failed, detail: d }
        },
    }
}

/// Installing is idempotent: an indexer already on PATH is reported as
/// present and nothing is run for it.
pub proof fn present_indexers_are_left_alone(dry_run: bool, p: PrereqReport, already: Seq<Seq<char>>, i: int)
    requires
        0 <= i < installable().len(),
        already.contains(installable()[i]),
    ensures
        spec_run_with_scip(dry_run, false, p, already)[i] == InstallActionV::Report(
            (installable()[i], Status::AlreadyPresent, "on PATH; no action"@),
        ),
{
}

/// A dry run executes nothing: every action is a report, of an indexer
/// already present or skipped.
pub proof fn dry_run_executes_nothing(on_windows: bool, p: PrereqReport, already: Seq<Seq<char>>)
    ensures
        forall|i: int|
            0 <= i < spec_run_with_scip(true, on_windows, p, already).len() ==> (#[trigger] spec_run_with_scip(
                true,
                on_windows,
                p,
                already,
            )[i] matches InstallActionV::Report(e) && (e.1 == Status::AlreadyPresent || e.1 == Status::Skipped)),
{
}

/// The indexer an action concerns.
pub open spec fn action_indexer(a: InstallActionV) -> Seq<char> {
    match a {
        InstallActionV::Report(e) => e.0,
        InstallActionV::Execute(name, _) => name,
    }
}

/// Off Windows the installer handles every installable indexer once, in the
/// same order on every run, whatever is already present and whether or not
/// it is a dry run.
pub proof fn indexers_come_in_fixed_order(dry_run: bool, p: PrereqReport, already: Seq<Seq<char>>)
    ensures
        spec_run_with_scip(dry_run, false, p, already).len() == installable().len(),
        forall|i: int|
            0 <= i < installable().len() ==> action_indexer(
                #[trigger] spec_run_with_scip(dry_run, false, p, already)[i],
            ) == installable()[i],
{
}

} // verus!
