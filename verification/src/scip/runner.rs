//! The command line each SCIP indexer runs with, the prerequisites it
//! needs in the repository, and what to do while it runs.

use vstd::prelude::*;
use crate::language::{Language, spec_language_name};
use crate::scip::detect::IndexerInfo;
use crate::text::str_eq;

verus! {

/// Which prerequisite files the repository root holds.
#[derive(Debug, Clone, Copy)]
pub struct RepoLayout {
    pub node_modules: bool,
    pub go_mod: bool,
    pub pom_xml: bool,
    pub build_gradle: bool,
    pub build_gradle_kts: bool,
    pub compile_commands: bool,
}

/// The arguments an indexer binary is run with, from the repository root.
pub struct IndexerCommand {
    pub args: Vec<String>,
}

/// Where the command for an indexer is run, as text.
pub struct CommandPaths {
    /// The repository root, as displayed in messages.
    pub repo: String,
    /// The repository directory's own name, if it is valid UTF-8.
    pub repo_name: Option<String>,
    /// The `.scip` file the indexer writes.
    pub out_path: String,
    /// `compile_commands.json` under the repository root.
    pub compdb_path: String,
}

pub open spec fn strs(v: Seq<String>) -> Seq<Seq<char>> {
    v.map_values(|s: String| s@)
}

pub open spec fn needs_node_modules(repo: Seq<char>) -> Seq<char> {
    "scip-typescript needs node_modules. Run `npm install` in "@ + repo + " first."@
}

pub open spec fn needs_go_mod(repo: Seq<char>) -> Seq<char> {
    "scip-go needs go.mod (Go modules). Run `go mod init` in "@ + repo + " first."@
}

pub open spec fn needs_build_file(repo: Seq<char>) -> Seq<char> {
    "scip-java needs Maven (pom.xml) or Gradle (build.gradle[.kts]). None found in "@ + repo + "."@
}

pub open spec fn needs_compdb(repo: Seq<char>) -> Seq<char> {
    "scip-clang needs compile_commands.json in "@ + repo + ". Generate via cmake / bear / intercept-build."@
}

pub open spec fn no_template(name: Seq<char>, lang: Language) -> Seq<char> {
    "no command template for indexer `"@ + name + "` on language `"@ + spec_language_name(lang)
        + "` — open an issue."@
}

/// The arguments of each known indexer, or why it cannot run here.
pub open spec fn spec_command(
    name: Seq<char>,
    lang: Language,
    repo: Seq<char>,
    repo_name: Option<Seq<char>>,
    out: Seq<char>,
    compdb: Seq<char>,
    layout: RepoLayout,
) -> Result<Seq<Seq<char>>, Seq<char>> {
    if name == "scip-python"@ && lang == Language::Python {
        let project = match repo_name {
            Some(n) => n,
            None => "grafy-index"@,
        };
        Ok(seq!["index"@, "--output"@, out, "--project-name"@, project, "--project-version"@, "0.0.0"@, "."@])
    } else if name == "scip-typescript"@ {
        if layout.node_modules {
            Ok(seq!["index"@, "--output"@, out])
        } else {
            Err(needs_node_modules(repo))
        }
    } else if name == "scip-go"@ {
        if layout.go_mod {
            Ok(seq!["--output"@, out, "."@])
        } else {
            Err(needs_go_mod(repo))
        }
    } else if name == "scip-java"@ {
        if layout.pom_xml || layout.build_gradle || layout.build_gradle_kts {
            Ok(seq!["index"@])
        } else {
            Err(needs_build_file(repo))
        }
    } else if name == "scip-clang"@ {
        if layout.compile_commands {
            Ok(seq!["--output"@, out, "--compdb"@, compdb])
        } else {
            Err(needs_compdb(repo))
        }
    } else if name == "rust-analyzer"@ {
        Ok(seq!["scip"@, "."@])
    } else {
        Err(no_template(name, lang))
    }
}

fn arg(v: &mut Vec<String>, s: &str)
    ensures
        strs(final(v)@) == strs(old(v)@).push(s@),
{
    v.push(String::from_str(s));
    assert(strs(v@) =~= strs(old(v)@).push(s@));
}

fn concat3(a: &str, b: &str, c: &str) -> (r: String)
    ensures
        r@ == a@ + b@ + c@,
{
    let mut r = String::from_str(a);
    r.append(b);
    r.append(c);
    r
}

/// The command an indexer runs with in this repository, or why it is
/// skipped (a prerequisite is missing, or no template exists).
pub fn build_command(indexer: &IndexerInfo, paths: &CommandPaths, layout: RepoLayout) -> (r: Result<
    IndexerCommand,
    String,
>)
    ensures
        match r {
            Ok(c) => spec_command(
                indexer.name@,
                indexer.language,
                paths.repo@,
                match paths.repo_name {
                    Some(n) => Some(n@),
                    None => None,
                },
                paths.out_path@,
                paths.compdb_path@,
                layout,
            ) == Ok::<Seq<Seq<char>>, Seq<char>>(strs(c.args@)),
            Err(m) => spec_command(
                indexer.name@,
                indexer.language,
                paths.repo@,
                match paths.repo_name {
                    Some(n) => Some(n@),
                    None => None,
                },
                paths.out_path@,
                paths.compdb_path@,
                layout,
            ) == Err::<Seq<Seq<char>>, Seq<char>>(m@),
        },
{
    let name = indexer.name.as_str();
    let out = paths.out_path.as_str();
    let repo = paths.repo.as_str();
    if str_eq(name, "scip-python") && indexer.language == Language::Python {
        let project: &str = match &paths.repo_name {
            Some(n) => n.as_str(),
            None => "grafy-index",
        };
        let mut a: Vec<String> = Vec::new();
        arg(&mut a, "index");
        arg(&mut a, "--output");
        arg(&mut a, out);
        arg(&mut a, "--project-name");
        arg(&mut a, project);
        arg(&mut a, "--project-version");
        arg(&mut a, "0.0.0");
        arg(&mut a, ".");
        assert(strs(a@) =~= seq![
            "index"@,
            "--output"@,
            out@,
            "--project-name"@,
            project@,
            "--project-version"@,
            "0.0.0"@,
            "."@,
        ]);
        return Ok(IndexerCommand { args: a });
    }
    if str_eq(name, "scip-typescript") {
        if layout.node_modules {
            let mut a: Vec<String> = Vec::new();
            arg(&mut a, "index");
            arg(&mut a, "--output");
            arg(&mut a, out);
            assert(strs(a@) =~= seq!["index"@, "--output"@, out@]);
            return Ok(IndexerCommand { args: a });
        }
        return Err(concat3("scip-typescript needs node_modules. Run `npm install` in ", repo, " first."));
    }
    if str_eq(name, "scip-go") {
        if layout.go_mod {
            let mut a: Vec<String> = Vec::new();
            arg(&mut a, "--output");
            arg(&mut a, out);
            arg(&mut a, ".");
            assert(strs(a@) =~= seq!["--output"@, out@, "."@]);
            return Ok(IndexerCommand { args: a });
        }
        return Err(concat3("scip-go needs go.mod (Go modules). Run `go mod init` in ", repo, " first."));
    }
    if str_eq(name, "scip-java") {
        if layout.pom_xml || layout.build_gradle || layout.build_gradle_kts {
            let mut a: Vec<String> = Vec::new();
            arg(&mut a, "index");
            assert(strs(a@) =~= seq!["index"@]);
            return Ok(IndexerCommand { args: a });
        }
        return Err(
            concat3(
                "scip-java needs Maven (pom.xml) or Gradle (build.gradle[.kts]). None found in ",
                repo,
                ".",
            ),
        );
    }
    if str_eq(name, "scip-clang") {
        if layout.compile_commands {
            let mut a: Vec<String> = Vec::new();
            arg(&mut a, "--output");
            arg(&mut a, out);
            arg(&mut a, "--compdb");
            arg(&mut a, paths.compdb_path.as_str());
            assert(strs(a@) =~= seq!["--output"@, out@, "--compdb"@, paths.compdb_path@]);
            return Ok(IndexerCommand { args: a });
        }
        return Err(
            concat3("scip-clang needs compile_commands.json in ", repo, ". Generate via cmake / bear / intercept-build."),
        );
    }
    if str_eq(name, "rust-analyzer") {
        let mut a: Vec<String> = Vec::new();
        arg(&mut a, "scip");
        arg(&mut a, ".");
        assert(strs(a@) =~= seq!["scip"@, "."@]);
        return Ok(IndexerCommand { args: a });
    }
    let mut m = concat3("no command template for indexer `", name, "` on language `");
    m.append(indexer.language.as_str());
    m.append("` — open an issue.");
    Err(m)
}

/// The wall-clock budget of one indexer run, in milliseconds.
pub const RUNNER_TIMEOUT_MS: u64 = 300000;

/// What the runner observed on one poll of the indexer process.
pub enum RunnerPoll {
    /// The process exited; `status` is its exit status as text, and
    /// `output_exists` whether the `.scip` file is there.
    Exited { success: bool, status: String, output_exists: bool },
    /// The process is still running after `elapsed_ms`.
    Running { elapsed_ms: u64 },
}

/// What the runner does next.
pub enum RunnerStep {
    /// The `.scip` file is ready.
    Done,
    /// The run failed, with this message.
    Fail(String),
    /// The run overran its budget: kill the process and fail.
    KillAndFail(String),
    /// Wait a little and poll again.
    Sleep,
}

pub open spec fn exit_message(name: Seq<char>, lang: Language, log: Seq<char>, status: Seq<char>) -> Seq<char> {
    name + " ("@ + spec_language_name(lang) + "): exited non-zero — see "@ + log + " for stderr. ("@ + status + ")"@
}

pub open spec fn missing_output_message(name: Seq<char>, out: Seq<char>) -> Seq<char> {
    name + " reported success but "@ + out + " does not exist — upstream CLI may have changed."@
}

pub open spec fn timeout_message(name: Seq<char>, lang: Language) -> Seq<char> {
    name + " ("@ + spec_language_name(lang)
        + "): exceeded 300s wall budget — kill+skip. Set GRAFY_SCIP_DISABLE=1 to opt out."@
}

/// The step after a poll: a failed exit or a missing output fails the
/// run, a run past the budget is killed, otherwise the runner waits.
pub open spec fn spec_runner_step(name: Seq<char>, lang: Language, log: Seq<char>, out: Seq<char>, p: RunnerPoll) -> (
    u8,
    Seq<char>,
) {
    match p {
        RunnerPoll::Exited { success, status, output_exists } => if !success {
            (1, exit_message(name, lang, log, status@))
        } else if !output_exists {
            (1, missing_output_message(name, out))
        } else {
            (0, Seq::empty())
        },
        RunnerPoll::Running { elapsed_ms } => if elapsed_ms > RUNNER_TIMEOUT_MS {
            (2, timeout_message(name, lang))
        } else {
            (3, Seq::empty())
        },
    }
}

pub open spec fn step_view(s: RunnerStep) -> (u8, Seq<char>) {
    match s {
        RunnerStep::Done => (0, Seq::empty()),
        RunnerStep::Fail(m) => (1, m@),
        RunnerStep::KillAndFail(m) => (2, m@),
        RunnerStep::Sleep => (3, Seq::empty()),
    }
}

/// Decides what to do after polling the indexer process.
pub fn runner_step(indexer: &IndexerInfo, log_path: &str, out_path: &str, poll: RunnerPoll) -> (r: RunnerStep)
    ensures
        step_view(r) == spec_runner_step(indexer.name@, indexer.language, log_path@, out_path@, poll),
{
    let ghost p = poll;
    match poll {
        RunnerPoll::Exited { success, status, output_exists } => {
            if !success {
                let mut m = String::from_str(indexer.name.as_str());
                m.append(" (");
                m.append(indexer.language.as_str());
                m.append("): exited non-zero — see ");
                m.append(log_path);
                m.append(" for stderr. (");
                m.append(status.as_str());
                m.append(")");
                RunnerStep::Fail(m)
            } else if !output_exists {
                let mut m = String::from_str(indexer.name.as_str());
                m.append(" reported success but ");
                m.append(out_path);
                m.append(" does not exist — upstream CLI may have changed.");
                RunnerStep::Fail(m)
            } else {
                RunnerStep::Done
            }
        },
        RunnerPoll::Running { elapsed_ms } => {
            if elapsed_ms > RUNNER_TIMEOUT_MS {
                let mut m = String::from_str(indexer.name.as_str());
                m.append(" (");
                m.append(indexer.language.as_str());
                m.append("): exceeded 300s wall budget — kill+skip. Set GRAFY_SCIP_DISABLE=1 to opt out.");
                RunnerStep::KillAndFail(m)
            } else {
                RunnerStep::Sleep
            }
        },
    }
}

} // verus!
