use grafy::install::installer::{install_result, join_argv, run_with_scip, InstallAction, InstallEntry, InstallOutcome, Status};
use grafy::install::prereqs::{probe, probe_list, tool, PrereqReport, Tool, ToolLookup};
use grafy::install::report::{print_indexer_status, print_report};
use grafy::language::Language;
use grafy::scip::detect::IndexerInfo;

fn missing() -> ToolLookup {
    ToolLookup { path: None, output: None }
}

fn found(path: &str, out: &str, err: &str) -> ToolLookup {
    ToolLookup { path: Some(path.into()), output: Some((out.into(), err.into())) }
}

#[test]
fn probe_does_not_panic() {
    let lookups: Vec<ToolLookup> = probe_list().iter().map(|_| missing()).collect();
    let r = probe(&lookups);
    assert_eq!(r.node.name, "node");
    assert_eq!(r.cargo.name, "cargo");
}

#[test]
fn tool_versions() {
    let t = tool("java", &found("/usr/bin/java", "", "openjdk version \"21\"\nmore"));
    assert_eq!(t.version, "openjdk version \"21\"");
    assert_eq!(t.path.as_deref(), Some("/usr/bin/java"));
    let t = tool("go", &found("/usr/bin/go", "go version go1.22 linux/amd64\n", "ignored"));
    assert_eq!(t.version, "go version go1.22 linux/amd64");
    let t = tool("npm", &found("/usr/bin/npm", "", ""));
    assert_eq!(t.version, "unknown");
    let t = tool("npm", &ToolLookup { path: Some("/usr/bin/npm".into()), output: None });
    assert_eq!(t.version, "unknown");
    let t = tool("brew", &missing());
    assert_eq!(t.version, "not installed");
    assert!(t.path.is_none());
    let d = Tool::default();
    assert_eq!(d.version, "not installed");
}

#[test]
fn status_labels() {
    assert_eq!(Status::Installed.label(), "installed");
    assert_eq!(Status::AlreadyPresent.label(), "already present");
    assert_eq!(Status::Skipped.label(), "skipped");
    assert_eq!(Status::Failed.label(), "FAILED");
}

fn with_npm_and_rustup() -> PrereqReport {
    let mut p = PrereqReport::default();
    p.npm.path = Some("/usr/bin/npm".into());
    p.rustup.path = Some("/usr/bin/rustup".into());
    p
}

fn report_of(a: &InstallAction) -> (&str, Status, &str) {
    match a {
        InstallAction::Report(e) => (e.indexer.as_str(), e.status, e.detail.as_str()),
        InstallAction::Execute { .. } => panic!("expected a report"),
    }
}

#[test]
fn dry_run_reports_commands() {
    let p = with_npm_and_rustup();
    let already = vec!["scip-go".to_string()];
    let a = run_with_scip(true, false, &p, &already);
    assert_eq!(a.len(), 5);
    assert_eq!(report_of(&a[0]), ("scip-python", Status::Skipped, "dry-run: would execute `npm install -g @sourcegraph/scip-python`"));
    assert_eq!(report_of(&a[2]), ("scip-go", Status::AlreadyPresent, "on PATH; no action"));
    assert_eq!(
        report_of(&a[3]),
        ("scip-java", Status::Skipped, "needs coursier (`brew install coursier`) or Homebrew — install one and retry.")
    );
    assert_eq!(report_of(&a[4]), ("rust-analyzer", Status::Skipped, "dry-run: would execute `rustup component add rust-analyzer`"));
}

#[test]
fn real_run_executes_and_reports() {
    let mut p = with_npm_and_rustup();
    p.npm.path = None;
    p.brew.path = Some("/opt/homebrew/bin/brew".into());
    let a = run_with_scip(false, false, &p, &vec![]);
    assert_eq!(report_of(&a[0]), ("scip-python", Status::Skipped, "needs npm — install Node.js (https://nodejs.org/) and retry."));
    assert_eq!(report_of(&a[2]).2, "needs `go` (https://go.dev/dl/) and a $GOPATH/bin on PATH.");
    match &a[3] {
        InstallAction::Execute { indexer, argv } => {
            assert_eq!(indexer, "scip-java");
            assert_eq!(join_argv(argv), "brew install scip-java");
            let ok = install_result(indexer, argv, InstallOutcome::Exited { success: true, status: String::new() });
            assert_eq!((ok.status, ok.detail.as_str()), (Status::Installed, "brew install scip-java"));
            let bad = install_result(indexer, argv, InstallOutcome::Exited { success: false, status: "exit status: 1".into() });
            assert_eq!(bad.detail, "`brew install scip-java` exited non-zero (exit status: 1)");
            let gone = install_result(indexer, argv, InstallOutcome::SpawnFailed("No such file".into()));
            assert_eq!((gone.status, gone.detail.as_str()), (Status::Failed, "failed to spawn `brew install scip-java`: No such file"));
        },
        _ => panic!("expected a command"),
    }
}

#[test]
fn windows_is_skipped() {
    let a = run_with_scip(false, true, &PrereqReport::default(), &vec![]);
    assert_eq!(a.len(), 1);
    assert_eq!(report_of(&a[0]), ("(all)", Status::Skipped, "Windows install not supported in v1.0; install scip-* tools manually."));
}

#[test]
fn summary_text() {
    let entries = vec![InstallEntry { indexer: "scip-go".into(), status: Status::Installed, detail: "go install x".into() }];
    let s = print_report(&entries);
    let expected = format!(
        "grafy install --with-scip — summary\n{}\n  {:<18}  {:<16}  {}\n",
        "-".repeat(60),
        "scip-go",
        "installed",
        "go install x"
    );
    assert_eq!(s, expected);
}

#[test]
fn indexer_status_text() {
    let detected = vec![IndexerInfo {
        language: Language::Go,
        binary: "/usr/bin/scip-go".into(),
        version: "v0.1".into(),
        name: "scip-go".into(),
        install_hint: String::new(),
    }];
    let s = print_indexer_status(&detected);
    let lines: Vec<&str> = s.lines().collect();
    assert_eq!(lines[0], "SCIP indexers detected:");
    assert_eq!(lines[1], "  python  --  install: npm install -g @sourcegraph/scip-python");
    assert_eq!(lines[3], "  go      OK  scip-go v0.1  /usr/bin/scip-go");
    assert_eq!(lines[5], "  c/c++   --  install: see https://github.com/sourcegraph/scip-clang/releases");
    assert_eq!(lines.len(), 7);
}

#[test]
fn indexers_come_in_the_same_order_every_run() {
    fn names(a: &[InstallAction]) -> Vec<String> {
        a.iter()
            .map(|x| match x {
                InstallAction::Report(e) => e.indexer.clone(),
                InstallAction::Execute { indexer, .. } => indexer.clone(),
            })
            .collect()
    }
    let order = vec!["scip-python", "scip-typescript", "scip-go", "scip-java", "rust-analyzer"];
    let p = with_npm_and_rustup();
    assert_eq!(names(&run_with_scip(true, false, &p, &vec![])), order);
    assert_eq!(names(&run_with_scip(false, false, &p, &vec!["scip-java".to_string()])), order);
    assert_eq!(names(&run_with_scip(false, false, &PrereqReport::default(), &vec![])), order);
}
