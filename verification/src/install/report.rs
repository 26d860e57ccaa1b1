//! The text of the post-install summary and of the indexer table that
//! `grafy diagnose` shows.

use vstd::prelude::*;
use crate::install::installer::{InstallEntry, InstallEntryV, spec_label};
use crate::language::Language;
use crate::scip::detect::{IndexerInfo, IndexerInfoV};

verus! {

/// `n` copies of `c`.
pub open spec fn repeat(c: char, n: int) -> Seq<char>
    decreases n,
{
    if n <= 0 {
        Seq::empty()
    } else {
        repeat(c, n - 1).push(c)
    }
}

pub open spec fn spaces(n: int) -> Seq<char> {
    repeat(' ', n)
}

/// `s` padded with spaces on the right to at least `w` characters
/// (`{:<w}`).
pub open spec fn pad(s: Seq<char>, w: nat) -> Seq<char> {
    s + spaces(w - s.len())
}

fn push_padded(out: &mut String, s: &str, w: usize)
    ensures
        final(out)@ == old(out)@ + pad(s@, w as nat),
{
    out.append(s);
    let n = s.unicode_len();
    let mut k: usize = n;
    assert(spaces(0) =~= Seq::<char>::empty());
    while k < w
        invariant
            n == s@.len(),
            n <= k <= w || (k == n && n >= w),
            out@ == old(out)@ + s@ + spaces(k - n),
        decreases w - k,
    {
        out.push(' ');
        k = k + 1;
        assert(spaces(k - n) == spaces(k - n - 1).push(' '));
    }
    assert(spaces(k - n) == spaces(w - n)) by {
        if n >= w {
            assert(spaces(w - n) =~= Seq::<char>::empty());
        }
    }
}

/// A row of the summary.
pub open spec fn summary_row(e: InstallEntryV) -> Seq<char> {
    "  "@ + pad(e.0, 18) + "  "@ + pad(spec_label(e.1), 16) + "  "@ + e.2 + "\n"@
}

pub open spec fn summary_rows(es: Seq<InstallEntryV>) -> Seq<char>
    decreases es.len(),
{
    if es.len() == 0 {
        Seq::empty()
    } else {
        summary_rows(es.drop_last()) + summary_row(es.last())
    }
}

/// The post-install summary: a title, a rule, and one row per entry.
pub open spec fn spec_report(es: Seq<InstallEntryV>) -> Seq<char> {
    "grafy install --with-scip — summary\n"@ + repeat('-', 60) + "\n"@ + summary_rows(es)
}

/// The text of the post-install summary.
pub fn print_report(entries: &Vec<InstallEntry>) -> (s: String)
    ensures
        s@ == spec_report(entries@.map_values(|e: InstallEntry| e@)),
{
    let ghost ev = entries@.map_values(|e: InstallEntry| e@);
    let mut out = String::from_str("grafy install --with-scip — summary\n");
    let ghost start = out@;
    let mut k: usize = 0;
    assert(repeat('-', 0) =~= Seq::<char>::empty());
    while k < 60
        invariant
            k <= 60,
            out@ == start + repeat('-', k as int),
        decreases 60 - k,
    {
        out.push('-');
        k = k + 1;
    }
    out.append("\n");
    let ghost head = out@;
    let mut i: usize = 0;
    assert(ev.subrange(0, 0) =~= Seq::<InstallEntryV>::empty());
    while i < entries.len()
        invariant
            i <= entries@.len(),
            ev == entries@.map_values(|e: InstallEntry| e@),
            out@ == head + summary_rows(ev.subrange(0, i as int)),
        decreases entries.len() - i,
    {
        let ghost pre = ev.subrange(0, (i + 1) as int);
        assert(pre.drop_last() =~= ev.subrange(0, i as int));
        let e = &entries[i];
        assert(pre.last() == e@);
        out.append("  ");
        push_padded(&mut out, e.indexer.as_str(), 18);
        out.append("  ");
        push_padded(&mut out, e.status.label(), 16);
        out.append("  ");
        out.append(e.detail.as_str());
        out.append("\n");
        i = i + 1;
    }
    assert(ev.subrange(0, ev.len() as int) =~= ev);
    out
}

/// The rows of the indexer table: language, label, install command.
pub open spec fn status_rows() -> Seq<(Language, Seq<char>, Seq<char>)> {
    seq![
        (Language::Python, "python"@, "npm install -g @sourcegraph/scip-python"@),
        (Language::TypeScript, "ts/js"@, "npm install -g @sourcegraph/scip-typescript"@),
        (Language::Go, "go"@, "go install github.com/sourcegraph/scip-go/cmd/scip-go@latest"@),
        (Language::Java, "java"@, "cs install scip-java"@),
        (Language::Cpp, "c/c++"@, "see https://github.com/sourcegraph/scip-clang/releases"@),
        (Language::Rust, "rust"@, "rustup component add rust-analyzer"@),
    ]
}

/// The last detected indexer of a language.
pub open spec fn last_for(d: Seq<IndexerInfoV>, lang: Language) -> Option<IndexerInfoV>
    decreases d.len(),
{
    if d.len() == 0 {
        None
    } else if d.last().language == lang {
        Some(d.last())
    } else {
        last_for(d.drop_last(), lang)
    }
}

/// One row of the table: the indexer found for the language, or its
/// install command.
pub open spec fn status_row(d: Seq<IndexerInfoV>, row: (Language, Seq<char>, Seq<char>)) -> Seq<char> {
    match last_for(d, row.0) {
        Some(i) => "  "@ + pad(row.1, 7) + " OK  "@ + i.name + " "@ + i.version + "  "@ + i.binary + "\n"@,
        None => "  "@ + pad(row.1, 7) + " --  install: "@ + row.2 + "\n"@,
    }
}

pub open spec fn status_text(d: Seq<IndexerInfoV>, rows: Seq<(Language, Seq<char>, Seq<char>)>) -> Seq<char>
    decreases rows.len(),
{
    if rows.len() == 0 {
        Seq::empty()
    } else {
        status_text(d, rows.drop_last()) + status_row(d, rows.last())
    }
}

fn last_indexer(d: &Vec<IndexerInfo>, lang: Language) -> (r: Option<usize>)
    ensures
        match r {
            Some(i) => i < d@.len() && last_for(d@.map_values(|x: IndexerInfo| x@), lang) == Some(d@[i as int]@),
            None => last_for(d@.map_values(|x: IndexerInfo| x@), lang) is None,
        },
{
    let ghost dv = d@.map_values(|x: IndexerInfo| x@);
    let mut i: usize = d.len();
    assert(dv.subrange(0, dv.len() as int) =~= dv);
    while i > 0
        invariant
            i <= d@.len(),
            dv == d@.map_values(|x: IndexerInfo| x@),
            last_for(dv, lang) == last_for(dv.subrange(0, i as int), lang),
        decreases i,
    {
        let ghost pre = dv.subrange(0, i as int);
        assert(pre.drop_last() =~= dv.subrange(0, i - 1));
        assert(pre.last() == d@[i - 1]@);
        if d[i - 1].language == lang {
            return Some(i - 1);
        }
        i = i - 1;
    }
    None
}

fn push_status_row(out: &mut String, detected: &Vec<IndexerInfo>, lang: Language, label: &str, cmd: &str)
    ensures
        final(out)@ == old(out)@ + status_row(detected@.map_values(|x: IndexerInfo| x@), (lang, label@, cmd@)),
{
    out.append("  ");
    push_padded(out, label, 7);
    match last_indexer(detected, lang) {
        Some(k) => {
            let info = &detected[k];
            out.append(" OK  ");
            out.append(info.name.as_str());
            out.append(" ");
            out.append(info.version.as_str());
            out.append("  ");
            out.append(info.binary.as_str());
            out.append("\n");
        },
        None => {
            out.append(" --  install: ");
            out.append(cmd);
            out.append("\n");
        },
    }
}

/// The text of the indexer table: a title and one row per language of
/// `status_rows()`.
pub fn print_indexer_status(detected: &Vec<IndexerInfo>) -> (s: String)
    ensures
        s@ == "SCIP indexers detected:\n"@ + status_text(detected@.map_values(|x: IndexerInfo| x@), status_rows()),
{
    let ghost dv = detected@.map_values(|x: IndexerInfo| x@);
    let mut rows: Vec<(Language, &'static str, &'static str)> = Vec::new();
    rows.push((Language::Python, "python", "npm install -g @sourcegraph/scip-python"));
    rows.push((Language::TypeScript, "ts/js", "npm install -g @sourcegraph/scip-typescript"));
    rows.push((Language::Go, "go", "go install github.com/sourcegraph/scip-go/cmd/scip-go@latest"));
    rows.push((Language::Java, "java", "cs install scip-java"));
    rows.push((Language::Cpp, "c/c++", "see https://github.com/sourcegraph/scip-clang/releases"));
    rows.push((Language::Rust, "rust", "rustup component add rust-analyzer"));
    let ghost rv = rows@.map_values(|r: (Language, &str, &str)| (r.0, r.1@, r.2@));
    assert(rv =~= status_rows());
    let mut out = String::from_str("SCIP indexers detected:\n");
    let ghost head = out@;
    let mut i: usize = 0;
    assert(rv.subrange(0, 0) =~= Seq::<(Language, Seq<char>, Seq<char>)>::empty());
    while i < rows.len()
        invariant
            i <= rows@.len(),
            rv == rows@.map_values(|r: (Language, &str, &str)| (r.0, r.1@, r.2@)),
            dv == detected@.map_values(|x: IndexerInfo| x@),
            out@ == head + status_text(dv, rv.subrange(0, i as int)),
        decreases rows.len() - i,
    {
        let ghost pre = rv.subrange(0, (i + 1) as int);
        assert(pre.drop_last() =~= rv.subrange(0, i as int));
        let (lang, label, cmd) = rows[i];
        assert(pre.last() == (lang, label@, cmd@));
        push_status_row(&mut out, detected, lang, label, cmd);
        i = i + 1;
    }
    assert(rv.subrange(0, rv.len() as int) =~= rv);
    out
}

} // verus!
