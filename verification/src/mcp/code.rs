//! `search_code`: grep over the indexed files, with the per-file results
//! gathered according to the output mode.

use vstd::prelude::*;
use crate::pattern::{CompiledRegex, regex_compiles, regex_escape, regex_escaped, regex_matches};
use crate::text::{chars_of, has_infix, has_prefix, has_suffix, str_contains, str_ends_with, str_eq, str_starts_with};

verus! {

/// The line test of a code search: the regex when one was asked for and
/// compiles, otherwise a plain substring test.
pub open spec fn code_line_hit(pattern: Seq<char>, use_regex: bool, line: Seq<char>) -> bool {
    if use_regex && regex_compiles(pattern) {
        regex_matches(pattern, line)
    } else {
        has_infix(line, pattern)
    }
}

/// Matches lines against the search pattern.
pub struct LineMatcher {
    re: Option<CompiledRegex>,
    literal: String,
    pat: Ghost<Seq<char>>,
    regex_mode: Ghost<bool>,
}

impl LineMatcher {
    pub closed spec fn pattern(&self) -> Seq<char> {
        self.pat@
    }

    pub closed spec fn uses_regex(&self) -> bool {
        self.regex_mode@
    }

    pub closed spec fn wf(&self) -> bool {
        &&& self.literal@ == self.pat@
        &&& match self.re {
            Some(c) => if self.regex_mode@ {
                c.source() == self.pat@ && regex_compiles(self.pat@)
            } else {
                c.source() == regex_escaped(self.pat@)
            },
            None => self.regex_mode@ ==> !regex_compiles(self.pat@),
        }
    }

    /// The matcher for `pattern`: a regex, or (when `use_regex` is false)
    /// the escaped literal.
    pub fn new(pattern: &str, use_regex: bool) -> (m: LineMatcher)
        ensures
            m.wf(),
            m.pattern() == pattern@,
            m.uses_regex() == use_regex,
    {
        let re = if use_regex {
            CompiledRegex::new(pattern)
        } else {
            let escaped = regex_escape(pattern);
            CompiledRegex::new(escaped.as_str())
        };
        LineMatcher { re, literal: String::from_str(pattern), pat: Ghost(pattern@), regex_mode: Ghost(use_regex) }
    }

    /// Whether a line matches.
    pub fn matches(&self, line: &str) -> (b: bool)
        requires
            self.wf(),
        ensures
            b == code_line_hit(self.pattern(), self.uses_regex(), line@),
    {
        match &self.re {
            Some(c) => c.is_match(line),
            None => str_contains(line, self.literal.as_str()),
        }
    }
}

/// A line without its trailing carriage return.
pub open spec fn strip_cr(l: Seq<char>) -> Seq<char> {
    if l.len() > 0 && l.last() == '\r' {
        l.drop_last()
    } else {
        l
    }
}

/// Lines completed so far, and the line being read.
pub open spec fn lines_state(s: Seq<char>) -> (Seq<Seq<char>>, Seq<char>)
    decreases s.len(),
{
    if s.len() == 0 {
        (Seq::empty(), Seq::empty())
    } else {
        let (done, cur) = lines_state(s.drop_last());
        if s.last() == '\n' {
            (done.push(strip_cr(cur)), Seq::empty())
        } else {
            (done, cur.push(s.last()))
        }
    }
}

/// The lines of a text (`str::lines`): split at `\n`, a `\r` before the
/// `\n` dropped, no empty line after a final `\n`.
pub open spec fn text_lines(s: Seq<char>) -> Seq<Seq<char>> {
    let (done, cur) = lines_state(s);
    if cur.len() > 0 {
        done.push(cur)
    } else {
        done
    }
}

/// The lines of a text.
pub fn split_lines(content: &str) -> (r: Vec<Vec<char>>)
    ensures
        r@.map_values(|l: Vec<char>| l@) == text_lines(content@),
{
    let cs = chars_of(content);
    let mut out: Vec<Vec<char>> = Vec::new();
    let mut cur: Vec<char> = Vec::new();
    let mut i: usize = 0;
    assert(cs@.subrange(0, 0) =~= Seq::<char>::empty());
    assert(out@.map_values(|l: Vec<char>| l@) =~= Seq::<Seq<char>>::empty());
    while i < cs.len()
        invariant
            i <= cs.len(),
            cs@ == content@,
            lines_state(cs@.subrange(0, i as int)) == (out@.map_values(|l: Vec<char>| l@), cur@),
        decreases cs.len() - i,
    {
        let ghost sub = cs@.subrange(0, (i + 1) as int);
        assert(sub.drop_last() =~= cs@.subrange(0, i as int));
        let c = cs[i];
        if c == '\n' {
            let mut line = cur;
            if line.len() > 0 && line[line.len() - 1] == '\r' {
                line.pop();
            }
            let ghost pre = out@.map_values(|l: Vec<char>| l@);
            let ghost lv = line@;
            out.push(line);
            assert(out@.map_values(|l: Vec<char>| l@) =~= pre.push(lv));
            cur = Vec::new();
            assert(cur@ =~= Seq::<char>::empty());
        } else {
            cur.push(c);
        }
        i = i + 1;
    }
    assert(cs@.subrange(0, cs@.len() as int) =~= cs@);
    if cur.len() > 0 {
        let ghost pre = out@.map_values(|l: Vec<char>| l@);
        let ghost cv = cur@;
        out.push(cur);
        assert(out@.map_values(|l: Vec<char>| l@) =~= pre.push(cv));
    }
    out
}

/// The matching lines with their zero-based numbers, in order.
pub open spec fn numbered_hits(lines: Seq<Seq<char>>, pattern: Seq<char>, use_regex: bool) -> Seq<(int, Seq<char>)>
    decreases lines.len(),
{
    if lines.len() == 0 {
        Seq::empty()
    } else {
        let prev = numbered_hits(lines.drop_last(), pattern, use_regex);
        if code_line_hit(pattern, use_regex, lines.last()) {
            prev.push(((lines.len() - 1) as int, lines.last()))
        } else {
            prev
        }
    }
}

pub open spec fn hits_view(v: Seq<(usize, String)>) -> Seq<(int, Seq<char>)> {
    v.map_values(|h: (usize, String)| (h.0 as int, h.1@))
}

fn check_line(
    m: &LineMatcher,
    line: Vec<char>,
    n: usize,
    out: &mut Vec<(usize, String)>,
    Ghost(lines): Ghost<Seq<Seq<char>>>,
)
    requires
        m.wf(),
        n == lines.len(),
        hits_view(old(out)@) == numbered_hits(lines, m.pattern(), m.uses_regex()),
        forall|k: int| 0 <= k < old(out)@.len() ==> old(out)@[k].0 < n,
    ensures
        hits_view(final(out)@) == numbered_hits(lines.push(line@), m.pattern(), m.uses_regex()),
        forall|k: int| 0 <= k < final(out)@.len() ==> final(out)@[k].0 <= n,
{
    let s = crate::text::string_from_chars(line.as_slice());
    let ghost l2 = lines.push(line@);
    assert(l2.drop_last() =~= lines);
    if m.matches(s.as_str()) {
        let ghost pre = hits_view(out@);
        out.push((n, s));
        assert(hits_view(out@) =~= pre.push((n as int, line@)));
    }
}

/// The lines of `content` that match, numbered from zero.
pub fn matching_lines(content: &str, m: &LineMatcher) -> (r: Vec<(usize, String)>)
    requires
        m.wf(),
    ensures
        hits_view(r@) == numbered_hits(text_lines(content@), m.pattern(), m.uses_regex()),
        forall|k: int| 0 <= k < r@.len() ==> r@[k].0 < content@.len(),
{
    let cs = chars_of(content);
    let mut out: Vec<(usize, String)> = Vec::new();
    let mut cur: Vec<char> = Vec::new();
    let mut n: usize = 0;
    let mut i: usize = 0;
    assert(cs@.subrange(0, 0) =~= Seq::<char>::empty());
    assert(hits_view(out@) =~= Seq::<(int, Seq<char>)>::empty());
    while i < cs.len()
        invariant
            i <= cs.len(),
            cs@ == content@,
            m.wf(),
            lines_state(cs@.subrange(0, i as int)) == (lines_state(cs@.subrange(0, i as int)).0, cur@),
            n == lines_state(cs@.subrange(0, i as int)).0.len(),
            n + cur@.len() <= i,
            hits_view(out@) == numbered_hits(lines_state(cs@.subrange(0, i as int)).0, m.pattern(), m.uses_regex()),
            forall|k: int| 0 <= k < out@.len() ==> out@[k].0 < n,
        decreases cs.len() - i,
    {
        let ghost sub = cs@.subrange(0, (i + 1) as int);
        assert(sub.drop_last() =~= cs@.subrange(0, i as int));
        let ghost done = lines_state(cs@.subrange(0, i as int)).0;
        let c = cs[i];
        if c == '\n' {
            let mut line = cur;
            if line.len() > 0 && line[line.len() - 1] == '\r' {
                line.pop();
            }
            assert(line@ == strip_cr(cur@));
            check_line(m, line, n, &mut out, Ghost(done));
            cur = Vec::new();
            n = n + 1;
            assert(cur@ =~= Seq::<char>::empty());
        } else {
            cur.push(c);
        }
        i = i + 1;
    }
    assert(cs@.subrange(0, cs@.len() as int) =~= cs@);
    if cur.len() > 0 {
        let ghost done = lines_state(cs@).0;
        check_line(m, cur, n, &mut out, Ghost(done));
    }
    out
}

/// The three output modes of `search_code`.
#[derive(Debug, Clone, Copy, PartialEq, Eq, Structural)]
pub enum SearchMode {
    Files,
    Full,
    Compact,
}

/// The mode a request names: `files`, `full`, otherwise compact.
pub fn search_mode(mode: &Option<String>) -> (r: SearchMode)
    ensures
        r == match mode {
            Some(m) => if m@ == "files"@ {
                SearchMode::Files
            } else if m@ == "full"@ {
                SearchMode::Full
            } else {
                SearchMode::Compact
            },
            None => SearchMode::Compact,
        },
{
    match mode {
        Some(m) => if str_eq(m.as_str(), "files") {
            SearchMode::Files
        } else if str_eq(m.as_str(), "full") {
            SearchMode::Full
        } else {
            SearchMode::Compact
        },
        None => SearchMode::Compact,
    }
}

/// How many results to gather: the requested limit (10 by default), at
/// least 1.
pub fn result_limit(limit: Option<i64>) -> (r: usize)
    ensures
        r == ({
            let l = match limit {
                Some(l) => l,
                None => 10,
            };
            (if l < 1 { 1i64 } else { l }) as usize
        }),
{
    let l: i64 = match limit {
        Some(l) => l,
        None => 10,
    };
    (if l < 1 { 1i64 } else { l }) as usize
}

/// `s` with every leading copy of `p` removed (`str::trim_start_matches`).
pub open spec fn trim_all_prefix(s: Seq<char>, p: Seq<char>) -> Seq<char>
    decreases s.len(),
{
    if p.len() > 0 && has_prefix(s, p) {
        trim_all_prefix(s.subrange(p.len() as int, s.len() as int), p)
    } else {
        s
    }
}

/// Whether a file takes part in the search: its path ends with the
/// extension pattern (a leading `*.` ignored), and matches the path regex.
pub open spec fn file_selected(path: Seq<char>, file_pattern: Seq<char>, path_filter: Option<Seq<char>>) -> bool {
    (file_pattern.len() == 0 || has_suffix(path, trim_all_prefix(file_pattern, "*."@))) && match path_filter {
        Some(p) => regex_matches(p, path),
        None => true,
    }
}

fn trim_star_dot(s: &str) -> (r: Vec<char>)
    ensures
        r@ == trim_all_prefix(s@, "*."@),
{
    proof {
        reveal_strlit("*.");
    }
    let cs = chars_of(s);
    let mut i: usize = 0;
    assert(cs@.subrange(0, 0 as int) =~= Seq::<char>::empty());
    assert(cs@.subrange(0, cs@.len() as int) =~= cs@);
    while i < cs.len() && cs.len() - i >= 2 && cs[i] == '*' && cs[i + 1] == '.'
        invariant
            i <= cs@.len(),
            cs@ == s@,
            trim_all_prefix(s@, "*."@) == trim_all_prefix(cs@.subrange(i as int, cs@.len() as int), "*."@),
        decreases cs.len() - i,
    {
        proof {
            reveal_strlit("*.");
        }
        let ghost rest = cs@.subrange(i as int, cs@.len() as int);
        assert(rest.subrange(0, 2) =~= "*."@);
        assert(rest.subrange(2, rest.len() as int) =~= cs@.subrange(i + 2, cs@.len() as int));
        i = i + 2;
    }
    let ghost rest = cs@.subrange(i as int, cs@.len() as int);
    proof {
        reveal_strlit("*.");
        if has_prefix(rest, "*."@) {
            assert(rest[0] == "*."@[0] && rest[1] == "*."@[1]);
        }
    }
    assert(!has_prefix(rest, "*."@));
    let mut out: Vec<char> = Vec::new();
    let start = i;
    while i < cs.len()
        invariant
            start <= i <= cs@.len(),
            out@ == cs@.subrange(start as int, i as int),
        decreases cs.len() - i,
    {
        out.push(cs[i]);
        i = i + 1;
        assert(out@ =~= cs@.subrange(start as int, i as int));
    }
    out
}

/// Whether a file takes part in the search.
pub fn file_passes(path: &str, file_pattern: &str, path_filter: &Option<CompiledRegex>) -> (b: bool)
    ensures
        b == file_selected(
            path@,
            file_pattern@,
            match path_filter {
                Some(c) => Some(c.source()),
                None => None,
            },
        ),
{
    if file_pattern.unicode_len() > 0 {
        let ext = trim_star_dot(file_pattern);
        let ext_s = crate::text::string_from_chars(ext.as_slice());
        if !str_ends_with(path, ext_s.as_str()) {
            return false;
        }
    }
    match path_filter {
        Some(c) => c.is_match(path),
        None => true,
    }
}

/// One reported match.
#[derive(Debug)]
pub struct CodeHit {
    pub file: String,
    /// One-based line number.
    pub line: usize,
    pub content: String,
    /// How many lines of the file matched (compact mode only).
    pub match_count: Option<usize>,
}

pub open spec fn code_hit_view(h: CodeHit) -> (Seq<char>, int, Seq<char>, Option<usize>) {
    (h.file@, h.line as int, h.content@, h.match_count)
}

pub open spec fn code_hits_view(v: Seq<CodeHit>) -> Seq<(Seq<char>, int, Seq<char>, Option<usize>)> {
    v.map_values(|h: CodeHit| code_hit_view(h))
}

/// The state of a code search: counts, gathered matches, gathered files.
#[derive(Debug)]
pub struct CodeSearch {
    pub mode: SearchMode,
    pub limit: usize,
    pub total_grep_matches: usize,
    pub results: Vec<CodeHit>,
    pub files: Vec<String>,
}

/// What gathering one file's matches adds: nothing for a file without
/// matches; otherwise, while fewer than `limit` results are held, the
/// file (files mode, once), every match (full mode), or the first match
/// with the match count (compact mode).
pub open spec fn gathered(
    mode: SearchMode,
    limit: usize,
    results: Seq<(Seq<char>, int, Seq<char>, Option<usize>)>,
    files: Seq<Seq<char>>,
    path: Seq<char>,
    hits: Seq<(int, Seq<char>)>,
) -> (Seq<(Seq<char>, int, Seq<char>, Option<usize>)>, Seq<Seq<char>>) {
    if hits.len() == 0 || results.len() >= limit {
        (results, files)
    } else {
        match mode {
            SearchMode::Files => (results, if files.contains(path) { files } else { files.push(path) }),
            SearchMode::Full => (results + hits.map_values(|h: (int, Seq<char>)| (path, h.0 + 1, h.1, None::<usize>)), files),
            SearchMode::Compact => (results.push((path, hits[0].0 + 1, hits[0].1, Some(hits.len() as usize))), files),
        }
    }
}

impl CodeSearch {
    pub fn new(mode: SearchMode, limit: usize) -> (s: CodeSearch)
        ensures
            s.mode == mode,
            s.limit == limit,
            s.total_grep_matches == 0,
            s.results@.len() == 0,
            s.files@.len() == 0,
    {
        CodeSearch { mode, limit, total_grep_matches: 0, results: Vec::new(), files: Vec::new() }
    }

    /// Adds the matches of one file.
    pub fn add_file(&mut self, path: String, hits: Vec<(usize, String)>)
        requires
            old(self).total_grep_matches + hits@.len() <= usize::MAX,
            forall|k: int| 0 <= k < hits@.len() ==> hits@[k].0 < usize::MAX,
        ensures
            final(self).mode == old(self).mode,
            final(self).limit == old(self).limit,
            final(self).total_grep_matches == old(self).total_grep_matches + hits@.len(),
            (code_hits_view(final(self).results@), final(self).files@.map_values(|f: String| f@)) == gathered(
                old(self).mode,
                old(self).limit,
                code_hits_view(old(self).results@),
                old(self).files@.map_values(|f: String| f@),
                path@,
                hits_view(hits@),
            ),
    {
        let ghost rv = code_hits_view(self.results@);
        let ghost fv = self.files@.map_values(|f: String| f@);
        let ghost hv = hits_view(hits@);
        if hits.len() == 0 {
            return;
        }
        self.total_grep_matches = self.total_grep_matches + hits.len();
        if self.results.len() >= self.limit {
            return;
        }
        match self.mode {
            SearchMode::Files => {
                let mut found = false;
                let mut i: usize = 0;
                while i < self.files.len()
                    invariant
                        i <= self.files.len(),
                        self.mode == old(self).mode,
                        self.limit == old(self).limit,
                        self.total_grep_matches == old(self).total_grep_matches + hits@.len(),
                        self.results@ == old(self).results@,
                        self.files@ == old(self).files@,
                        fv == self.files@.map_values(|f: String| f@),
                        !found ==> forall|k: int| 0 <= k < i ==> fv[k] != path@,
                        found ==> fv.contains(path@),
                    decreases self.files.len() - i,
                {
                    if str_eq(self.files[i].as_str(), path.as_str()) {
                        assert(fv[i as int] == path@);
                        found = true;
                    }
                    i = i + 1;
                }
                if !found {
                    let ghost pv = path@;
                    self.files.push(path);
                    assert(self.files@.map_values(|f: String| f@) =~= fv.push(pv));
                }
            },
            SearchMode::Full => {
                let n = hits.len();
                let mut hits = hits;
                let mut j: usize = 0;
                let ghost base = code_hits_view(self.results@);
                let ghost full = hv.map_values(|h: (int, Seq<char>)| (path@, h.0 + 1, h.1, None::<usize>));
                while j < n
                    invariant
                        j <= n == hits@.len(),
                        self.mode == old(self).mode,
                        self.limit == old(self).limit,
                        self.mode == SearchMode::Full,
                        self.total_grep_matches == old(self).total_grep_matches + hits@.len(),
                        self.files@ == old(self).files@,
                        old(self).results@.len() < old(self).limit,
                        base == code_hits_view(old(self).results@),
                        hv == hits_view(hits@),
                        full == hv.map_values(|h: (int, Seq<char>)| (path@, h.0 + 1, h.1, None::<usize>)),
                        forall|k: int| 0 <= k < hits@.len() ==> hits@[k].0 < usize::MAX,
                        code_hits_view(self.results@) == base + full.subrange(0, j as int),
                    decreases n - j,
                {
                    let h = CodeHit { file: path.clone(), line: hits[j].0 + 1, content: hits[j].1.clone(), match_count: None };
                    let ghost pre = code_hits_view(self.results@);
                    self.results.push(h);
                    j = j + 1;
                    assert(code_hits_view(self.results@) =~= pre.push(full[j - 1]));
                    assert(full.subrange(0, j as int) =~= full.subrange(0, (j - 1) as int).push(full[j - 1]));
                }
                assert(full.subrange(0, n as int) =~= full);
            },
            SearchMode::Compact => {
                let h = CodeHit { file: path.clone(), line: hits[0].0 + 1, content: hits[0].1.clone(), match_count: Some(hits.len()) };
                let ghost pre = code_hits_view(self.results@);
                self.results.push(h);
                assert(code_hits_view(self.results@) =~= pre.push((path@, hv[0].0 + 1, hv[0].1, Some(hits@.len() as usize))));
            },
        }
    }
}

} // verus!
