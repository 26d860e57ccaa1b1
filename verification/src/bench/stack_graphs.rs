//! Parsing of the stack-graphs resolver's batched `query definition`
//! output into resolved definition positions.

use vstd::prelude::*;
use crate::bench::scip_refs::RefKey;
use crate::fqn::{path_relative_to, strip_root};
use crate::mcp::code::text_lines;
use crate::text::{
    chars_of, chars_slice, char_is_whitespace, has_prefix, is_unicode_ws, last_occurrence, matches_at_pub,
    occurs_at, parse_i32, parse_i32_chars, rfind_chars, skip_ws, string_from_chars, trim_start, trim_start_chars,
};

verus! {

/// A language's stack-graphs command-line tool.
#[derive(Debug, Clone, Copy)]
pub struct LangAdapter {
    pub lang: &'static str,
    pub bin: &'static str,
}

impl LangAdapter {
    pub fn python() -> (a: LangAdapter)
        ensures
            a.lang@ == "python"@,
            a.bin@ == "tree-sitter-stack-graphs-python"@,
    {
        LangAdapter { lang: "python", bin: "tree-sitter-stack-graphs-python" }
    }

    pub fn typescript() -> (a: LangAdapter)
        ensures
            a.lang@ == "typescript"@,
            a.bin@ == "tree-sitter-stack-graphs-typescript"@,
    {
        LangAdapter { lang: "typescript", bin: "tree-sitter-stack-graphs-typescript" }
    }

    pub fn javascript() -> (a: LangAdapter)
        ensures
            a.lang@ == "javascript"@,
            a.bin@ == "tree-sitter-stack-graphs-javascript"@,
    {
        LangAdapter { lang: "javascript", bin: "tree-sitter-stack-graphs-javascript" }
    }

    pub fn java() -> (a: LangAdapter)
        ensures
            a.lang@ == "java"@,
            a.bin@ == "tree-sitter-stack-graphs-java"@,
    {
        LangAdapter { lang: "java", bin: "tree-sitter-stack-graphs-java" }
    }
}

/// One resolved definition: path relative to the corpus root, 0-based line
/// and column.
#[derive(Debug, Clone)]
pub struct Resolved {
    pub path: String,
    pub line: i32,
    pub col: i32,
}

pub type ResolvedV = (Seq<char>, i32, i32);

impl View for Resolved {
    type V = ResolvedV;

    open spec fn view(&self) -> ResolvedV {
        (self.path@, self.line, self.col)
    }
}

/// The first position at or after `i` where `n` occurs in `h`, or -1.
pub open spec fn first_occurrence(h: Seq<char>, n: Seq<char>, i: int) -> int
    decreases h.len() + 1 - i,
{
    if i < 0 || i + n.len() > h.len() {
        -1
    } else if occurs_at(h, n, i) {
        i
    } else {
        first_occurrence(h, n, i + 1)
    }
}

/// `s.rsplitn(3, ':')` read as `path:line:col`: the pieces around the last
/// two colons.
pub open spec fn split_position(s: Seq<char>) -> Option<(Seq<char>, Seq<char>, Seq<char>)> {
    let c1 = last_occurrence(s, ":"@, s.len() - 1);
    if c1 < 0 {
        None
    } else {
        let rest = s.subrange(0, c1);
        let c2 = last_occurrence(rest, ":"@, rest.len() - 1);
        if c2 < 0 {
            None
        } else {
            Some((rest.subrange(0, c2), rest.subrange(c2 + 1, rest.len() as int), s.subrange(c1 + 1, s.len() as int)))
        }
    }
}

/// The `path:line:col` of a header line `<abs path>:L:C: <status>`.
pub open spec fn header_pos(line: Seq<char>) -> Option<(Seq<char>, i32, i32)> {
    if !(line.len() > 0 && line[0] == '/') {
        None
    } else {
        let i = first_occurrence(line, ": "@, 0);
        if i < 0 {
            None
        } else {
            match split_position(line.subrange(0, i)) {
                None => None,
                Some((p, l, c)) => match (parse_i32(l), parse_i32(c)) {
                    (Some(ln), Some(cn)) => Some((p, ln, cn)),
                    _ => None,
                },
            }
        }
    }
}

proof fn first_occurrence_range(h: Seq<char>, n: Seq<char>, i: int)
    requires
        0 <= i,
    ensures
        first_occurrence(h, n, i) == -1 || (i <= first_occurrence(h, n, i) && occurs_at(h, n, first_occurrence(h, n, i))),
    decreases h.len() + 1 - i,
{
    if i + n.len() <= h.len() && !occurs_at(h, n, i) {
        first_occurrence_range(h, n, i + 1);
    }
}

fn find_first(h: &Vec<char>, n: &Vec<char>) -> (r: Option<usize>)
    ensures
        match r {
            Some(k) => k as int == first_occurrence(h@, n@, 0) && k + n@.len() <= h@.len(),
            None => first_occurrence(h@, n@, 0) == -1,
        },
{
    if n.len() > h.len() {
        return None;
    }
    let last = h.len() - n.len();
    let mut i: usize = 0;
    loop
        invariant
            i <= last,
            last == h@.len() - n@.len(),
            first_occurrence(h@, n@, 0) == first_occurrence(h@, n@, i as int),
        decreases last - i,
    {
        if matches_at_pub(h, n, i) {
            assert(occurs_at(h@, n@, i as int));
            return Some(i);
        }
        if i == last {
            assert(first_occurrence(h@, n@, (i + 1) as int) == -1);
            return None;
        }
        i = i + 1;
    }
}

fn split_position_exec(s: &Vec<char>) -> (r: Option<(Vec<char>, Vec<char>, Vec<char>)>)
    ensures
        match r {
            Some((p, l, c)) => split_position(s@) == Some((p@, l@, c@)),
            None => split_position(s@) is None,
        },
{
    let colon = chars_of(":");
    proof {
        reveal_strlit(":");
    }
    assert(colon@.len() == 1);
    let n = s.len();
    let c1 = match rfind_chars(s, &colon) {
        Some(k) => k,
        None => { return None; },
    };
    let rest = chars_slice(s, 0, c1);
    let col = chars_slice(s, c1 + 1, n);
    let c2 = match rfind_chars(&rest, &colon) {
        Some(k) => k,
        None => { return None; },
    };
    let path = chars_slice(&rest, 0, c2);
    let line = chars_slice(&rest, c2 + 1, c1);
    Some((path, line, col))
}

fn header_pos_exec(line: &Vec<char>) -> (r: Option<(Vec<char>, i32, i32)>)
    ensures
        match r {
            Some((p, l, c)) => header_pos(line@) == Some((p@, l, c)),
            None => header_pos(line@) is None,
        },
{
    if !(line.len() > 0 && line[0] == '/') {
        return None;
    }
    let sep = chars_of(": ");
    let i = match find_first(line, &sep) {
        Some(i) => i,
        None => { return None; },
    };
    let left = chars_slice(line, 0, i);
    match split_position_exec(&left) {
        None => None,
        Some((p, l, c)) => match (parse_i32_chars(&l), parse_i32_chars(&c)) {
            (Some(ln), Some(cn)) => Some((p, ln, cn)),
            _ => None,
        },
    }
}

/// Parses `<abs-path>:<L>:<C>: ...` from a header line: the path and the
/// 1-based line and column.
pub fn parse_header_pos(line: &str) -> (r: Option<(String, i32, i32)>)
    ensures
        match r {
            Some((p, l, c)) => header_pos(line@) == Some((p@, l, c)),
            None => header_pos(line@) is None,
        },
{
    let cs = chars_of(line);
    match header_pos_exec(&cs) {
        Some((p, l, c)) => Some((string_from_chars(p.as_slice()), l, c)),
        None => None,
    }
}


/// Index of the `k`-th `:` (k ≥ 1) at or after `i`, or -1.
pub open spec fn colon_index(l: Seq<char>, k: int, i: int) -> int
    decreases l.len() - i,
{
    if i < 0 || i >= l.len() {
        -1
    } else if l[i] == ':' {
        if k <= 1 {
            i
        } else {
            colon_index(l, k - 1, i + 1)
        }
    } else {
        colon_index(l, k, i + 1)
    }
}

/// A block header: `/…` with a space right after its third colon.
pub open spec fn is_header_line(l: Seq<char>) -> bool {
    let j = colon_index(l, 3, 0);
    l.len() > 0 && l[0] == '/' && j >= 0 && j + 1 < l.len() && l[j + 1] == ' '
}

/// Blocks completed so far, and the block being read.
pub open spec fn group_state(lines: Seq<Seq<char>>) -> (Seq<Seq<Seq<char>>>, Seq<Seq<char>>)
    decreases lines.len(),
{
    if lines.len() == 0 {
        (Seq::empty(), Seq::empty())
    } else {
        let (blocks, cur) = group_state(lines.drop_last());
        if is_header_line(lines.last()) && cur.len() > 0 {
            (blocks.push(cur), seq![lines.last()])
        } else {
            (blocks, cur.push(lines.last()))
        }
    }
}

/// The output split into blocks, each starting at a header line.
pub open spec fn output_blocks(lines: Seq<Seq<char>>) -> Seq<Seq<Seq<char>>> {
    let (blocks, cur) = group_state(lines);
    if cur.len() > 0 {
        blocks.push(cur)
    } else {
        blocks
    }
}

/// `s` without trailing colons.
pub open spec fn trim_end_colons(s: Seq<char>) -> Seq<char>
    decreases s.len(),
{
    if s.len() > 0 && s.last() == ':' {
        trim_end_colons(s.drop_last())
    } else {
        s
    }
}

/// First whitespace at or after `i`, or the length.
pub open spec fn ws_index(t: Seq<char>, i: int) -> int
    decreases t.len() - i,
{
    if i < 0 || i >= t.len() {
        t.len() as int
    } else if is_unicode_ws(t[i]) {
        i
    } else {
        ws_index(t, i + 1)
    }
}

/// A resolved path made relative to the canonical root, else to the root
/// as given, else kept.
pub open spec fn relative_path(path: Seq<char>, canon: Seq<char>, root: Seq<char>) -> Seq<char> {
    match path_relative_to(path, canon) {
        Some(r) => r,
        None => match path_relative_to(path, root) {
            Some(r) => r,
            None => path,
        },
    }
}

/// One less, wrapping at the bottom of the `i32` range.
pub open spec fn minus_one(x: i32) -> i32 {
    if x == i32::MIN {
        i32::MAX
    } else {
        (x - 1) as i32
    }
}

/// The resolution found in a block's lines from `i` on: the first position
/// line after a `has definition` marker that parses and is not the queried
/// position itself.
pub open spec fn resolve_scan(
    lines: Seq<Seq<char>>,
    i: int,
    found: bool,
    echo: Option<(Seq<char>, i32, i32)>,
    canon: Seq<char>,
    root: Seq<char>,
) -> Option<ResolvedV>
    decreases lines.len() - i,
{
    if i < 0 || i >= lines.len() {
        None
    } else {
        let t = trim_start(lines[i]);
        if has_prefix(t, "has definition"@) {
            resolve_scan(lines, i + 1, true, echo, canon, root)
        } else if !found || t.len() == 0 || t[0] != '/' {
            resolve_scan(lines, i + 1, found, echo, canon, root)
        } else {
            let head = trim_end_colons(t.subrange(0, ws_index(t, 0)));
            match split_position(head) {
                None => resolve_scan(lines, i + 1, found, echo, canon, root),
                Some((p, l, c)) => match (parse_i32(l), parse_i32(c)) {
                    (Some(ln), Some(cn)) => if echo == Some((p, ln, cn)) {
                        resolve_scan(lines, i + 1, found, echo, canon, root)
                    } else {
                        Some((relative_path(p, canon, root), minus_one(ln), minus_one(cn)))
                    },
                    _ => resolve_scan(lines, i + 1, found, echo, canon, root),
                },
            }
        }
    }
}

/// The resolution a block reports.
pub open spec fn block_resolution(block: Seq<Seq<char>>, canon: Seq<char>, root: Seq<char>) -> Option<ResolvedV> {
    let first = if block.len() > 0 { block[0] } else { Seq::empty() };
    resolve_scan(block, 1, false, header_pos(first), canon, root)
}

pub open spec fn opt_resolved_view(o: Option<Resolved>) -> Option<ResolvedV> {
    match o {
        Some(r) => Some(r@),
        None => None,
    }
}

fn resolve_line(
    line: &Vec<char>,
    found: bool,
    echo: &Option<(Vec<char>, i32, i32)>,
    canon: &Vec<char>,
    root: &Vec<char>,
) -> (r: (bool, Option<Resolved>))
    ensures
        ({
            let t = trim_start(line@);
            let ev = match echo {
                Some((p, l, c)) => Some((p@, *l, *c)),
                None => None,
            };
            if has_prefix(t, "has definition"@) {
                r == (true, None::<Resolved>)
            } else if !found || t.len() == 0 || t[0] != '/' {
                r.0 == found && r.1 is None
            } else {
                r.0 == found && opt_resolved_view(r.1) == match split_position(trim_end_colons(t.subrange(0, ws_index(t, 0)))) {
                    None => None,
                    Some((p, l, c)) => match (parse_i32(l), parse_i32(c)) {
                        (Some(ln), Some(cn)) => if ev == Some((p, ln, cn)) {
                            None
                        } else {
                            Some((relative_path(p, canon@, root@), minus_one(ln), minus_one(cn)))
                        },
                        _ => None,
                    },
                }
            }
        }),
{
    let t = trim_start_chars(line);
    let marker = chars_of("has definition");
    if matches_at_pub(&t, &marker, 0) {
        assert(has_prefix(t@, "has definition"@) == occurs_at(t@, "has definition"@, 0));
        return (true, None);
    }
    assert(!has_prefix(t@, "has definition"@));
    if !found || t.len() == 0 || t[0] != '/' {
        return (found, None);
    }
    let mut w: usize = 0;
    while w < t.len() && !char_is_whitespace(t[w])
        invariant
            w <= t@.len(),
            ws_index(t@, 0) == ws_index(t@, w as int),
        decreases t.len() - w,
    {
        w = w + 1;
    }
    let mut e: usize = w;
    let ghost head0 = t@.subrange(0, w as int);
    assert(head0.subrange(0, head0.len() as int) =~= head0);
    while e > 0 && t[e - 1] == ':'
        invariant
            e <= w <= t@.len(),
            head0 == t@.subrange(0, w as int),
            trim_end_colons(head0) == trim_end_colons(t@.subrange(0, e as int)),
        decreases e,
    {
        assert(t@.subrange(0, e as int).drop_last() =~= t@.subrange(0, e - 1));
        e = e - 1;
    }
    let head = chars_slice(&t, 0, e);
    assert(trim_end_colons(head@) == head@);
    let (p, l, c) = match split_position_exec(&head) {
        Some(x) => x,
        None => { return (found, None); },
    };
    let ln = match parse_i32_chars(&l) {
        Some(v) => v,
        None => { return (found, None); },
    };
    let cn = match parse_i32_chars(&c) {
        Some(v) => v,
        None => { return (found, None); },
    };
    match echo {
        Some((ep, el, ec)) => {
            if *el == ln && *ec == cn && crate::text::chars_equal(ep.as_slice(), p.as_slice()) {
                return (found, None);
            }
        },
        None => {},
    }
    let ps = string_from_chars(p.as_slice());
    let rel = match strip_root(ps.as_str(), string_from_chars(canon.as_slice()).as_str()) {
        Some(r) => r,
        None => match strip_root(ps.as_str(), string_from_chars(root.as_slice()).as_str()) {
            Some(r) => r,
            None => ps,
        },
    };
    let line_out = if ln == i32::MIN { i32::MAX } else { ln - 1 };
    let col_out = if cn == i32::MIN { i32::MAX } else { cn - 1 };
    (found, Some(Resolved { path: rel, line: line_out, col: col_out }))
}

/// The resolved definition a block reports, if any.
pub fn extract_resolved_from_block(block: &Vec<Vec<char>>, canon: &Vec<char>, root: &Vec<char>) -> (r: Option<Resolved>)
    ensures
        opt_resolved_view(r) == block_resolution(block@.map_values(|l: Vec<char>| l@), canon@, root@),
{
    let ghost bv = block@.map_values(|l: Vec<char>| l@);
    let first: Vec<char> = if block.len() > 0 { chars_slice(&block[0], 0, block[0].len()) } else { Vec::new() };
    proof {
        if block@.len() > 0 {
            assert(block@[0]@.subrange(0, block@[0]@.len() as int) =~= block@[0]@);
        }
    }
    assert(first@ == if bv.len() > 0 { bv[0] } else { Seq::<char>::empty() });
    let echo = header_pos_exec(&first);
    let ghost ev = header_pos(first@);
    let mut found = false;
    let mut i: usize = 1;
    if block.len() == 0 {
        return None;
    }
    while i < block.len()
        invariant
            1 <= i <= block@.len(),
            bv == block@.map_values(|l: Vec<char>| l@),
            ev == match echo {
                Some((p, l, c)) => Some((p@, l, c)),
                None => None,
            },
            block_resolution(bv, canon@, root@) == resolve_scan(bv, i as int, found, ev, canon@, root@),
        decreases block.len() - i,
    {
        assert(bv[i as int] == block@[i as int]@);
        let (f2, r) = resolve_line(&block[i], found, &echo, canon, root);
        match r {
            Some(res) => {
                return Some(res);
            },
            None => {},
        }
        found = f2;
        i = i + 1;
    }
    None
}

fn is_header_exec(l: &Vec<char>) -> (b: bool)
    ensures
        b == is_header_line(l@),
{
    if l.len() == 0 || l[0] != '/' {
        return false;
    }
    let mut k: usize = 3;
    let mut i: usize = 0;
    while i < l.len()
        invariant
            1 <= k <= 3,
            i <= l@.len(),
            l@.len() > 0 && l@[0] == '/',
            colon_index(l@, 3, 0) == colon_index(l@, k as int, i as int),
        decreases l.len() - i,
    {
        if l[i] == ':' {
            if k == 1 {
                return i + 1 < l.len() && l[i + 1] == ' ';
            }
            k = k - 1;
        }
        i = i + 1;
    }
    false
}

/// Parses batched resolver output into one entry per queried position in
/// `keys`: the `i`-th block's resolution, `None` past the last block. Each
/// entry depends on its own block alone.
pub fn parse_batch_output(stdout: &str, canon: &str, root: &str, keys: &[RefKey]) -> (r: Vec<Option<Resolved>>)
    ensures
        r@.len() == keys@.len(),
        forall|i: int| 0 <= i < keys@.len() ==> opt_resolved_view(#[trigger] r@[i]) == ({
            let bs = output_blocks(text_lines(stdout@));
            if i < bs.len() {
                block_resolution(bs[i], canon@, root@)
            } else {
                None
            }
        }),
{
    let n_keys = keys.len();
    let lines = crate::mcp::code::split_lines(stdout);
    let ghost lv = lines@.map_values(|l: Vec<char>| l@);
    let mut blocks: Vec<Vec<Vec<char>>> = Vec::new();
    let mut cur: Vec<Vec<char>> = Vec::new();
    let mut i: usize = 0;
    assert(lv.subrange(0, 0) =~= Seq::<Seq<char>>::empty());
    assert(blocks@.map_values(|b: Vec<Vec<char>>| b@.map_values(|l: Vec<char>| l@)) =~= Seq::<Seq<Seq<char>>>::empty());
    assert(cur@.map_values(|l: Vec<char>| l@) =~= Seq::<Seq<char>>::empty());
    while i < lines.len()
        invariant
            i <= lines.len(),
            lv == lines@.map_values(|l: Vec<char>| l@),
            group_state(lv.subrange(0, i as int)) == (
                blocks@.map_values(|b: Vec<Vec<char>>| b@.map_values(|l: Vec<char>| l@)),
                cur@.map_values(|l: Vec<char>| l@),
            ),
        decreases lines.len() - i,
    {
        let ghost sub = lv.subrange(0, (i + 1) as int);
        assert(sub.drop_last() =~= lv.subrange(0, i as int));
        assert(sub.last() == lines@[i as int]@);
        let line = chars_slice(&lines[i], 0, lines[i].len());
        assert(line@ =~= lines@[i as int]@);
        let ghost bprev = blocks@.map_values(|b: Vec<Vec<char>>| b@.map_values(|l: Vec<char>| l@));
        let ghost cprev = cur@.map_values(|l: Vec<char>| l@);
        if is_header_exec(&line) && cur.len() > 0 {
            let done = cur;
            blocks.push(done);
            cur = Vec::new();
            let ghost lvv = line@;
            cur.push(line);
            assert(blocks@.map_values(|b: Vec<Vec<char>>| b@.map_values(|l: Vec<char>| l@)) =~= bprev.push(cprev));
            assert(cur@.map_values(|l: Vec<char>| l@) =~= seq![lvv]);
        } else {
            let ghost lvv = line@;
            cur.push(line);
            assert(cur@.map_values(|l: Vec<char>| l@) =~= cprev.push(lvv));
        }
        i = i + 1;
    }
    assert(lv.subrange(0, lv.len() as int) =~= lv);
    if cur.len() > 0 {
        let ghost bprev = blocks@.map_values(|b: Vec<Vec<char>>| b@.map_values(|l: Vec<char>| l@));
        let ghost cprev = cur@.map_values(|l: Vec<char>| l@);
        blocks.push(cur);
        assert(blocks@.map_values(|b: Vec<Vec<char>>| b@.map_values(|l: Vec<char>| l@)) =~= bprev.push(cprev));
    }
    let ghost bs = blocks@.map_values(|b: Vec<Vec<char>>| b@.map_values(|l: Vec<char>| l@));
    assert(bs == output_blocks(text_lines(stdout@)));
    let canon_c = chars_of(canon);
    let root_c = chars_of(root);
    let mut out: Vec<Option<Resolved>> = Vec::new();
    let mut k: usize = 0;
    while k < n_keys
        invariant
            k <= n_keys,
            bs == blocks@.map_values(|b: Vec<Vec<char>>| b@.map_values(|l: Vec<char>| l@)),
            bs == output_blocks(text_lines(stdout@)),
            canon_c@ == canon@,
            root_c@ == root@,
            out@.len() == k,
            forall|j: int| 0 <= j < k ==> opt_resolved_view(#[trigger] out@[j]) == if j < bs.len() {
                block_resolution(bs[j], canon@, root@)
            } else {
                None
            },
        decreases n_keys - k,
    {
        if k < blocks.len() {
            assert(bs[k as int] == blocks@[k as int]@.map_values(|l: Vec<char>| l@));
            out.push(extract_resolved_from_block(&blocks[k], &canon_c, &root_c));
        } else {
            out.push(None);
        }
        k = k + 1;
    }
    out
}

} // verus!
