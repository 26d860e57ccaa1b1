//! Pass 4 — HTTP routes: the routes read off a framework's route query,
//! and the route nodes and route-to-handler edges they give.
//!
//! A route node's FQN is `METHOD pattern`. Its handler is resolved in the
//! file's module scope; an anonymous inline handler gives a route node
//! without an edge.

use vstd::prelude::*;
use crate::pipeline::channels::{EdgeWriteEvent, NodeWriteEvent, NodeWriteEventV};
use crate::pipeline::pass2::{rel_path, relative_path};
use crate::pipeline::pass3::{
    QueryCapture, QueryCaptureV, SymbolTable, SymbolTableV, query_matches_view, match_view, spec_resolve_short,
    spec_strip_quotes,
};
use crate::store::{NodeKind, NodeRecord, NodeRecordV, node_id, spec_node_id};
use crate::text::{chars_of, chars_slice, str_eq, string_from_chars, trim_chars};

verus! {

/// The Unicode upper-case form of a string.
pub uninterp spec fn uppercased(s: Seq<char>) -> Seq<char>;

/// Calls `str::to_uppercase`: the Unicode upper-case form of `s`.
#[verifier::external_body]
fn to_uppercase(s: &str) -> (r: String)
    ensures
        r@ == uppercased(s@),
{
    s.to_uppercase()
}

/// Strips whitespace, then one pair of matching quotes or backticks.
pub fn strip_route_quotes(s: &str) -> (r: String)
    ensures
        r@ == spec_strip_quotes(s@),
{
    let cs = chars_of(s);
    let t = trim_chars(&cs);
    let n = t.len();
    if n >= 2 && (t[0] == '"' || t[0] == '\'' || t[0] == '`') && t[n - 1] == t[0] {
        let inner = chars_slice(&t, 1, n - 1);
        string_from_chars(inner.as_slice())
    } else {
        string_from_chars(t.as_slice())
    }
}

/// One route found in a file.
pub struct RouteMatch {
    pub method: String,
    pub pattern: String,
    /// The named handler; `None` for an anonymous one.
    pub handler_name: Option<String>,
    pub byte_start: u32,
    pub byte_end: u32,
    /// 1-based line of an inline handler, 0 when there is none.
    pub handler_line: u32,
}

pub struct RouteMatchV {
    pub method: Seq<char>,
    pub pattern: Seq<char>,
    pub handler_name: Option<Seq<char>>,
    pub byte_start: u32,
    pub byte_end: u32,
    pub handler_line: u32,
}

impl View for RouteMatch {
    type V = RouteMatchV;

    open spec fn view(&self) -> RouteMatchV {
        RouteMatchV {
            method: self.method@,
            pattern: self.pattern@,
            handler_name: match self.handler_name {
                Some(h) => Some(h@),
                None => None,
            },
            byte_start: self.byte_start,
            byte_end: self.byte_end,
            handler_line: self.handler_line,
        }
    }
}

pub open spec fn route_matches_view(v: Seq<RouteMatch>) -> Seq<RouteMatchV> {
    v.map_values(|r: RouteMatch| r@)
}

/// What a route match has read so far.
pub struct RouteRead {
    pub method: Option<Seq<char>>,
    pub pattern: Option<Seq<char>>,
    pub handler: Option<Seq<char>>,
    pub start: u32,
    pub end: u32,
    pub line: u32,
}

/// Reads the captures of one match: the extent of all captures (a start
/// of 0 counts as unset), the method upper-cased, the pattern without
/// quotes, the handler name, and the line of an inline handler.
pub open spec fn read_route(caps: Seq<QueryCaptureV>) -> RouteRead
    decreases caps.len(),
{
    if caps.len() == 0 {
        RouteRead { method: None, pattern: None, handler: None, start: 0, end: 0, line: 0 }
    } else {
        let r = read_route(caps.drop_last());
        let c = caps.last();
        let s = c.start_byte as u32;
        let e = c.end_byte as u32;
        let start = if r.start == 0 || s < r.start {
            s
        } else {
            r.start
        };
        let end = if e > r.end {
            e
        } else {
            r.end
        };
        if c.name == "route.method"@ {
            RouteRead { method: Some(uppercased(c.text)), start, end, ..r }
        } else if c.name == "route.pattern"@ {
            RouteRead { pattern: Some(spec_strip_quotes(c.text)), start, end, ..r }
        } else if c.name == "route.handler"@ {
            RouteRead { handler: Some(c.text), start, end, ..r }
        } else if c.name == "route.inline_handler"@ {
            RouteRead { line: (c.row as u32 + 1) as u32, start, end, ..r }
        } else {
            RouteRead { start, end, ..r }
        }
    }
}

/// The routes of a file: one per match with both a method and a pattern.
pub open spec fn routes_of(ms: Seq<Seq<QueryCaptureV>>) -> Seq<RouteMatchV>
    decreases ms.len(),
{
    if ms.len() == 0 {
        Seq::empty()
    } else {
        let prev = routes_of(ms.drop_last());
        let r = read_route(ms.last());
        match (r.method, r.pattern) {
            (Some(m), Some(p)) => prev.push(
                RouteMatchV {
                    method: m,
                    pattern: p,
                    handler_name: r.handler,
                    byte_start: r.start,
                    byte_end: r.end,
                    handler_line: r.line,
                },
            ),
            _ => prev,
        }
    }
}

/// Every inline-handler capture starts on a row whose 1-based number fits
/// in a `u32`.
pub open spec fn rows_fit(ms: Seq<Seq<QueryCaptureV>>) -> bool {
    forall|i: int, j: int|
        0 <= i < ms.len() && 0 <= j < ms[i].len() && (#[trigger] ms[i][j]).name == "route.inline_handler"@
            ==> (ms[i][j].row as u32) < u32::MAX
}

/// The routes read off a route query's matches.
pub fn extract_routes(matches: &Vec<Vec<QueryCapture>>) -> (r: Vec<RouteMatch>)
    requires
        rows_fit(query_matches_view(matches@)),
    ensures
        route_matches_view(r@) == routes_of(query_matches_view(matches@)),
{
    let ghost mv = query_matches_view(matches@);
    let mut out: Vec<RouteMatch> = Vec::new();
    let mut i: usize = 0;
    assert(mv.subrange(0, 0) =~= Seq::<Seq<QueryCaptureV>>::empty());
    while i < matches.len()
        invariant
            i <= matches@.len(),
            mv == query_matches_view(matches@),
            rows_fit(mv),
            route_matches_view(out@) == routes_of(mv.subrange(0, i as int)),
        decreases matches.len() - i,
    {
        let ghost pre = mv.subrange(0, (i + 1) as int);
        assert(pre.drop_last() =~= mv.subrange(0, i as int));
        let caps = &matches[i];
        let ghost cv = match_view(caps@);
        assert(pre.last() == cv);
        let mut method: Option<String> = None;
        let mut pattern: Option<String> = None;
        let mut handler: Option<String> = None;
        let mut start: u32 = 0;
        let mut end: u32 = 0;
        let mut line: u32 = 0;
        let mut j: usize = 0;
        assert(cv.subrange(0, 0) =~= Seq::<QueryCaptureV>::empty());
        while j < caps.len()
            invariant
                j <= caps@.len(),
                cv == match_view(caps@),
                cv == mv[i as int],
                i < mv.len(),
                rows_fit(mv),
                ({
                    let r = read_route(cv.subrange(0, j as int));
                    &&& r.method == match method {
                        Some(x) => Some(x@),
                        None => None,
                    }
                    &&& r.pattern == match pattern {
                        Some(x) => Some(x@),
                        None => None,
                    }
                    &&& r.handler == match handler {
                        Some(x) => Some(x@),
                        None => None,
                    }
                    &&& r.start == start
                    &&& r.end == end
                    &&& r.line == line
                }),
            decreases caps.len() - j,
        {
            let ghost cpre = cv.subrange(0, (j + 1) as int);
            assert(cpre.drop_last() =~= cv.subrange(0, j as int));
            let c = &caps[j];
            assert(cpre.last() == c@);
            let s = c.start_byte as u32;
            let e = c.end_byte as u32;
            if start == 0 || s < start {
                start = s;
            }
            if e > end {
                end = e;
            }
            let name = c.name.as_str();
            if str_eq(name, "route.method") {
                method = Some(to_uppercase(c.text.as_str()));
            } else if str_eq(name, "route.pattern") {
                pattern = Some(strip_route_quotes(c.text.as_str()));
            } else if str_eq(name, "route.handler") {
                handler = Some(c.text.clone());
            } else if str_eq(name, "route.inline_handler") {
                assert(mv[i as int][j as int] == c@);
                line = c.row as u32 + 1;
            }
            j = j + 1;
        }
        assert(cv.subrange(0, cv.len() as int) =~= cv);
        match (method, pattern) {
            (Some(m), Some(p)) => {
                let rm = RouteMatch {
                    method: m,
                    pattern: p,
                    handler_name: handler,
                    byte_start: start,
                    byte_end: end,
                    handler_line: line,
                };
                let ghost before = route_matches_view(out@);
                out.push(rm);
                assert(route_matches_view(out@) =~= before.push(rm@));
            },
            _ => {},
        }
        i = i + 1;
    }
    assert(mv.subrange(0, mv.len() as int) =~= mv);
    out
}

/// The FQN of a route node.
pub open spec fn route_fqn(r: RouteMatchV) -> Seq<char> {
    r.method + " "@ + r.pattern
}

/// The route node of a route, and the edge to its handler when the handler
/// is named and resolves in the file's module scope.
pub open spec fn spec_route_write(t: SymbolTableV, root: Seq<char>, file: Seq<char>, r: RouteMatchV) -> (
    NodeWriteEventV,
    Option<(u64, u64, u8)>,
) {
    let rel = rel_path(file, root);
    let id = spec_node_id(rel, route_fqn(r), NodeKind::Route, r.byte_start);
    let node = NodeWriteEventV {
        id,
        record: NodeRecordV { fqn: route_fqn(r), kind: NodeKind::Route, file: rel, byte_start: r.byte_start, byte_end: r.byte_end },
    };
    let edge = match r.handler_name {
        Some(h) => match spec_resolve_short(t, h, file) {
            Some(hid) => Some((id, hid, 1u8)),
            None => None,
        },
        None => None,
    };
    (node, edge)
}

pub open spec fn route_writes_view(v: Seq<(NodeWriteEvent, Option<EdgeWriteEvent>)>) -> Seq<(NodeWriteEventV, Option<(u64, u64, u8)>)> {
    v.map_values(
        |w: (NodeWriteEvent, Option<EdgeWriteEvent>)|
            (
                w.0@,
                match w.1 {
                    Some(e) => Some((e.from, e.to, e.kind)),
                    None => None,
                },
            ),
    )
}

/// The route nodes and handler edges of a file's routes, route by route.
pub fn route_events(root: &str, file_path: &str, routes: &Vec<RouteMatch>, sym: &SymbolTable) -> (r: Vec<
    (NodeWriteEvent, Option<EdgeWriteEvent>),
>)
    requires
        sym.wf(),
    ensures
        route_writes_view(r@) == route_matches_view(routes@).map_values(
            |m: RouteMatchV| spec_route_write(sym@, root@, file_path@, m),
        ),
{
    let rel = relative_path(file_path, root);
    let ghost rv = route_matches_view(routes@);
    let mut out: Vec<(NodeWriteEvent, Option<EdgeWriteEvent>)> = Vec::new();
    let mut i: usize = 0;
    while i < routes.len()
        invariant
            i <= routes@.len(),
            sym.wf(),
            rel@ == rel_path(file_path@, root@),
            rv == route_matches_view(routes@),
            route_writes_view(out@) == rv.subrange(0, i as int).map_values(
                |m: RouteMatchV| spec_route_write(sym@, root@, file_path@, m),
            ),
        decreases routes.len() - i,
    {
        let rm = &routes[i];
        assert(rv[i as int] == rm@);
        let mut fqn = rm.method.clone();
        fqn.append(" ");
        fqn.append(rm.pattern.as_str());
        let id = node_id(rel.as_str(), fqn.as_str(), NodeKind::Route, rm.byte_start);
        let node = NodeWriteEvent {
            id,
            record: NodeRecord {
                fqn,
                kind: NodeKind::Route,
                file: rel.clone(),
                byte_start: rm.byte_start,
                byte_end: rm.byte_end,
            },
        };
        let edge = match &rm.handler_name {
            Some(h) => match sym.resolve_short(h.as_str(), file_path) {
                Some(hid) => Some(EdgeWriteEvent { from: id, to: hid, kind: 1 }),
                None => None,
            },
            None => None,
        };
        let ghost before = route_writes_view(out@);
        let w = (node, edge);
        out.push(w);
        assert(route_writes_view(out@) =~= before.push(spec_route_write(sym@, root@, file_path@, rm@)));
        i = i + 1;
        assert(rv.subrange(0, i as int).map_values(|m: RouteMatchV| spec_route_write(sym@, root@, file_path@, m))
            =~= rv.subrange(0, (i - 1) as int).map_values(|m: RouteMatchV| spec_route_write(sym@, root@, file_path@, m)).push(
            spec_route_write(sym@, root@, file_path@, rm@),
        ));
    }
    assert(rv.subrange(0, rv.len() as int) =~= rv);
    out
}

} // verus!
