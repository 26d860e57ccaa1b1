//! Values, rows and expression evaluation of the Cypher-Lite executor.
//!
//! A float literal is carried as its source text: floats compare equal only
//! to a float with the same text, and order against nothing.

use vstd::prelude::*;
use crate::cypher::ast::{BinOp, Expr, ExprV, Lit, LitV, ReturnExpr, ReturnExprV, UnaryOp};
use crate::text::{
    Compared, chars_compared, compare_strs, has_infix, has_prefix, has_suffix, occurs_at, str_contains, str_ends_with,
    str_eq, str_starts_with,
};

verus! {

/// A node bound to a variable.
#[derive(Debug, PartialEq)]
pub struct NodeValue {
    pub id: u64,
    pub fqn: String,
    pub kind: String,
    pub file: String,
    pub byte_start: u32,
    pub byte_end: u32,
}

/// An edge bound to a variable.
#[derive(Debug, PartialEq)]
pub struct EdgeValue {
    pub from: u64,
    pub to: u64,
    pub kind: String,
}

/// A single column value in a result row.
#[derive(Debug, PartialEq)]
pub enum Value {
    Null,
    Bool(bool),
    Int(i64),
    /// A float literal, as written in the query.
    Float(String),
    Str(String),
    /// An entire node bound to a variable.
    Node(NodeValue),
    /// An edge bound to a variable.
    Edge(EdgeValue),
}

pub struct NodeValueV {
    pub id: u64,
    pub fqn: Seq<char>,
    pub kind: Seq<char>,
    pub file: Seq<char>,
    pub byte_start: u32,
    pub byte_end: u32,
}

pub struct EdgeValueV {
    pub from: u64,
    pub to: u64,
    pub kind: Seq<char>,
}

pub enum ValueV {
    Null,
    Bool(bool),
    Int(i64),
    Float(Seq<char>),
    Str(Seq<char>),
    Node(NodeValueV),
    Edge(EdgeValueV),
}

impl View for NodeValue {
    type V = NodeValueV;

    open spec fn view(&self) -> NodeValueV {
        NodeValueV {
            id: self.id,
            fqn: self.fqn@,
            kind: self.kind@,
            file: self.file@,
            byte_start: self.byte_start,
            byte_end: self.byte_end,
        }
    }
}

impl View for EdgeValue {
    type V = EdgeValueV;

    open spec fn view(&self) -> EdgeValueV {
        EdgeValueV { from: self.from, to: self.to, kind: self.kind@ }
    }
}

impl View for Value {
    type V = ValueV;

    open spec fn view(&self) -> ValueV {
        match self {
            Value::Null => ValueV::Null,
            Value::Bool(b) => ValueV::Bool(*b),
            Value::Int(i) => ValueV::Int(*i),
            Value::Float(s) => ValueV::Float(s@),
            Value::Str(s) => ValueV::Str(s@),
            Value::Node(n) => ValueV::Node(n@),
            Value::Edge(e) => ValueV::Edge(e@),
        }
    }
}

impl NodeValue {
    pub fn duplicate(&self) -> (r: NodeValue)
        ensures
            r@ == self@,
    {
        NodeValue {
            id: self.id,
            fqn: self.fqn.clone(),
            kind: self.kind.clone(),
            file: self.file.clone(),
            byte_start: self.byte_start,
            byte_end: self.byte_end,
        }
    }
}

impl EdgeValue {
    pub fn duplicate(&self) -> (r: EdgeValue)
        ensures
            r@ == self@,
    {
        EdgeValue { from: self.from, to: self.to, kind: self.kind.clone() }
    }
}

impl Value {
    /// A copy of this value.
    pub fn duplicate(&self) -> (r: Value)
        ensures
            r@ == self@,
    {
        match self {
            Value::Null => Value::Null,
            Value::Bool(b) => Value::Bool(*b),
            Value::Int(i) => Value::Int(*i),
            Value::Float(s) => Value::Float(s.clone()),
            Value::Str(s) => Value::Str(s.clone()),
            Value::Node(n) => Value::Node(n.duplicate()),
            Value::Edge(e) => Value::Edge(e.duplicate()),
        }
    }
}

/// A row: column (or variable) names with their values; no name occurs
/// twice when rows are built with `Row::insert`.
#[derive(Debug, PartialEq)]
pub struct Row {
    pub cols: Vec<(String, Value)>,
}

pub type RowV = Seq<(Seq<char>, ValueV)>;

impl View for Row {
    type V = RowV;

    open spec fn view(&self) -> RowV {
        self.cols@.map_values(|c: (String, Value)| (c.0@, c.1@))
    }
}

/// Index of the first column named `k` at or after `i`, or the row's length.
pub open spec fn row_find(r: RowV, k: Seq<char>, i: int) -> int
    decreases r.len() - i,
{
    if i < 0 || i >= r.len() {
        r.len() as int
    } else if r[i].0 == k {
        i
    } else {
        row_find(r, k, i + 1)
    }
}

/// The value of column `k`, if the row has one.
pub open spec fn row_get(r: RowV, k: Seq<char>) -> Option<ValueV> {
    let i = row_find(r, k, 0);
    if i < r.len() {
        Some(r[i].1)
    } else {
        None
    }
}

/// The row with column `k` set to `v`: replaced in place, or appended.
pub open spec fn row_insert(r: RowV, k: Seq<char>, v: ValueV) -> RowV {
    let i = row_find(r, k, 0);
    if i < r.len() {
        r.update(i, (k, v))
    } else {
        r.push((k, v))
    }
}

/// Looking a column up from index `i` finds the first column named `k` at
/// or after `i`, or runs to the end of the row.
pub proof fn row_find_bounds(r: RowV, k: Seq<char>, i: int)
    requires
        0 <= i <= r.len(),
    ensures
        i <= row_find(r, k, i) <= r.len(),
        row_find(r, k, i) < r.len() ==> r[row_find(r, k, i)].0 == k,
        forall|j: int| i <= j < row_find(r, k, i) ==> r[j].0 != k,
    decreases r.len() - i,
{
    if i < r.len() && r[i].0 != k {
        row_find_bounds(r, k, i + 1);
    }
}

impl Row {
    /// The empty row.
    pub fn new() -> (r: Row)
        ensures
            r@ == Seq::<(Seq<char>, ValueV)>::empty(),
    {
        let r = Row { cols: Vec::new() };
        assert(r@ =~= Seq::<(Seq<char>, ValueV)>::empty());
        r
    }

    /// A copy of this row.
    pub fn duplicate(&self) -> (r: Row)
        ensures
            r@ == self@,
    {
        let mut cols: Vec<(String, Value)> = Vec::new();
        let mut i: usize = 0;
        while i < self.cols.len()
            invariant
                i <= self.cols.len(),
                cols@.len() == i,
                forall|k: int| 0 <= k < i ==> #[trigger] cols@[k].0@ == self.cols@[k].0@ && cols@[k].1@ == self.cols@[k].1@,
            decreases self.cols.len() - i,
        {
            cols.push((self.cols[i].0.clone(), self.cols[i].1.duplicate()));
            i = i + 1;
        }
        let r = Row { cols };
        assert(r@ =~= self@);
        r
    }

    fn find(&self, k: &str) -> (i: usize)
        ensures
            i == row_find(self@, k@, 0),
    {
        let ghost rv = self@;
        let mut i: usize = 0;
        while i < self.cols.len()
            invariant
                i <= self.cols.len(),
                rv == self@,
                row_find(rv, k@, 0) == row_find(rv, k@, i as int),
            decreases self.cols.len() - i,
        {
            if str_eq(self.cols[i].0.as_str(), k) {
                return i;
            }
            i = i + 1;
        }
        i
    }

    /// The value of column `k`, if any.
    pub fn get(&self, k: &str) -> (r: Option<&Value>)
        ensures
            match r {
                Some(v) => row_get(self@, k@) == Some(v@),
                None => row_get(self@, k@) is None,
            },
    {
        let i = self.find(k);
        if i < self.cols.len() {
            Some(&self.cols[i].1)
        } else {
            None
        }
    }

    /// Sets column `k` to `v`.
    pub fn insert(&mut self, k: String, v: Value)
        ensures
            final(self)@ == row_insert(old(self)@, k@, v@),
    {
        let i = self.find(k.as_str());
        let ghost kv = k@;
        let ghost vv = v@;
        if i < self.cols.len() {
            self.cols.set(i, (k, v));
        } else {
            self.cols.push((k, v));
        }
        assert(self@ =~= row_insert(old(self)@, kv, vv));
    }
}

/// The value a literal denotes.
pub open spec fn lit_value(l: LitV) -> ValueV {
    match l {
        LitV::Int(i) => ValueV::Int(i),
        LitV::Float(s) => ValueV::Float(s),
        LitV::Str(s) => ValueV::Str(s),
        LitV::Bool(b) => ValueV::Bool(b),
        LitV::Null => ValueV::Null,
    }
}

/// `true` is truthy, `false` and `null` are not, every other value is.
pub open spec fn truthy(v: ValueV) -> bool {
    match v {
        ValueV::Bool(b) => b,
        ValueV::Null => false,
        _ => true,
    }
}

/// Equality of values: same kind and same content; nodes and edges never
/// compare equal.
pub open spec fn values_eq(a: ValueV, b: ValueV) -> bool {
    match (a, b) {
        (ValueV::Null, ValueV::Null) => true,
        (ValueV::Bool(x), ValueV::Bool(y)) => x == y,
        (ValueV::Int(x), ValueV::Int(y)) => x == y,
        (ValueV::Float(x), ValueV::Float(y)) => x == y,
        (ValueV::Str(x), ValueV::Str(y)) => x == y,
        _ => false,
    }
}

/// Order of values: integers numerically, strings lexicographically; any
/// other pair is unordered (`Equal`).
pub open spec fn values_order(a: ValueV, b: ValueV) -> Compared {
    match (a, b) {
        (ValueV::Int(x), ValueV::Int(y)) => if x < y {
            Compared::Less
        } else if x > y {
            Compared::Greater
        } else {
            Compared::Equal
        },
        (ValueV::Str(x), ValueV::Str(y)) => chars_compared(x, y),
        _ => Compared::Equal,
    }
}

/// A named property of a node; `null` for unknown names.
pub open spec fn node_prop(n: NodeValueV, p: Seq<char>) -> ValueV {
    if p == "fqn"@ {
        ValueV::Str(n.fqn)
    } else if p == "file"@ {
        ValueV::Str(n.file)
    } else if p == "byte_start"@ {
        ValueV::Int(n.byte_start as i64)
    } else if p == "byte_end"@ {
        ValueV::Int(n.byte_end as i64)
    } else if p == "kind"@ {
        ValueV::Str(n.kind)
    } else if p == "id"@ {
        ValueV::Int(n.id as i64)
    } else {
        ValueV::Null
    }
}

/// A named property of an edge; `null` for unknown names.
pub open spec fn edge_prop(e: EdgeValueV, p: Seq<char>) -> ValueV {
    if p == "kind"@ {
        ValueV::Str(e.kind)
    } else if p == "from"@ {
        ValueV::Int(e.from as i64)
    } else if p == "to"@ {
        ValueV::Int(e.to as i64)
    } else {
        ValueV::Null
    }
}

/// `var.prop` on a row: a property of the node or edge bound to `var`.
pub open spec fn row_prop(r: RowV, var: Seq<char>, p: Seq<char>) -> ValueV {
    match row_get(r, var) {
        Some(ValueV::Node(n)) => node_prop(n, p),
        Some(ValueV::Edge(e)) => edge_prop(e, p),
        _ => ValueV::Null,
    }
}

/// String predicates hold only between two strings.
pub open spec fn str_pred(op: BinOp, a: ValueV, b: ValueV) -> bool {
    match (a, b) {
        (ValueV::Str(h), ValueV::Str(n)) => match op {
            BinOp::Contains => has_infix(h, n),
            BinOp::StartsWith => has_prefix(h, n),
            BinOp::EndsWith => has_suffix(h, n),
            _ => false,
        },
        _ => false,
    }
}

/// A comparison operator applied to two values. `=~` (regex) never holds.
pub open spec fn compare_op(op: BinOp, a: ValueV, b: ValueV) -> bool {
    match op {
        BinOp::Eq => values_eq(a, b),
        BinOp::Neq => !values_eq(a, b),
        BinOp::Lt => values_order(a, b) == Compared::Less,
        BinOp::Gt => values_order(a, b) == Compared::Greater,
        BinOp::Le => values_order(a, b) != Compared::Greater,
        BinOp::Ge => values_order(a, b) != Compared::Less,
        BinOp::Contains | BinOp::StartsWith | BinOp::EndsWith => str_pred(op, a, b),
        _ => false,
    }
}

/// The value of a WHERE expression on a row.
pub open spec fn eval(e: ExprV, r: RowV) -> ValueV
    decreases e,
{
    match e {
        ExprV::Lit(l) => lit_value(l),
        ExprV::Id(n) => match row_get(r, n) {
            Some(v) => v,
            None => ValueV::Null,
        },
        ExprV::Prop(v, p) => row_prop(r, v, p),
        ExprV::IsNull(x, negated) => {
            let is_null = eval(*x, r) is Null;
            ValueV::Bool(if negated { !is_null } else { is_null })
        },
        ExprV::Unary(_, x) => ValueV::Bool(!truthy(eval(*x, r))),
        ExprV::Binary(l, op, rt) => match op {
            BinOp::And => ValueV::Bool(truthy(eval(*l, r)) && truthy(eval(*rt, r))),
            BinOp::Or => ValueV::Bool(truthy(eval(*l, r)) || truthy(eval(*rt, r))),
            _ => ValueV::Bool(compare_op(op, eval(*l, r), eval(*rt, r))),
        },
    }
}

/// The column name of `var.prop` after projection.
pub open spec fn dotted(var: Seq<char>, p: Seq<char>) -> Seq<char> {
    var + "."@ + p
}

/// The value of a RETURN / ORDER BY expression on a row. `var.prop` falls
/// back to a projected column named `var.prop`.
pub open spec fn eval_return(e: ReturnExprV, r: RowV) -> ValueV {
    match e {
        ReturnExprV::Var(n) => match row_get(r, n) {
            Some(v) => v,
            None => ValueV::Null,
        },
        ReturnExprV::Prop(v, p) => {
            let x = row_prop(r, v, p);
            if !(x is Null) {
                x
            } else {
                match row_get(r, dotted(v, p)) {
                    Some(y) => y,
                    None => ValueV::Null,
                }
            }
        },
    }
}

pub fn lit_to_value(l: &Lit) -> (v: Value)
    ensures
        v@ == lit_value(l@),
{
    match l {
        Lit::Int(i) => Value::Int(*i),
        Lit::Float(f) => Value::Float(f.clone()),
        Lit::Str(s) => Value::Str(s.clone()),
        Lit::Bool(b) => Value::Bool(*b),
        Lit::Null => Value::Null,
    }
}

pub fn is_truthy(v: &Value) -> (b: bool)
    ensures
        b == truthy(v@),
{
    match v {
        Value::Bool(b) => *b,
        Value::Null => false,
        _ => true,
    }
}

pub fn values_equal(a: &Value, b: &Value) -> (r: bool)
    ensures
        r == values_eq(a@, b@),
{
    match (a, b) {
        (Value::Null, Value::Null) => true,
        (Value::Bool(x), Value::Bool(y)) => *x == *y,
        (Value::Int(x), Value::Int(y)) => *x == *y,
        (Value::Float(x), Value::Float(y)) => str_eq(x.as_str(), y.as_str()),
        (Value::Str(x), Value::Str(y)) => str_eq(x.as_str(), y.as_str()),
        _ => false,
    }
}

pub fn compare_values(a: &Value, b: &Value) -> (r: Compared)
    ensures
        r == values_order(a@, b@),
{
    match (a, b) {
        (Value::Int(x), Value::Int(y)) => if *x < *y {
            Compared::Less
        } else if *x > *y {
            Compared::Greater
        } else {
            Compared::Equal
        },
        (Value::Str(x), Value::Str(y)) => compare_strs(x.as_str(), y.as_str()),
        _ => Compared::Equal,
    }
}

pub fn node_prop_value(n: &NodeValue, p: &str) -> (v: Value)
    ensures
        v@ == node_prop(n@, p@),
{
    if str_eq(p, "fqn") {
        Value::Str(n.fqn.clone())
    } else if str_eq(p, "file") {
        Value::Str(n.file.clone())
    } else if str_eq(p, "byte_start") {
        Value::Int(n.byte_start as i64)
    } else if str_eq(p, "byte_end") {
        Value::Int(n.byte_end as i64)
    } else if str_eq(p, "kind") {
        Value::Str(n.kind.clone())
    } else if str_eq(p, "id") {
        Value::Int(n.id as i64)
    } else {
        Value::Null
    }
}

pub fn edge_prop_value(e: &EdgeValue, p: &str) -> (v: Value)
    ensures
        v@ == edge_prop(e@, p@),
{
    if str_eq(p, "kind") {
        Value::Str(e.kind.clone())
    } else if str_eq(p, "from") {
        Value::Int(e.from as i64)
    } else if str_eq(p, "to") {
        Value::Int(e.to as i64)
    } else {
        Value::Null
    }
}

pub fn get_prop(r: &Row, var: &str, p: &str) -> (v: Value)
    ensures
        v@ == row_prop(r@, var@, p@),
{
    match r.get(var) {
        Some(Value::Node(n)) => node_prop_value(n, p),
        Some(Value::Edge(e)) => edge_prop_value(e, p),
        _ => Value::Null,
    }
}

fn str_predicate(op: BinOp, a: &Value, b: &Value) -> (r: bool)
    ensures
        r == str_pred(op, a@, b@),
{
    match (a, b) {
        (Value::Str(h), Value::Str(n)) => match op {
            BinOp::Contains => str_contains(h.as_str(), n.as_str()),
            BinOp::StartsWith => str_starts_with(h.as_str(), n.as_str()),
            BinOp::EndsWith => str_ends_with(h.as_str(), n.as_str()),
            _ => false,
        },
        _ => false,
    }
}

pub fn eval_binary_op(op: BinOp, a: &Value, b: &Value) -> (r: bool)
    ensures
        r == compare_op(op, a@, b@),
{
    match op {
        BinOp::Eq => values_equal(a, b),
        BinOp::Neq => !values_equal(a, b),
        BinOp::Lt => compare_values(a, b) == Compared::Less,
        BinOp::Gt => compare_values(a, b) == Compared::Greater,
        BinOp::Le => compare_values(a, b) != Compared::Greater,
        BinOp::Ge => compare_values(a, b) != Compared::Less,
        BinOp::Contains | BinOp::StartsWith | BinOp::EndsWith => str_predicate(op, a, b),
        _ => false,
    }
}

/// Evaluates a WHERE expression on a row.
pub fn eval_expr(e: &Expr, r: &Row) -> (v: Value)
    ensures
        v@ == eval(e@, r@),
    decreases e,
{
    match e {
        Expr::Lit(l) => lit_to_value(l),
        Expr::Id(n) => match r.get(n.as_str()) {
            Some(v) => v.duplicate(),
            None => Value::Null,
        },
        Expr::Prop(var, p) => get_prop(r, var.as_str(), p.as_str()),
        Expr::IsNull(x, negated) => {
            let v = eval_expr(x, r);
            let is_null = match v {
                Value::Null => true,
                _ => false,
            };
            Value::Bool(if *negated { !is_null } else { is_null })
        },
        Expr::Unary(_, x) => {
            let v = eval_expr(x, r);
            Value::Bool(!is_truthy(&v))
        },
        Expr::Binary(l, op, rt) => {
            let lv = eval_expr(l, r);
            let rv = eval_expr(rt, r);
            match op {
                BinOp::And => Value::Bool(is_truthy(&lv) && is_truthy(&rv)),
                BinOp::Or => Value::Bool(is_truthy(&lv) || is_truthy(&rv)),
                _ => Value::Bool(eval_binary_op(*op, &lv, &rv)),
            }
        },
    }
}

/// Evaluates a RETURN / ORDER BY expression on a row.
pub fn eval_return_expr(e: &ReturnExpr, r: &Row) -> (v: Value)
    ensures
        v@ == eval_return(e@, r@),
{
    match e {
        ReturnExpr::Var(n) => match r.get(n.as_str()) {
            Some(v) => v.duplicate(),
            None => Value::Null,
        },
        ReturnExpr::Prop(var, p) => {
            let x = get_prop(r, var.as_str(), p.as_str());
            match x {
                Value::Null => {
                    let mut key = var.clone();
                    key.append(".");
                    key.append(p.as_str());
                    match r.get(key.as_str()) {
                        Some(y) => y.duplicate(),
                        None => Value::Null,
                    }
                },
                _ => x,
            }
        },
    }
}

/// The string predicates of WHERE, evaluated on two string operands:
/// `h CONTAINS n` holds when `n` appears at some position of `h`;
/// `h STARTS WITH n` when the first `|n|` characters of `h` are `n`;
/// `h ENDS WITH n` when the last `|n|` characters of `h` are `n`.
pub proof fn string_predicates_mean_what_they_say(h: Seq<char>, n: Seq<char>, r: RowV)
    ensures
        eval(ExprV::Binary(Box::new(ExprV::Lit(LitV::Str(h))), BinOp::Contains, Box::new(ExprV::Lit(LitV::Str(n)))), r)
            == ValueV::Bool(
            exists|i: int| 0 <= i && i + n.len() <= h.len() && #[trigger] h.subrange(i, i + n.len()) == n,
        ),
        eval(ExprV::Binary(Box::new(ExprV::Lit(LitV::Str(h))), BinOp::StartsWith, Box::new(ExprV::Lit(LitV::Str(n)))), r)
            == ValueV::Bool(n.len() <= h.len() && h.subrange(0, n.len() as int) == n),
        eval(ExprV::Binary(Box::new(ExprV::Lit(LitV::Str(h))), BinOp::EndsWith, Box::new(ExprV::Lit(LitV::Str(n)))), r)
            == ValueV::Bool(n.len() <= h.len() && h.subrange(h.len() - n.len(), h.len() as int) == n),
{
    let lh = ExprV::Lit(LitV::Str(h));
    let ln = ExprV::Lit(LitV::Str(n));
    assert(eval(lh, r) == ValueV::Str(h));
    assert(eval(ln, r) == ValueV::Str(n));
    assert(eval(ExprV::Binary(Box::new(lh), BinOp::Contains, Box::new(ln)), r) == ValueV::Bool(has_infix(h, n)));
    assert(eval(ExprV::Binary(Box::new(lh), BinOp::StartsWith, Box::new(ln)), r) == ValueV::Bool(has_prefix(h, n)));
    assert(eval(ExprV::Binary(Box::new(lh), BinOp::EndsWith, Box::new(ln)), r) == ValueV::Bool(has_suffix(h, n)));
    let c = exists|i: int| 0 <= i && i + n.len() <= h.len() && #[trigger] h.subrange(i, i + n.len()) == n;
    assert(c == has_infix(h, n)) by {
        if c {
            let i = choose|i: int| 0 <= i && i + n.len() <= h.len() && #[trigger] h.subrange(i, i + n.len()) == n;
            assert(occurs_at(h, n, i));
        }
        if has_infix(h, n) {
            let i = choose|i: int| occurs_at(h, n, i);
            assert(0 <= i && i + n.len() <= h.len() && h.subrange(i, i + n.len()) == n);
        }
    }
}

/// A string predicate with an operand that is not a string never holds.
pub proof fn string_predicates_need_strings(op: BinOp, a: ValueV, b: ValueV)
    requires
        op == BinOp::Contains || op == BinOp::StartsWith || op == BinOp::EndsWith,
        !(a is Str) || !(b is Str),
    ensures
        !compare_op(op, a, b),
{
}

} // verus!
