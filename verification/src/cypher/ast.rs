//! Cypher-Lite AST, with the mathematical view of each node.

use vstd::prelude::*;

verus! {

/// Root query node.
#[derive(Debug, PartialEq)]
pub struct Query {
    /// More than one MATCH clause is out of scope; keeping them lets the
    /// planner report `Unsupported::MultipleMatch`.
    pub match_clauses: Vec<MatchClause>,
    pub where_clause: Option<Expr>,
    pub return_clause: ReturnClause,
    pub order_by: Option<OrderBy>,
    pub skip: Option<i64>,
    pub limit: Option<i64>,
    pub distinct: bool,
}

#[derive(Debug, PartialEq)]
pub struct MatchClause {
    pub pattern: Pattern,
}

/// A linear pattern: head node followed by zero or more (rel, node) segments.
#[derive(Debug, PartialEq)]
pub struct Pattern {
    pub head: NodePat,
    pub segments: Vec<(RelPat, NodePat)>,
}

#[derive(Debug, PartialEq)]
pub struct NodePat {
    pub var: Option<String>,
    pub label: Option<String>,
    pub properties: Vec<(String, Lit)>,
}

#[derive(Debug, PartialEq)]
pub struct RelPat {
    pub var: Option<String>,
    /// Relationship type labels (the part after `:`); `|`-separated types
    /// are kept here and matched with OR.
    pub types: Vec<String>,
    pub direction: Direction,
    pub properties: Vec<(String, Lit)>,
}

#[derive(Debug, Clone, Copy, PartialEq, Eq, Structural)]
pub enum Direction {
    LeftToRight,
    RightToLeft,
    Undirected,
}

/// WHERE expressions.
#[derive(Debug, PartialEq)]
pub enum Expr {
    Binary(Box<Expr>, BinOp, Box<Expr>),
    Unary(UnaryOp, Box<Expr>),
    /// `var.prop` property access
    Prop(String, String),
    /// bare identifier (variable name)
    Id(String),
    Lit(Lit),
    /// `expr IS NULL` (negated=false) / `expr IS NOT NULL` (negated=true)
    IsNull(Box<Expr>, bool),
}

#[derive(Debug, Clone, Copy, PartialEq, Eq, Structural)]
pub enum BinOp {
    Eq,
    Neq,
    Lt,
    Gt,
    Le,
    Ge,
    Contains,
    StartsWith,
    EndsWith,
    Regex,
    And,
    Or,
}

#[derive(Debug, Clone, Copy, PartialEq, Eq, Structural)]
pub enum UnaryOp {
    Not,
}

#[derive(Debug, PartialEq)]
pub struct ReturnClause {
    pub items: Vec<ReturnItem>,
}

#[derive(Debug, PartialEq)]
pub struct ReturnItem {
    pub expr: ReturnExpr,
    pub alias: Option<String>,
}

/// Expressions allowed in RETURN / ORDER BY.
#[derive(Debug, PartialEq)]
pub enum ReturnExpr {
    /// Return an entire variable (node or edge)
    Var(String),
    /// Return `var.prop`
    Prop(String, String),
}

#[derive(Debug, PartialEq)]
pub struct OrderBy {
    pub items: Vec<OrderItem>,
}

#[derive(Debug, PartialEq)]
pub struct OrderItem {
    pub expr: ReturnExpr,
    pub descending: bool,
}

/// Literal values. A float literal is kept as its source text.
#[derive(Debug, PartialEq)]
pub enum Lit {
    Int(i64),
    Float(String),
    Str(String),
    Bool(bool),
    Null,
}

// ---------------------------------------------------------------------------
// Views
// ---------------------------------------------------------------------------

pub enum LitV {
    Int(i64),
    Float(Seq<char>),
    Str(Seq<char>),
    Bool(bool),
    Null,
}

pub enum ExprV {
    Binary(Box<ExprV>, BinOp, Box<ExprV>),
    Unary(UnaryOp, Box<ExprV>),
    Prop(Seq<char>, Seq<char>),
    Id(Seq<char>),
    Lit(LitV),
    IsNull(Box<ExprV>, bool),
}

pub enum ReturnExprV {
    Var(Seq<char>),
    Prop(Seq<char>, Seq<char>),
}

pub struct ReturnItemV {
    pub expr: ReturnExprV,
    pub alias: Option<Seq<char>>,
}

pub struct OrderItemV {
    pub expr: ReturnExprV,
    pub descending: bool,
}

pub struct NodePatV {
    pub var: Option<Seq<char>>,
    pub label: Option<Seq<char>>,
    pub properties: Seq<(Seq<char>, LitV)>,
}

pub struct RelPatV {
    pub var: Option<Seq<char>>,
    pub types: Seq<Seq<char>>,
    pub direction: Direction,
    pub properties: Seq<(Seq<char>, LitV)>,
}

pub struct PatternV {
    pub head: NodePatV,
    pub segments: Seq<(RelPatV, NodePatV)>,
}

pub struct QueryV {
    pub match_clauses: Seq<PatternV>,
    pub where_clause: Option<ExprV>,
    pub return_items: Seq<ReturnItemV>,
    pub order_by: Option<Seq<OrderItemV>>,
    pub skip: Option<i64>,
    pub limit: Option<i64>,
    pub distinct: bool,
}

pub open spec fn opt_str_view(o: Option<String>) -> Option<Seq<char>> {
    match o {
        Some(s) => Some(s@),
        None => None,
    }
}

pub open spec fn strs_view(v: Seq<String>) -> Seq<Seq<char>> {
    v.map_values(|s: String| s@)
}

impl View for Lit {
    type V = LitV;

    open spec fn view(&self) -> LitV {
        match self {
            Lit::Int(i) => LitV::Int(*i),
            Lit::Float(s) => LitV::Float(s@),
            Lit::Str(s) => LitV::Str(s@),
            Lit::Bool(b) => LitV::Bool(*b),
            Lit::Null => LitV::Null,
        }
    }
}

pub open spec fn props_view(v: Seq<(String, Lit)>) -> Seq<(Seq<char>, LitV)> {
    v.map_values(|p: (String, Lit)| (p.0@, p.1@))
}

pub open spec fn expr_view(e: Expr) -> ExprV
    decreases e,
{
    match e {
        Expr::Binary(l, op, r) => ExprV::Binary(Box::new(expr_view(*l)), op, Box::new(expr_view(*r))),
        Expr::Unary(op, x) => ExprV::Unary(op, Box::new(expr_view(*x))),
        Expr::Prop(v, p) => ExprV::Prop(v@, p@),
        Expr::Id(v) => ExprV::Id(v@),
        Expr::Lit(l) => ExprV::Lit(l@),
        Expr::IsNull(x, n) => ExprV::IsNull(Box::new(expr_view(*x)), n),
    }
}

impl View for Expr {
    type V = ExprV;

    open spec fn view(&self) -> ExprV {
        expr_view(*self)
    }
}

impl View for ReturnExpr {
    type V = ReturnExprV;

    open spec fn view(&self) -> ReturnExprV {
        match self {
            ReturnExpr::Var(v) => ReturnExprV::Var(v@),
            ReturnExpr::Prop(v, p) => ReturnExprV::Prop(v@, p@),
        }
    }
}

impl View for ReturnItem {
    type V = ReturnItemV;

    open spec fn view(&self) -> ReturnItemV {
        ReturnItemV { expr: self.expr@, alias: opt_str_view(self.alias) }
    }
}

impl View for OrderItem {
    type V = OrderItemV;

    open spec fn view(&self) -> OrderItemV {
        OrderItemV { expr: self.expr@, descending: self.descending }
    }
}

impl View for NodePat {
    type V = NodePatV;

    open spec fn view(&self) -> NodePatV {
        NodePatV {
            var: opt_str_view(self.var),
            label: opt_str_view(self.label),
            properties: props_view(self.properties@),
        }
    }
}

impl View for RelPat {
    type V = RelPatV;

    open spec fn view(&self) -> RelPatV {
        RelPatV {
            var: opt_str_view(self.var),
            types: strs_view(self.types@),
            direction: self.direction,
            properties: props_view(self.properties@),
        }
    }
}

impl View for Pattern {
    type V = PatternV;

    open spec fn view(&self) -> PatternV {
        PatternV {
            head: self.head@,
            segments: self.segments@.map_values(|s: (RelPat, NodePat)| (s.0@, s.1@)),
        }
    }
}

pub open spec fn return_items_view(v: Seq<ReturnItem>) -> Seq<ReturnItemV> {
    v.map_values(|i: ReturnItem| i@)
}

pub open spec fn order_items_view(v: Seq<OrderItem>) -> Seq<OrderItemV> {
    v.map_values(|i: OrderItem| i@)
}

impl View for Query {
    type V = QueryV;

    open spec fn view(&self) -> QueryV {
        QueryV {
            match_clauses: self.match_clauses@.map_values(|m: MatchClause| m.pattern@),
            where_clause: match self.where_clause {
                Some(e) => Some(e@),
                None => None,
            },
            return_items: return_items_view(self.return_clause.items@),
            order_by: match self.order_by {
                Some(o) => Some(order_items_view(o.items@)),
                None => None,
            },
            skip: self.skip,
            limit: self.limit,
            distinct: self.distinct,
        }
    }
}

impl Lit {
    /// A copy of this literal.
    pub fn duplicate(&self) -> (r: Lit)
        ensures
            r@ == self@,
    {
        match self {
            Lit::Int(i) => Lit::Int(*i),
            Lit::Float(s) => Lit::Float(s.clone()),
            Lit::Str(s) => Lit::Str(s.clone()),
            Lit::Bool(b) => Lit::Bool(*b),
            Lit::Null => Lit::Null,
        }
    }
}

impl ReturnExpr {
    /// A copy of this return expression.
    pub fn duplicate(&self) -> (r: ReturnExpr)
        ensures
            r@ == self@,
    {
        match self {
            ReturnExpr::Var(v) => ReturnExpr::Var(v.clone()),
            ReturnExpr::Prop(v, p) => ReturnExpr::Prop(v.clone(), p.clone()),
        }
    }
}

} // verus!
