use vstd::prelude::*;

verus! {

/// A stretch of the source text: the characters from `start` up to, not including, `end`.
#[derive(Clone, Copy, Debug, PartialEq, Eq)]
pub struct Span {
    pub start: usize,
    pub end: usize,
}

/// A node of the syntax tree that the parser hands over. Each node refers to the source text
/// by spans.
#[derive(Debug)]
pub enum Expr {
    Prog { span: Span, stmts: Vec<Expr> },
    Assign { span: Span, id: Span, expr: Box<Expr> },
    Print { span: Span, args: Box<Expr> },
    BinaryOp { span: Span, op: Span, lhs: Box<Expr>, rhs: Box<Expr> },
    Int { span: Span, is_negative: bool, val: Span },
    String(Span),
    VarLookup(Span),
    WhileLoop { span: Span, condition: Box<Expr>, body: Box<Expr> },
    IfStatement { span: Span, condition: Box<Expr>, body: Box<Expr> },
    FuncDef { span: Span, name: Span, args_list: Vec<Span>, body: Box<Expr> },
    Call { span: Span, name: Span, params: Vec<Expr> },
    Return { span: Span, expr: Box<Expr> },
}

/// The text of `sp` in `src`.
pub open spec fn text(src: Seq<char>, sp: Span) -> Seq<char> {
    src.subrange(sp.start as int, sp.end as int)
}

pub open spec fn span_within(sp: Span, n: nat) -> bool {
    sp.start <= sp.end <= n
}

/// Whether every span of `e` whose text the compiler reads lies within a source of `n`
/// characters.
pub open spec fn spans_within(e: Expr, n: nat) -> bool
    decreases e, 0nat,
{
    match e {
        Expr::Prog { stmts, .. } => all_spans_within(stmts@, n),
        Expr::Assign { id, expr, .. } => span_within(id, n) && spans_within(*expr, n),
        Expr::Print { args, .. } => spans_within(*args, n),
        Expr::BinaryOp { op, lhs, rhs, .. } => span_within(op, n) && spans_within(*lhs, n)
            && spans_within(*rhs, n),
        Expr::Int { val, .. } => span_within(val, n),
        Expr::String(sp) => span_within(sp, n),
        Expr::VarLookup(sp) => span_within(sp, n),
        Expr::WhileLoop { condition, body, .. } => spans_within(*condition, n) && spans_within(
            *body,
            n,
        ),
        Expr::IfStatement { condition, body, .. } => spans_within(*condition, n) && spans_within(
            *body,
            n,
        ),
        Expr::FuncDef { name, args_list, body, .. } => span_within(name, n) && (forall|i: int|
            0 <= i < args_list@.len() ==> span_within(#[trigger] args_list@[i], n)) && spans_within(
            *body,
            n,
        ),
        Expr::Call { name, params, .. } => span_within(name, n) && all_spans_within(params@, n),
        Expr::Return { expr, .. } => spans_within(*expr, n),
    }
}

/// Whether every node of `es` has its spans within a source of `n` characters.
pub open spec fn all_spans_within(es: Seq<Expr>, n: nat) -> bool
    decreases es, 1nat,
{
    if es.len() == 0 {
        true
    } else {
        all_spans_within(es.drop_last(), n) && spans_within(es.last(), n)
    }
}

impl Expr {
    /// The span of the whole node.
    pub fn span(&self) -> (r: Span)
        ensures
            r == (match *self {
                Expr::Prog { span, .. } => span,
                Expr::Assign { span, .. } => span,
                Expr::Print { span, .. } => span,
                Expr::BinaryOp { span, .. } => span,
                Expr::Int { span, .. } => span,
                Expr::String(span) => span,
                Expr::VarLookup(span) => span,
                Expr::WhileLoop { span, .. } => span,
                Expr::IfStatement { span, .. } => span,
                Expr::FuncDef { span, .. } => span,
                Expr::Call { span, .. } => span,
                Expr::Return { span, .. } => span,
            }),
    {
        match self {
            Expr::Prog { span, .. } => *span,
            Expr::Assign { span, .. } => *span,
            Expr::Print { span, .. } => *span,
            Expr::BinaryOp { span, .. } => *span,
            Expr::Int { span, .. } => *span,
            Expr::String(span) => *span,
            Expr::VarLookup(span) => *span,
            Expr::WhileLoop { span, .. } => *span,
            Expr::IfStatement { span, .. } => *span,
            Expr::FuncDef { span, .. } => *span,
            Expr::Call { span, .. } => *span,
            Expr::Return { span, .. } => *span,
        }
    }
}

} // verus!
