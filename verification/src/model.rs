//! Mathematical models of expressions, conditions and statements: the same
//! shapes as the types of `structures`, with character sequences in place of
//! strings. The parser's contracts are stated over these models.

use vstd::prelude::*;
use crate::structures::{Condition, Expression, Operation, Statement};

verus! {

pub enum ExprV {
    Arithmetic(Box<ExprV>, Box<ExprV>, Operation),
    Cast(bool, Seq<char>, Box<ExprV>),
    Condition(Box<CondV>),
    Constant(Seq<char>),
    Enclosed(Box<ExprV>),
    EnvCaller(Option<Seq<char>>),
    FunctionCall(Seq<char>, Seq<ExprV>, Option<Seq<char>>, bool),
    IsZero(Box<ExprV>),
    Literal(Seq<char>),
    Logical(Box<ExprV>, Operation, Box<ExprV>),
    Member(Seq<char>, Option<Seq<char>>),
    Mapping(Box<ExprV>, Seq<ExprV>, Option<Box<ExprV>>),
    Modifier(Seq<char>),
    NewArray(Seq<char>, Box<ExprV>),
    StructArg(Seq<char>, Box<ExprV>),
    StructInit(Seq<char>, Seq<ExprV>),
    Ternary(Box<CondV>, Box<ExprV>, Box<ExprV>),
    TransferredValue(Option<Seq<char>>),
    WithSelector(Box<ExprV>, Box<ExprV>),
    ZeroAddressInto,
}

pub struct CondV {
    pub left: ExprV,
    pub operation: Operation,
    pub right: Option<ExprV>,
}

pub enum StmtV {
    Assembly(Seq<StmtV>),
    AssemblyEnd,
    Assign(ExprV, ExprV, Operation),
    Catch(Seq<StmtV>),
    CatchEnd,
    Comment(Seq<char>),
    Declaration(Seq<char>, Seq<char>, Option<ExprV>),
    Do(Option<Box<StmtV>>, ExprV, Option<Box<StmtV>>, Seq<StmtV>),
    Loop(Option<Box<StmtV>>, ExprV, Option<Box<StmtV>>, Seq<StmtV>),
    Else(Seq<StmtV>),
    ElseIf(CondV, Seq<StmtV>),
    Emit(Seq<char>, Seq<ExprV>),
    FunctionCall(ExprV),
    Group(Seq<StmtV>),
    If(CondV, Seq<StmtV>),
    IfEnd,
    ModifierBody,
    Raw(Seq<char>),
    Require(CondV, Seq<char>),
    Return(ExprV),
    Ternary(CondV, Box<StmtV>, Box<StmtV>),
    Try(Seq<StmtV>),
    TryEnd,
    While(Option<Box<StmtV>>, ExprV, Option<Box<StmtV>>, Seq<StmtV>),
    WhileEnd,
}

pub open spec fn opt_str_v(o: Option<String>) -> Option<Seq<char>> {
    match o {
        Some(s) => Some(s@),
        None => None,
    }
}

/// The model of an expression.
pub open spec fn expr_v(e: Expression) -> ExprV
    decreases e,
{
    match e {
        Expression::Arithmetic(l, r, op) => ExprV::Arithmetic(
            Box::new(expr_v(*l)),
            Box::new(expr_v(*r)),
            op,
        ),
        Expression::Cast(b, t, x) => ExprV::Cast(b, t@, Box::new(expr_v(*x))),
        Expression::Condition(c) => ExprV::Condition(Box::new(cond_v(*c))),
        Expression::Constant(s) => ExprV::Constant(s@),
        Expression::Enclosed(x) => ExprV::Enclosed(Box::new(expr_v(*x))),
        Expression::EnvCaller(s) => ExprV::EnvCaller(opt_str_v(s)),
        Expression::FunctionCall(n, args, sel, ext) => ExprV::FunctionCall(
            n@,
            exprs_v(args@),
            opt_str_v(sel),
            ext,
        ),
        Expression::IsZero(x) => ExprV::IsZero(Box::new(expr_v(*x))),
        Expression::Literal(s) => ExprV::Literal(s@),
        Expression::Logical(l, op, r) => ExprV::Logical(
            Box::new(expr_v(*l)),
            op,
            Box::new(expr_v(*r)),
        ),
        Expression::Member(n, sel) => ExprV::Member(n@, opt_str_v(sel)),
        Expression::Mapping(m, idx, val) => ExprV::Mapping(
            Box::new(expr_v(*m)),
            exprs_v(idx@),
            match val {
                Some(v) => Some(Box::new(expr_v(*v))),
                None => None,
            },
        ),
        Expression::Modifier(s) => ExprV::Modifier(s@),
        Expression::NewArray(t, x) => ExprV::NewArray(t@, Box::new(expr_v(*x))),
        Expression::StructArg(n, x) => ExprV::StructArg(n@, Box::new(expr_v(*x))),
        Expression::StructInit(n, args) => ExprV::StructInit(n@, exprs_v(args@)),
        Expression::Ternary(c, t, f) => ExprV::Ternary(
            Box::new(cond_v(*c)),
            Box::new(expr_v(*t)),
            Box::new(expr_v(*f)),
        ),
        Expression::TransferredValue(s) => ExprV::TransferredValue(opt_str_v(s)),
        Expression::WithSelector(l, r) => ExprV::WithSelector(
            Box::new(expr_v(*l)),
            Box::new(expr_v(*r)),
        ),
        Expression::ZeroAddressInto => ExprV::ZeroAddressInto,
    }
}

/// The models of a sequence of expressions.
pub open spec fn exprs_v(s: Seq<Expression>) -> Seq<ExprV>
    decreases s,
{
    if s.len() == 0 {
        Seq::empty()
    } else {
        seq![expr_v(s[0])] + exprs_v(s.drop_first())
    }
}

/// The model of a condition.
pub open spec fn cond_v(c: Condition) -> CondV
    decreases c,
{
    CondV {
        left: expr_v(c.left),
        operation: c.operation,
        right: match c.right {
            Some(r) => Some(expr_v(r)),
            None => None,
        },
    }
}

/// The model of a statement.
pub open spec fn stmt_v(s: Statement) -> StmtV
    decreases s,
{
    match s {
        Statement::Assembly(v) => StmtV::Assembly(stmts_v(v@)),
        Statement::AssemblyEnd => StmtV::AssemblyEnd,
        Statement::Assign(l, r, op) => StmtV::Assign(expr_v(l), expr_v(r), op),
        Statement::Catch(v) => StmtV::Catch(stmts_v(v@)),
        Statement::CatchEnd => StmtV::CatchEnd,
        Statement::Comment(t) => StmtV::Comment(t@),
        Statement::Declaration(n, t, v) => StmtV::Declaration(
            n@,
            t@,
            match v {
                Some(x) => Some(expr_v(x)),
                None => None,
            },
        ),
        Statement::Do(a, c, m, v) => StmtV::Do(
            match a {
                Some(b) => Some(Box::new(stmt_v(*b))),
                None => None,
            },
            expr_v(c),
            match m {
                Some(b) => Some(Box::new(stmt_v(*b))),
                None => None,
            },
            stmts_v(v@),
        ),
        Statement::Loop(a, c, m, v) => StmtV::Loop(
            match a {
                Some(b) => Some(Box::new(stmt_v(*b))),
                None => None,
            },
            expr_v(c),
            match m {
                Some(b) => Some(Box::new(stmt_v(*b))),
                None => None,
            },
            stmts_v(v@),
        ),
        Statement::Else(v) => StmtV::Else(stmts_v(v@)),
        Statement::ElseIf(c, v) => StmtV::ElseIf(cond_v(c), stmts_v(v@)),
        Statement::Emit(n, args) => StmtV::Emit(n@, exprs_v(args@)),
        Statement::FunctionCall(e) => StmtV::FunctionCall(expr_v(e)),
        Statement::Group(v) => StmtV::Group(stmts_v(v@)),
        Statement::If(c, v) => StmtV::If(cond_v(c), stmts_v(v@)),
        Statement::IfEnd => StmtV::IfEnd,
        Statement::ModifierBody => StmtV::ModifierBody,
        Statement::Raw(t) => StmtV::Raw(t@),
        Statement::Require(c, t) => StmtV::Require(cond_v(c), t@),
        Statement::Return(e) => StmtV::Return(expr_v(e)),
        Statement::Ternary(c, t, f) => StmtV::Ternary(
            cond_v(c),
            Box::new(stmt_v(*t)),
            Box::new(stmt_v(*f)),
        ),
        Statement::Try(v) => StmtV::Try(stmts_v(v@)),
        Statement::TryEnd => StmtV::TryEnd,
        Statement::While(a, c, m, v) => StmtV::While(
            match a {
                Some(b) => Some(Box::new(stmt_v(*b))),
                None => None,
            },
            expr_v(c),
            match m {
                Some(b) => Some(Box::new(stmt_v(*b))),
                None => None,
            },
            stmts_v(v@),
        ),
        Statement::WhileEnd => StmtV::WhileEnd,
    }
}

/// The models of a sequence of statements.
pub open spec fn stmts_v(s: Seq<Statement>) -> Seq<StmtV>
    decreases s,
{
    if s.len() == 0 {
        Seq::empty()
    } else {
        seq![stmt_v(s[0])] + stmts_v(s.drop_first())
    }
}

/// The models of a sequence of statements, element by element.
pub proof fn lemma_stmts_v(s: Seq<Statement>)
    ensures
        stmts_v(s).len() == s.len(),
        forall|i: int| 0 <= i < s.len() ==> #[trigger] stmts_v(s)[i] == stmt_v(s[i]),
    decreases s.len(),
{
    if s.len() > 0 {
        lemma_stmts_v(s.drop_first());
        assert forall|i: int| 0 <= i < s.len() implies #[trigger] stmts_v(s)[i] == stmt_v(s[i]) by {
            if i > 0 {
                assert(s.drop_first()[i - 1] == s[i]);
            }
        }
    }
}

/// The model of a sequence of statements grown by one statement.
pub proof fn lemma_stmts_v_push(s: Seq<Statement>, e: Statement)
    ensures
        stmts_v(s.push(e)) == stmts_v(s).push(stmt_v(e)),
{
    lemma_stmts_v(s);
    lemma_stmts_v(s.push(e));
    assert(stmts_v(s.push(e)) =~= stmts_v(s).push(stmt_v(e)));
}

/// The models of a sequence, element by element.
pub proof fn lemma_exprs_v(s: Seq<Expression>)
    ensures
        exprs_v(s).len() == s.len(),
        forall|i: int| 0 <= i < s.len() ==> #[trigger] exprs_v(s)[i] == expr_v(s[i]),
    decreases s.len(),
{
    if s.len() > 0 {
        lemma_exprs_v(s.drop_first());
        assert forall|i: int| 0 <= i < s.len() implies #[trigger] exprs_v(s)[i] == expr_v(s[i]) by {
            if i > 0 {
                assert(s.drop_first()[i - 1] == s[i]);
            }
        }
    }
}

/// Two sequences with the same element models have the same model.
pub proof fn lemma_exprs_v_ext(a: Seq<Expression>, b: Seq<Expression>)
    requires
        a.len() == b.len(),
        forall|i: int| 0 <= i < a.len() ==> expr_v(#[trigger] a[i]) == expr_v(b[i]),
    ensures
        exprs_v(a) == exprs_v(b),
{
    lemma_exprs_v(a);
    lemma_exprs_v(b);
    assert(exprs_v(a) =~= exprs_v(b));
}

/// The model of a sequence grown by one expression.
pub proof fn lemma_exprs_v_push(s: Seq<Expression>, e: Expression)
    ensures
        exprs_v(s.push(e)) == exprs_v(s).push(expr_v(e)),
{
    lemma_exprs_v(s);
    lemma_exprs_v(s.push(e));
    assert(exprs_v(s.push(e)) =~= exprs_v(s).push(expr_v(e)));
}

/// A copy of an expression.
pub fn clone_expression(e: &Expression) -> (r: Expression)
    ensures
        expr_v(r) == expr_v(*e),
    decreases e,
{
    match e {
        Expression::Arithmetic(l, r, op) => Expression::Arithmetic(
            Box::new(clone_expression(l)),
            Box::new(clone_expression(r)),
            *op,
        ),
        Expression::Cast(b, t, x) => Expression::Cast(*b, t.clone(), Box::new(clone_expression(x))),
        Expression::Condition(c) => Expression::Condition(Box::new(clone_condition(c))),
        Expression::Constant(s) => Expression::Constant(s.clone()),
        Expression::Enclosed(x) => Expression::Enclosed(Box::new(clone_expression(x))),
        Expression::EnvCaller(s) => Expression::EnvCaller(clone_opt_string(s)),
        Expression::FunctionCall(n, args, sel, ext) => Expression::FunctionCall(
            n.clone(),
            clone_expressions(args),
            clone_opt_string(sel),
            *ext,
        ),
        Expression::IsZero(x) => Expression::IsZero(Box::new(clone_expression(x))),
        Expression::Literal(s) => Expression::Literal(s.clone()),
        Expression::Logical(l, op, r) => Expression::Logical(
            Box::new(clone_expression(l)),
            *op,
            Box::new(clone_expression(r)),
        ),
        Expression::Member(n, sel) => Expression::Member(n.clone(), clone_opt_string(sel)),
        Expression::Mapping(m, idx, val) => Expression::Mapping(
            Box::new(clone_expression(m)),
            clone_expressions(idx),
            match val {
                Some(v) => Some(Box::new(clone_expression(v))),
                None => None,
            },
        ),
        Expression::Modifier(s) => Expression::Modifier(s.clone()),
        Expression::NewArray(t, x) => Expression::NewArray(t.clone(), Box::new(clone_expression(x))),
        Expression::StructArg(n, x) => Expression::StructArg(n.clone(), Box::new(clone_expression(x))),
        Expression::StructInit(n, args) => Expression::StructInit(n.clone(), clone_expressions(args)),
        Expression::Ternary(c, t, f) => Expression::Ternary(
            Box::new(clone_condition(c)),
            Box::new(clone_expression(t)),
            Box::new(clone_expression(f)),
        ),
        Expression::TransferredValue(s) => Expression::TransferredValue(clone_opt_string(s)),
        Expression::WithSelector(l, r) => Expression::WithSelector(
            Box::new(clone_expression(l)),
            Box::new(clone_expression(r)),
        ),
        Expression::ZeroAddressInto => Expression::ZeroAddressInto,
    }
}

/// A copy of a condition.
pub fn clone_condition(c: &Condition) -> (r: Condition)
    ensures
        cond_v(r) == cond_v(*c),
    decreases c,
{
    Condition {
        left: clone_expression(&c.left),
        operation: c.operation,
        right: match &c.right {
            Some(x) => Some(clone_expression(x)),
            None => None,
        },
    }
}

/// A copy of a vector of expressions.
pub fn clone_expressions(v: &Vec<Expression>) -> (r: Vec<Expression>)
    ensures
        exprs_v(r@) == exprs_v(v@),
    decreases v,
{
    let mut r: Vec<Expression> = Vec::new();
    let mut i: usize = 0;
    while i < v.len()
        invariant
            i <= v.len(),
            r@.len() == i,
            forall|j: int| 0 <= j < i ==> expr_v(#[trigger] r@[j]) == expr_v(v@[j]),
        decreases v.len() - i,
    {
        assert(decreases_to!(v => v@[i as int]));
        r.push(clone_expression(&v[i]));
        i = i + 1;
    }
    proof {
        lemma_exprs_v_ext(r@, v@);
    }
    r
}

/// A copy of an optional string.
pub fn clone_opt_string(s: &Option<String>) -> (r: Option<String>)
    ensures
        opt_str_v(r) == opt_str_v(*s),
{
    match s {
        Some(x) => Some(x.clone()),
        None => None,
    }
}

} // verus!
