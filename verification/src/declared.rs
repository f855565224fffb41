//! Events emitted, and structs built from positional arguments, that the
//! contract does not declare (or declares with fewer fields than the call
//! passes): the parsers give such an argument an empty field name, and the
//! contract is then refused.

use vstd::prelude::*;
use crate::structures::{Condition, Contract, ContractField, Expression, Function, Modifier, Statement};
use crate::parser::{ContractV, FunctionV, ModifierV, contract_view, function_view, modifier_view};
use crate::declarations::{EventFieldV, EventV, FieldV, StructFieldV, StructV, field_view};
use crate::parser::ParserError;
use crate::model::{ExprV, CondV, StmtV, expr_v, exprs_v, cond_v, stmt_v, stmts_v, lemma_exprs_v, lemma_stmts_v};
use crate::scope::{Scope, ScopeV, event_field_name_of, empty_scope, lemma_view_scope, last_value, struct_field_name, event_field_name};
use crate::text::chars_of_string;
use crate::statements::{EmitState, emit_field, emit_loop, emit_s};
use crate::expressions::{Imports, member_s};
use crate::formatter::trim_spec;
use crate::imports::add_import;
use crate::types::group_or_empty;
use crate::patterns::EMIT;

verus! {

/// An event or a struct that an argument names but that is not declared
/// with a field for it.
pub enum Missing {
    Event(Seq<char>),
    Struct(Seq<char>),
}

/// Events and structs by name, each with the names of its fields.
pub struct Decls {
    pub events: Seq<(Seq<char>, Seq<Seq<char>>)>,
    pub structs: Seq<(Seq<char>, Seq<Seq<char>>)>,
}

pub open spec fn decls_of(sc: ScopeV) -> Decls {
    Decls { events: sc.events, structs: sc.structs }
}

pub open spec fn no_decls() -> Decls {
    Decls { events: Seq::empty(), structs: Seq::empty() }
}

/// Field `i` of the last entry named `name`, if there is one.
pub open spec fn field_in(t: Seq<(Seq<char>, Seq<Seq<char>>)>, name: Seq<char>, i: int) -> Option<Seq<char>> {
    match last_value(t, name) {
        Some(fields) => if 0 <= i < fields.len() {
            Some(fields[i])
        } else {
            None
        },
        None => None,
    }
}

/// The earlier of two findings.
pub open spec fn first(a: Option<Missing>, b: Option<Missing>) -> Option<Missing> {
    match a {
        Some(x) => Some(x),
        None => b,
    }
}

/// The first finding inside an expression, in reading order.
pub open spec fn expr_missing(e: ExprV, d: Decls) -> Option<Missing>
    decreases e, 0nat,
{
    match e {
        ExprV::Arithmetic(l, r, _) => first(expr_missing(*l, d), expr_missing(*r, d)),
        ExprV::Cast(_, _, x) => expr_missing(*x, d),
        ExprV::Condition(c) => cond_missing(*c, d),
        ExprV::Enclosed(x) => expr_missing(*x, d),
        ExprV::FunctionCall(_, args, _, _) => exprs_missing(args, 0, d),
        ExprV::IsZero(x) => expr_missing(*x, d),
        ExprV::Logical(l, _, r) => first(expr_missing(*l, d), expr_missing(*r, d)),
        ExprV::Mapping(m, idx, val) => first(
            expr_missing(*m, d),
            first(
                exprs_missing(idx, 0, d),
                match val {
                    Some(v) => expr_missing(*v, d),
                    None => None,
                },
            ),
        ),
        ExprV::NewArray(_, x) => expr_missing(*x, d),
        ExprV::StructArg(_, x) => expr_missing(*x, d),
        ExprV::StructInit(n, args) => init_missing(args, 0, n, d),
        ExprV::Ternary(c, t, f) => first(cond_missing(*c, d), first(expr_missing(*t, d), expr_missing(*f, d))),
        ExprV::WithSelector(l, r) => first(expr_missing(*l, d), expr_missing(*r, d)),
        _ => None,
    }
}

pub open spec fn cond_missing(c: CondV, d: Decls) -> Option<Missing>
    decreases c, 0nat,
{
    first(
        expr_missing(c.left, d),
        match c.right {
            Some(r) => expr_missing(r, d),
            None => None,
        },
    )
}

/// The first finding in the expressions of `s` from index `i` on.
pub open spec fn exprs_missing(s: Seq<ExprV>, i: int, d: Decls) -> Option<Missing>
    decreases s, s.len() - i,
{
    if i < 0 || i >= s.len() {
        None
    } else {
        first(expr_missing(s[i], d), exprs_missing(s, i + 1, d))
    }
}

/// The arguments of a struct built by `n(...)` from index `i` on: argument
/// `i` is parsed before its field is looked up.
pub open spec fn init_missing(s: Seq<ExprV>, i: int, n: Seq<char>, d: Decls) -> Option<Missing>
    decreases s, s.len() - i,
{
    if i < 0 || i >= s.len() {
        None
    } else {
        let here = match s[i] {
            ExprV::StructArg(name, v) => first(
                expr_missing(*v, d),
                if name.len() == 0 && field_in(d.structs, n, i) is None {
                    Some(Missing::Struct(n))
                } else {
                    None
                },
            ),
            other => expr_missing(other, d),
        };
        first(here, init_missing(s, i + 1, n, d))
    }
}

} // verus!

verus! {

/// Whether `r` reports the finding `m`.
pub open spec fn reports(r: Option<ParserError>, m: Option<Missing>) -> bool {
    match m {
        None => r is None,
        Some(Missing::Event(n)) => r matches Some(ParserError::EventNotDefined(s)) && s@ == n,
        Some(Missing::Struct(n)) => r matches Some(ParserError::StructNotDefined(s)) && s@ == n,
    }
}

fn expr_missing_exec(e: &Expression, scope: &Scope) -> (r: Option<ParserError>)
    ensures
        reports(r, expr_missing(expr_v(*e), decls_of(scope.view_scope()))),
    decreases e,
{
    match e {
        Expression::Arithmetic(l, r, _) => {
            let a = expr_missing_exec(l, scope);
            if a.is_some() {
                return a;
            }
            expr_missing_exec(r, scope)
        },
        Expression::Cast(_, _, x) => expr_missing_exec(x, scope),
        Expression::Condition(c) => cond_missing_exec(c, scope),
        Expression::Enclosed(x) => expr_missing_exec(x, scope),
        Expression::FunctionCall(_, args, _, _) => exprs_missing_exec(args, scope),
        Expression::IsZero(x) => expr_missing_exec(x, scope),
        Expression::Logical(l, _, r) => {
            let a = expr_missing_exec(l, scope);
            if a.is_some() {
                return a;
            }
            expr_missing_exec(r, scope)
        },
        Expression::Mapping(m, idx, val) => {
            let a = expr_missing_exec(m, scope);
            if a.is_some() {
                return a;
            }
            let b = exprs_missing_exec(idx, scope);
            if b.is_some() {
                return b;
            }
            match val {
                Some(v) => expr_missing_exec(v, scope),
                None => None,
            }
        },
        Expression::NewArray(_, x) => expr_missing_exec(x, scope),
        Expression::StructArg(_, x) => expr_missing_exec(x, scope),
        Expression::StructInit(n, args) => init_missing_exec(n, args, scope),
        Expression::Ternary(c, t, f) => {
            let a = cond_missing_exec(c, scope);
            if a.is_some() {
                return a;
            }
            let b = expr_missing_exec(t, scope);
            if b.is_some() {
                return b;
            }
            expr_missing_exec(f, scope)
        },
        Expression::WithSelector(l, r) => {
            let a = expr_missing_exec(l, scope);
            if a.is_some() {
                return a;
            }
            expr_missing_exec(r, scope)
        },
        _ => None,
    }
}

fn cond_missing_exec(c: &Condition, scope: &Scope) -> (r: Option<ParserError>)
    ensures
        reports(r, cond_missing(cond_v(*c), decls_of(scope.view_scope()))),
    decreases c,
{
    let a = expr_missing_exec(&c.left, scope);
    if a.is_some() {
        return a;
    }
    match &c.right {
        Some(x) => expr_missing_exec(x, scope),
        None => None,
    }
}

fn exprs_missing_exec(v: &Vec<Expression>, scope: &Scope) -> (r: Option<ParserError>)
    ensures
        reports(r, exprs_missing(exprs_v(v@), 0, decls_of(scope.view_scope()))),
    decreases v,
{
    let ghost d = decls_of(scope.view_scope());
    let ghost s = exprs_v(v@);
    proof {
        lemma_exprs_v(v@);
    }
    let mut i: usize = 0;
    while i < v.len()
        invariant
            i <= v.len(),
            d == decls_of(scope.view_scope()),
            s == exprs_v(v@),
            s.len() == v.len(),
            forall|j: int| 0 <= j < v.len() ==> #[trigger] s[j] == expr_v(v@[j]),
            exprs_missing(s, 0, d) == exprs_missing(s, i as int, d),
        decreases v.len() - i,
    {
        assert(decreases_to!(v => v@[i as int]));
        let a = expr_missing_exec(&v[i], scope);
        assert(s[i as int] == expr_v(v@[i as int]));
        if a.is_some() {
            return a;
        }
        i = i + 1;
    }
    None
}

fn init_missing_exec(n: &String, v: &Vec<Expression>, scope: &Scope) -> (r: Option<ParserError>)
    ensures
        reports(r, init_missing(exprs_v(v@), 0, n@, decls_of(scope.view_scope()))),
    decreases v,
{
    let ghost d = decls_of(scope.view_scope());
    let ghost s = exprs_v(v@);
    proof {
        lemma_exprs_v(v@);
    }
    let name_chars = chars_of_string(n);
    let mut i: usize = 0;
    while i < v.len()
        invariant
            i <= v.len(),
            d == decls_of(scope.view_scope()),
            name_chars@ == n@,
            s == exprs_v(v@),
            s.len() == v.len(),
            forall|j: int| 0 <= j < v.len() ==> #[trigger] s[j] == expr_v(v@[j]),
            init_missing(s, 0, n@, d) == init_missing(s, i as int, n@, d),
        decreases v.len() - i,
    {
        assert(decreases_to!(v => v@[i as int]));
        assert(s[i as int] == expr_v(v@[i as int]));
        match &v[i] {
            Expression::StructArg(field, x) => {
                let a = expr_missing_exec(x, scope);
                if a.is_some() {
                    return a;
                }
                if chars_of_string(field).len() == 0 {
                    let f = struct_field_name(scope, &name_chars, i);
                    if f.is_none() {
                        return Some(ParserError::StructNotDefined(n.clone()));
                    }
                }
            },
            other => {
                let a = expr_missing_exec(other, scope);
                if a.is_some() {
                    return a;
                }
            },
        }
        i = i + 1;
    }
    None
}

} // verus!

verus! {

/// The arguments of `emit n(...)` from index `i` on: the field of argument
/// `i` is looked up before the argument is parsed.
pub open spec fn emit_missing(s: Seq<ExprV>, i: int, n: Seq<char>, d: Decls) -> Option<Missing>
    decreases s.len() - i,
{
    if i < 0 || i >= s.len() {
        None
    } else {
        let here = match s[i] {
            ExprV::StructArg(name, v) => first(
                if name.len() == 0 && field_in(d.events, n, i) is None {
                    Some(Missing::Event(n))
                } else {
                    None
                },
                expr_missing(*v, d),
            ),
            other => expr_missing(other, d),
        };
        first(here, emit_missing(s, i + 1, n, d))
    }
}

/// The first finding inside a statement, in reading order.
pub open spec fn stmt_missing(s: StmtV, d: Decls) -> Option<Missing>
    decreases s, 0nat,
{
    match s {
        StmtV::Assembly(v) => stmts_missing(v, 0, d),
        StmtV::Assign(l, r, _) => first(expr_missing(l, d), expr_missing(r, d)),
        StmtV::Catch(v) => stmts_missing(v, 0, d),
        StmtV::Declaration(_, _, v) => match v {
            Some(x) => expr_missing(x, d),
            None => None,
        },
        StmtV::Do(a, c, m, v) => first(
            match a {
                Some(b) => stmt_missing(*b, d),
                None => None,
            },
            first(
                expr_missing(c, d),
                first(
                    match m {
                        Some(b) => stmt_missing(*b, d),
                        None => None,
                    },
                    stmts_missing(v, 0, d),
                ),
            ),
        ),
        StmtV::Loop(a, c, m, v) => first(
            match a {
                Some(b) => stmt_missing(*b, d),
                None => None,
            },
            first(
                expr_missing(c, d),
                first(
                    match m {
                        Some(b) => stmt_missing(*b, d),
                        None => None,
                    },
                    stmts_missing(v, 0, d),
                ),
            ),
        ),
        StmtV::Else(v) => stmts_missing(v, 0, d),
        StmtV::ElseIf(c, v) => first(cond_missing(c, d), stmts_missing(v, 0, d)),
        StmtV::Emit(n, args) => emit_missing(args, 0, n, d),
        StmtV::FunctionCall(e) => expr_missing(e, d),
        StmtV::Group(v) => stmts_missing(v, 0, d),
        StmtV::If(c, v) => first(cond_missing(c, d), stmts_missing(v, 0, d)),
        StmtV::Require(c, _) => cond_missing(c, d),
        StmtV::Return(e) => expr_missing(e, d),
        StmtV::Ternary(c, t, f) => first(cond_missing(c, d), first(stmt_missing(*t, d), stmt_missing(*f, d))),
        StmtV::Try(v) => stmts_missing(v, 0, d),
        StmtV::While(a, c, m, v) => first(
            match a {
                Some(b) => stmt_missing(*b, d),
                None => None,
            },
            first(
                expr_missing(c, d),
                first(
                    match m {
                        Some(b) => stmt_missing(*b, d),
                        None => None,
                    },
                    stmts_missing(v, 0, d),
                ),
            ),
        ),
        _ => None,
    }
}

/// The first finding in the statements of `s` from index `i` on.
pub open spec fn stmts_missing(s: Seq<StmtV>, i: int, d: Decls) -> Option<Missing>
    decreases s, s.len() - i,
{
    if i < 0 || i >= s.len() {
        None
    } else {
        first(stmt_missing(s[i], d), stmts_missing(s, i + 1, d))
    }
}

fn emit_missing_exec(n: &String, v: &Vec<Expression>, scope: &Scope) -> (r: Option<ParserError>)
    ensures
        reports(r, emit_missing(exprs_v(v@), 0, n@, decls_of(scope.view_scope()))),
{
    let ghost d = decls_of(scope.view_scope());
    let ghost s = exprs_v(v@);
    proof {
        lemma_exprs_v(v@);
    }
    let name_chars = chars_of_string(n);
    let mut i: usize = 0;
    while i < v.len()
        invariant
            i <= v.len(),
            d == decls_of(scope.view_scope()),
            name_chars@ == n@,
            s == exprs_v(v@),
            s.len() == v.len(),
            forall|j: int| 0 <= j < v.len() ==> #[trigger] s[j] == expr_v(v@[j]),
            emit_missing(s, 0, n@, d) == emit_missing(s, i as int, n@, d),
        decreases v.len() - i,
    {
        assert(s[i as int] == expr_v(v@[i as int]));
        match &v[i] {
            Expression::StructArg(field, x) => {
                if chars_of_string(field).len() == 0 {
                    let f = event_field_name(scope, &name_chars, i);
                    if f.is_none() {
                        return Some(ParserError::EventNotDefined(n.clone()));
                    }
                }
                let a = expr_missing_exec(x, scope);
                if a.is_some() {
                    return a;
                }
            },
            other => {
                let a = expr_missing_exec(other, scope);
                if a.is_some() {
                    return a;
                }
            },
        }
        i = i + 1;
    }
    None
}

fn stmt_missing_exec(st: &Statement, scope: &Scope) -> (r: Option<ParserError>)
    ensures
        reports(r, stmt_missing(stmt_v(*st), decls_of(scope.view_scope()))),
    decreases st, 1nat,
{
    match st {
        Statement::Assembly(v) => stmts_missing_exec(v, scope),
        Statement::Assign(l, r, _) => {
            let a = expr_missing_exec(l, scope);
            if a.is_some() {
                return a;
            }
            expr_missing_exec(r, scope)
        },
        Statement::Catch(v) => stmts_missing_exec(v, scope),
        Statement::Declaration(_, _, v) => match v {
            Some(x) => expr_missing_exec(x, scope),
            None => None,
        },
        Statement::Do(..) => loop_missing_exec(st, scope),
        Statement::Loop(..) => loop_missing_exec(st, scope),
        Statement::Else(v) => stmts_missing_exec(v, scope),
        Statement::ElseIf(c, v) => {
            let a = cond_missing_exec(c, scope);
            if a.is_some() {
                return a;
            }
            stmts_missing_exec(v, scope)
        },
        Statement::Emit(n, args) => emit_missing_exec(n, args, scope),
        Statement::FunctionCall(e) => expr_missing_exec(e, scope),
        Statement::Group(v) => stmts_missing_exec(v, scope),
        Statement::If(c, v) => {
            let a = cond_missing_exec(c, scope);
            if a.is_some() {
                return a;
            }
            stmts_missing_exec(v, scope)
        },
        Statement::Require(c, _) => cond_missing_exec(c, scope),
        Statement::Return(e) => expr_missing_exec(e, scope),
        Statement::Ternary(c, t, f) => {
            let a = cond_missing_exec(c, scope);
            if a.is_some() {
                return a;
            }
            let b = stmt_missing_exec(t, scope);
            if b.is_some() {
                return b;
            }
            stmt_missing_exec(f, scope)
        },
        Statement::Try(v) => stmts_missing_exec(v, scope),
        Statement::While(..) => loop_missing_exec(st, scope),
        _ => None,
    }
}

/// The parts of a `for`, `while` or `do` loop, in order.
fn loop_missing_exec(st: &Statement, scope: &Scope) -> (r: Option<ParserError>)
    requires
        st is Do || st is Loop || st is While,
    ensures
        reports(r, stmt_missing(stmt_v(*st), decls_of(scope.view_scope()))),
    decreases st, 0nat,
{
    let (a, c, m, v) = match st {
        Statement::Do(a, c, m, v) => (a, c, m, v),
        Statement::Loop(a, c, m, v) => (a, c, m, v),
        Statement::While(a, c, m, v) => (a, c, m, v),
        _ => {
            return None;
        },
    };
    let x = match a {
        Some(b) => stmt_missing_exec(b, scope),
        None => None,
    };
    if x.is_some() {
        return x;
    }
    let y = expr_missing_exec(c, scope);
    if y.is_some() {
        return y;
    }
    let z = match m {
        Some(b) => stmt_missing_exec(b, scope),
        None => None,
    };
    if z.is_some() {
        return z;
    }
    stmts_missing_exec(v, scope)
}

fn stmts_missing_exec(v: &Vec<Statement>, scope: &Scope) -> (r: Option<ParserError>)
    ensures
        reports(r, stmts_missing(stmts_v(v@), 0, decls_of(scope.view_scope()))),
    decreases v, 0nat,
{
    let ghost d = decls_of(scope.view_scope());
    let ghost s = stmts_v(v@);
    proof {
        lemma_stmts_v(v@);
    }
    let mut i: usize = 0;
    while i < v.len()
        invariant
            i <= v.len(),
            d == decls_of(scope.view_scope()),
            s == stmts_v(v@),
            s.len() == v.len(),
            forall|j: int| 0 <= j < v.len() ==> #[trigger] s[j] == stmt_v(v@[j]),
            stmts_missing(s, 0, d) == stmts_missing(s, i as int, d),
        decreases v.len() - i,
    {
        assert(decreases_to!(v => v@[i as int]));
        let a = stmt_missing_exec(&v[i], scope);
        assert(s[i as int] == stmt_v(v@[i as int]));
        if a.is_some() {
            return a;
        }
        i = i + 1;
    }
    None
}

} // verus!

verus! {

/// The initial values of state variables from index `i` on; they are parsed
/// before anything is declared.
pub open spec fn fields_missing(fs: Seq<FieldV>, i: int) -> Option<Missing>
    decreases fs.len() - i,
{
    if i < 0 || i >= fs.len() {
        None
    } else {
        first(
            match fs[i].initial_value {
                Some(x) => expr_missing(x, no_decls()),
                None => None,
            },
            fields_missing(fs, i + 1),
        )
    }
}

/// The functions from index `i` on: the modifier calls of each, then its body.
pub open spec fn functions_missing(fs: Seq<FunctionV>, i: int, d: Decls) -> Option<Missing>
    decreases fs.len() - i,
{
    if i < 0 || i >= fs.len() {
        None
    } else {
        first(
            first(exprs_missing(fs[i].header.modifiers, 0, d), stmts_missing(fs[i].body, 0, d)),
            functions_missing(fs, i + 1, d),
        )
    }
}

/// The bodies of the modifiers from index `i` on.
pub open spec fn modifiers_missing(ms: Seq<ModifierV>, i: int, d: Decls) -> Option<Missing>
    decreases ms.len() - i,
{
    if i < 0 || i >= ms.len() {
        None
    } else {
        first(stmts_missing(ms[i].statements, 0, d), modifiers_missing(ms, i + 1, d))
    }
}

pub open spec fn event_entry(e: EventV) -> (Seq<char>, Seq<Seq<char>>) {
    (e.name, e.fields.map_values(|f: EventFieldV| f.name))
}

pub open spec fn struct_entry(s: StructV) -> (Seq<char>, Seq<Seq<char>>) {
    (s.name, s.fields.map_values(|f: StructFieldV| f.name))
}

/// The events and structs that a contract declares.
pub open spec fn contract_decls(c: ContractV) -> Decls {
    Decls {
        events: c.events.map_values(|e: EventV| event_entry(e)),
        structs: c.structs.map_values(|s: StructV| struct_entry(s)),
    }
}

/// The first event or struct of a contract that is used without a field for
/// an argument: in the initial values of its state variables, then in its
/// functions, its modifiers and its constructor.
pub open spec fn contract_missing(c: ContractV) -> Option<Missing> {
    let d = contract_decls(c);
    first(
        fields_missing(c.fields, 0),
        first(
            functions_missing(c.functions, 0, d),
            first(modifiers_missing(c.modifiers, 0, d), stmts_missing(c.constructor.body, 0, d)),
        ),
    )
}

fn fields_missing_exec(fs: &Vec<ContractField>) -> (r: Option<ParserError>)
    ensures
        reports(r, fields_missing(fs@.map_values(|f: ContractField| field_view(f)), 0)),
{
    let ghost s = fs@.map_values(|f: ContractField| field_view(f));
    let scope = empty_scope();
    assert(decls_of(scope.view_scope()) == no_decls());
    let mut i: usize = 0;
    while i < fs.len()
        invariant
            i <= fs.len(),
            s == fs@.map_values(|f: ContractField| field_view(f)),
            decls_of(scope.view_scope()) == no_decls(),
            fields_missing(s, 0) == fields_missing(s, i as int),
        decreases fs.len() - i,
    {
        assert(s[i as int] == field_view(fs@[i as int]));
        let a = match &fs[i].initial_value {
            Some(x) => expr_missing_exec(x, &scope),
            None => None,
        };
        if a.is_some() {
            return a;
        }
        i = i + 1;
    }
    None
}

fn functions_missing_exec(fs: &Vec<Function>, scope: &Scope) -> (r: Option<ParserError>)
    ensures
        reports(
            r,
            functions_missing(fs@.map_values(|f: Function| function_view(f)), 0, decls_of(scope.view_scope())),
        ),
{
    let ghost s = fs@.map_values(|f: Function| function_view(f));
    let ghost d = decls_of(scope.view_scope());
    let mut i: usize = 0;
    while i < fs.len()
        invariant
            i <= fs.len(),
            s == fs@.map_values(|f: Function| function_view(f)),
            d == decls_of(scope.view_scope()),
            functions_missing(s, 0, d) == functions_missing(s, i as int, d),
        decreases fs.len() - i,
    {
        assert(s[i as int] == function_view(fs@[i as int]));
        let a = exprs_missing_exec(&fs[i].header.modifiers, scope);
        if a.is_some() {
            return a;
        }
        let b = stmts_missing_exec(&fs[i].body, scope);
        if b.is_some() {
            return b;
        }
        i = i + 1;
    }
    None
}

fn modifiers_missing_exec(ms: &Vec<Modifier>, scope: &Scope) -> (r: Option<ParserError>)
    ensures
        reports(
            r,
            modifiers_missing(ms@.map_values(|m: Modifier| modifier_view(m)), 0, decls_of(scope.view_scope())),
        ),
{
    let ghost s = ms@.map_values(|m: Modifier| modifier_view(m));
    let ghost d = decls_of(scope.view_scope());
    let mut i: usize = 0;
    while i < ms.len()
        invariant
            i <= ms.len(),
            s == ms@.map_values(|m: Modifier| modifier_view(m)),
            d == decls_of(scope.view_scope()),
            modifiers_missing(s, 0, d) == modifiers_missing(s, i as int, d),
        decreases ms.len() - i,
    {
        assert(s[i as int] == modifier_view(ms@[i as int]));
        let a = stmts_missing_exec(&ms[i].statements, scope);
        if a.is_some() {
            return a;
        }
        i = i + 1;
    }
    None
}

/// Hands a parsed contract back when every event it emits and every struct
/// it builds from positional arguments is declared with a field for each
/// argument; otherwise the error that names the first one found.
pub fn contract_check(c: Contract) -> (r: Result<Contract, ParserError>)
    ensures
        match contract_missing(contract_view(c)) {
            None => r matches Ok(x) && x == c,
            Some(m) => r matches Err(e) && reports(Some(e), Some(m)),
        },
{
    let ghost cv = contract_view(c);
    let a = fields_missing_exec(&c.fields);
    if a.is_some() {
        return Err(a.unwrap());
    }
    let Contract { name, fields, constructor, events, enums, structs, functions, imports, contract_doc, modifiers } = c;
    let scope = Scope { storage: Vec::new(), functions: Vec::new(), events, structs };
    proof {
        lemma_view_scope(&scope);
        let d = decls_of(scope.view_scope());
        let e = contract_decls(cv);
        assert forall|i: int| 0 <= i < d.events.len() implies d.events[i] == e.events[i] by {
            assert(d.events[i].1 =~= e.events[i].1);
        }
        assert forall|i: int| 0 <= i < d.structs.len() implies d.structs[i] == e.structs[i] by {
            assert(d.structs[i].1 =~= e.structs[i].1);
        }
        assert(d.events =~= e.events);
        assert(d.structs =~= e.structs);
    }
    let b = functions_missing_exec(&functions, &scope);
    let b = if b.is_some() {
        b
    } else {
        let m = modifiers_missing_exec(&modifiers, &scope);
        if m.is_some() {
            m
        } else {
            stmts_missing_exec(&constructor.body, &scope)
        }
    };
    let Scope { storage: _, functions: _, events, structs } = scope;
    match b {
        Some(e) => Err(e),
        None => Ok(Contract { name, fields, constructor, events, enums, structs, functions, imports, contract_doc, modifiers }),
    }
}

} // verus!

verus! {

/// Every argument collected so far is a field assignment named after the
/// event's field at its position, empty where the event has no such field.
pub open spec fn emit_args_named(args: Seq<ExprV>, sc: ScopeV, event: Seq<char>) -> bool {
    forall|i: int|
        0 <= i < args.len() ==> (#[trigger] args[i] matches ExprV::StructArg(n, _) && n == emit_field(
            sc,
            event,
            i as nat,
        ))
}

proof fn lemma_emit_loop_named(chars: Seq<char>, event: Seq<char>, st: EmitState, c: bool, sc: ScopeV, fuel: nat)
    requires
        st.count == st.args.len(),
        emit_args_named(st.args, sc, event),
    ensures
        ({
            let r = emit_loop(chars, event, st, c, sc, fuel);
            &&& r.count == r.args.len()
            &&& emit_args_named(r.args, sc, event)
        }),
    decreases chars.len(),
{
    if chars.len() > 0 && fuel > 0 {
        let ch = chars[0];
        if ch == '(' {
            lemma_emit_loop_named(chars.drop_first(), event, EmitState { open: st.open + 1, buf: st.buf.push(ch), ..st }, c, sc, fuel);
        } else if ch == ')' {
            lemma_emit_loop_named(chars.drop_first(), event, EmitState { close: st.close + 1, buf: st.buf.push(ch), ..st }, c, sc, fuel);
        } else if ch == ',' && st.open == st.close {
            let (x, imp1) = member_s(trim_spec(st.buf), c, sc, st.imports, Seq::empty(), (fuel - 1) as nat);
            let next = EmitState {
                args: st.args.push(ExprV::StructArg(emit_field(sc, event, st.count), Box::new(x))),
                buf: Seq::empty(),
                count: st.count + 1,
                imports: imp1,
                ..st
            };
            assert(emit_args_named(next.args, sc, event)) by {
                assert forall|i: int| 0 <= i < next.args.len() implies (#[trigger] next.args[i] matches ExprV::StructArg(
                    n,
                    _,
                ) && n == emit_field(sc, event, i as nat)) by {
                    if i < st.args.len() {
                        assert(next.args[i] == st.args[i]);
                    }
                }
            }
            lemma_emit_loop_named(chars.drop_first(), event, next, c, sc, fuel);
        } else {
            lemma_emit_loop_named(chars.drop_first(), event, EmitState { buf: st.buf.push(ch), ..st }, c, sc, fuel);
        }
    }
}

/// The event that `emit` names in `line`.
pub open spec fn emitted_event(line: Seq<char>) -> Seq<char> {
    group_or_empty(EMIT@, line, "event_name"@)
}

/// An `emit` parses into an event and its arguments, each named after the
/// event's field at its position, or empty where the event has no such
/// field.
pub proof fn lemma_emit_named(line: Seq<char>, c: bool, sc: ScopeV, imp: Imports, fuel: nat)
    requires
        fuel > 0,
    ensures
        emit_s(line, c, sc, imp, fuel).0 matches StmtV::Emit(n, args) && n == emitted_event(line) && args.len() > 0
            && emit_args_named(args, sc, n),
{
    reveal(emit_s);
    let event = emitted_event(line);
    let imp1 = add_import(imp, "use ink_lang::codegen::EmitEvent;"@);
    let st0 = EmitState { args: Seq::empty(), buf: Seq::empty(), open: 0, close: 0, count: 0, imports: imp1 };
    lemma_emit_loop_named(group_or_empty(EMIT@, line, "args"@), event, st0, c, sc, fuel);
    let st = emit_loop(group_or_empty(EMIT@, line, "args"@), event, st0, c, sc, fuel);
    let (last, imp2) = member_s(trim_spec(st.buf), c, sc, st.imports, Seq::empty(), (fuel - 1) as nat);
    let args = st.args.push(ExprV::StructArg(emit_field(sc, event, st.count), Box::new(last)));
    assert forall|i: int| 0 <= i < args.len() implies (#[trigger] args[i] matches ExprV::StructArg(n, _) && n
        == emit_field(sc, event, i as nat)) by {
        if i < st.args.len() {
            assert(args[i] == st.args[i]);
        }
    }
}

/// A finding at or after index `k` of an emit's arguments makes the
/// arguments from `k` on report something.
proof fn lemma_emit_missing_some(s: Seq<ExprV>, k: int, i: int, n: Seq<char>, d: Decls)
    requires
        0 <= k <= i < s.len(),
        s[i] matches ExprV::StructArg(name, _) && name.len() == 0,
        field_in(d.events, n, i) is None,
    ensures
        emit_missing(s, k, n, d) is Some,
    decreases i - k,
{
    if k < i {
        lemma_emit_missing_some(s, k + 1, i, n, d);
    }
}

/// An `emit` of an event that is not declared is reported with that event's
/// name, and so is one with an argument past the event's last field.
pub proof fn lemma_emit_reported(line: Seq<char>, c: bool, sc: ScopeV, imp: Imports, fuel: nat)
    requires
        fuel > 0,
    ensures
        last_value(sc.events, emitted_event(line)) is None ==> stmt_missing(emit_s(line, c, sc, imp, fuel).0, decls_of(sc))
            == Some(Missing::Event(emitted_event(line))),
        emit_s(line, c, sc, imp, fuel).0 matches StmtV::Emit(n, args) && (exists|i: int|
            0 <= i < args.len() && #[trigger] event_field_name_of(sc, n, i) is None) ==> stmt_missing(
            emit_s(line, c, sc, imp, fuel).0,
            decls_of(sc),
        ) is Some,
{
    lemma_emit_named(line, c, sc, imp, fuel);
    let s = emit_s(line, c, sc, imp, fuel).0;
    let d = decls_of(sc);
    if let StmtV::Emit(n, args) = s {
        assert(args[0] matches ExprV::StructArg(_, _));
        if exists|i: int| 0 <= i < args.len() && #[trigger] event_field_name_of(sc, n, i) is None {
            let i = choose|i: int| 0 <= i < args.len() && #[trigger] event_field_name_of(sc, n, i) is None;
            assert(args[i] matches ExprV::StructArg(_, _));
            lemma_emit_missing_some(args, 0, i, n, d);
        }
    }
}

} // verus!
