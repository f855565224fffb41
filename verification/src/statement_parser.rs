//! The statement parser: turns the raw statements of a function or modifier
//! body into `Statement`s, each function computing the spec function of
//! `statements` that carries its name.

use vstd::prelude::*;
use crate::structures::{Block, Expression, Operation, Statement};
use crate::model::{ExprV, StmtV, expr_v, stmt_v, stmts_v, lemma_stmts_v_push, clone_expression,
    clone_expressions, lemma_exprs_v_push, exprs_v};
use crate::scope::{Scope, event_field_name, event_field_name_of, last_value};
use crate::expressions::{parse_member_fuel, parse_condition_fuel, parse_function_call_fuel, enc_v, condition_s, member_s};
use crate::pattern::{is_match, capture};
use crate::patterns::{RETURN, DECLARE, REQUIRE, COMMENT, CONDITION_ONE_LINE, DO, IF, ELSE, ELSE_IF,
    UNCHECKED, END_BLOCK, TRY, ASSEMBLY, CATCH, EMIT, ASSIGN, FUNCTION_CALL, DOUBLE_SIGN_RIGHT,
    DOUBLE_SIGN_LEFT, FOR, WHILE, TERNARY};
use crate::types::{lookup_operation, capture_or_empty, convert_variable_type, group_or_empty};
use crate::imports::insert_import;
use crate::text::{chars_of, chars_of_string, chars_eq_str, string_from_chars, concat, replace_str};
use crate::formatter::{collapse_and_trim, strings_view};
use crate::statements::{LineKind, statement_kind, return_s, declaration_s, require_s, assembly_s, assembly_loop, do_condition, stmt_s, block_loop, one_line_s, for_s, ternary_stmt_s, block_end, block_until, block_of, increment_op, double_sign_s, arithmetic_of, assignment_of, assign_s, EmitState, emit_field, emit_s, emit_loop, lines_v, clean_line, not_implemented, lemma_stmt_s, lemma_block_loop, lemma_one_line_s, lemma_for_s, lemma_ternary_stmt_s, statements_loop, statements_s, opened};

use crate::imports::no_duplicates;
use crate::declared::{Missing, decls_of, emitted_event, lemma_emit_reported, stmt_missing};
verus! {

fn lit(s: &str) -> (r: Vec<char>)
    ensures
        r@ == s@,
{
    chars_of(s)
}

fn text(v: &Vec<char>) -> (r: String)
    ensures
        r@ == v@,
{
    string_from_chars(v)
}

fn comment(s: &str) -> (r: Statement)
    ensures
        stmt_v(r) == StmtV::Comment(s@),
{
    Statement::Comment(text(&lit(s)))
}

fn not_implemented_exec(line: &Vec<char>) -> (r: Statement)
    ensures
        stmt_v(r) == not_implemented(line@),
{
    Statement::Comment(text(&concat(&lit("Sol2Ink Not Implemented yet: "), line)))
}

/// The statement text with whitespace normalised and ` memory `,
/// ` calldata ` and ` storage ` taken out.
pub fn clean(line_raw: &Vec<char>) -> (r: Vec<char>)
    ensures
        r@ == clean_line(line_raw@),
{
    let t = collapse_and_trim(line_raw);
    proof {
        reveal_strlit(" memory ");
        reveal_strlit(" calldata ");
        reveal_strlit(" storage ");
    }
    let a = replace_str(&t, " memory ", " ");
    let b = replace_str(&a, " calldata ", " ");
    replace_str(&b, " storage ", " ")
}

spec fn is_block_end(s: Statement) -> bool {
    s == Statement::IfEnd || s == Statement::WhileEnd || s == Statement::TryEnd || s
        == Statement::CatchEnd
}

fn same_end(s: &Statement, until: &Statement) -> (r: bool)
    requires
        is_block_end(*until),
    ensures
        r == (stmt_v(*s) == stmt_v(*until)),
{
    match (s, until) {
        (Statement::IfEnd, Statement::IfEnd) => true,
        (Statement::WhileEnd, Statement::WhileEnd) => true,
        (Statement::TryEnd, Statement::TryEnd) => true,
        (Statement::CatchEnd, Statement::CatchEnd) => true,
        _ => false,
    }
}

fn end_statement(b: Block) -> (r: Statement)
    ensures
        stmt_v(r) == block_end(b),
{
    match b {
        Block::Assembly => Statement::AssemblyEnd,
        Block::Catch => Statement::CatchEnd,
        Block::Unchecked => comment("<<< Please handle unchecked blocks manually"),
        Block::If => Statement::IfEnd,
        Block::Else => Statement::IfEnd,
        Block::ElseIf => Statement::IfEnd,
        Block::Try => Statement::TryEnd,
        Block::While => Statement::WhileEnd,
    }
}

/// The kind of a cleaned statement line.
fn classify(line: &Vec<char>) -> (r: LineKind)
    ensures
        r == statement_kind(line@),
{
    proof {
        reveal(statement_kind);
    }
    if chars_eq_str(line, "_;") {
        LineKind::ModifierBody
    } else if is_match(RETURN, line) {
        LineKind::Return
    } else if is_match(DECLARE, line) {
        LineKind::Declaration
    } else if is_match(REQUIRE, line) {
        LineKind::Require
    } else if is_match(COMMENT, line) {
        LineKind::Comment
    } else if is_match(CONDITION_ONE_LINE, line) {
        LineKind::OneLine
    } else if is_match(IF, line) {
        LineKind::If
    } else if is_match(ELSE, line) {
        LineKind::Else
    } else if is_match(ELSE_IF, line) {
        LineKind::ElseIf
    } else if is_match(UNCHECKED, line) {
        LineKind::Unchecked
    } else if is_match(END_BLOCK, line) {
        LineKind::EndBlock
    } else if is_match(TRY, line) {
        LineKind::Try
    } else if is_match(FOR, line) {
        LineKind::For
    } else if is_match(DO, line) {
        LineKind::Do
    } else if is_match(WHILE, line) {
        LineKind::While
    } else if is_match(ASSEMBLY, line) {
        LineKind::Assembly
    } else if is_match(CATCH, line) {
        LineKind::Catch
    } else if is_match(EMIT, line) {
        LineKind::Emit
    } else if is_match(ASSIGN, line) {
        LineKind::Assign
    } else if is_match(TERNARY, line) {
        LineKind::Ternary
    } else if is_match(DOUBLE_SIGN_RIGHT, line) {
        LineKind::IncrementAfter
    } else if is_match(DOUBLE_SIGN_LEFT, line) {
        LineKind::IncrementBefore
    } else if is_match(FUNCTION_CALL, line) {
        LineKind::Call
    } else {
        LineKind::Unknown
    }
}

/// `return value;` (`parse_return`).
fn parse_return(line: &Vec<char>, scope: &Scope, imports: &mut Vec<String>, fuel: usize) -> (r: Statement)
    requires
        fuel > 0,
    ensures
        no_duplicates(strings_view(old(imports)@)) ==> no_duplicates(strings_view(final(imports)@)),
        ({
            let (s, i) = return_s(line@, scope.view_scope(), strings_view(old(imports)@), fuel as nat);
            stmt_v(r) == s && strings_view(final(imports)@) == i
        }),
    decreases fuel, 1nat,
{
    proof {
        reveal(return_s);
    }
    let no_enclosed: Vec<(String, Expression)> = Vec::new();
    assert(enc_v(no_enclosed@) =~= Seq::<(Seq<char>, ExprV)>::empty());
    let output_raw = capture_or_empty(RETURN, line, "output");
    let output = parse_member_fuel(&output_raw, false, scope, imports, &no_enclosed, fuel - 1);
    Statement::Return(output)
}

/// `type name = value;` or `type name;` (`parse_declaration`).
fn parse_declaration(
    line: &Vec<char>,
    constructor: bool,
    scope: &Scope,
    imports: &mut Vec<String>,
    fuel: usize,
) -> (r: Statement)
    requires
        fuel > 0,
    ensures
        no_duplicates(strings_view(old(imports)@)) ==> no_duplicates(strings_view(final(imports)@)),
        ({
            let (s, i) = declaration_s(
                line@,
                constructor,
                scope.view_scope(),
                strings_view(old(imports)@),
                fuel as nat,
            );
            stmt_v(r) == s && strings_view(final(imports)@) == i
        }),
    decreases fuel, 1nat,
{
    proof {
        reveal(declaration_s);
    }
    let no_enclosed: Vec<(String, Expression)> = Vec::new();
    assert(enc_v(no_enclosed@) =~= Seq::<(Seq<char>, ExprV)>::empty());
    let field_type_raw = capture_or_empty(DECLARE, line, "field_type");
    let field_name = capture_or_empty(DECLARE, line, "field_name");
    let value_raw = capture(DECLARE, line, "value");
    let field_type = convert_variable_type(&field_type_raw, imports);
    match value_raw {
        Some(v) => {
            let x = parse_member_fuel(&v, constructor, scope, imports, &no_enclosed, fuel - 1);
            Statement::Declaration(text(&field_name), text(&field_type), Some(x))
        },
        None => Statement::Declaration(text(&field_name), text(&field_type), None),
    }
}

/// `require(condition, "error");` (`parse_require`).
fn parse_require(
    line: &Vec<char>,
    constructor: bool,
    scope: &Scope,
    imports: &mut Vec<String>,
    fuel: usize,
) -> (r: Statement)
    requires
        fuel > 0,
    ensures
        no_duplicates(strings_view(old(imports)@)) ==> no_duplicates(strings_view(final(imports)@)),
        ({
            let (s, i) = require_s(
                line@,
                constructor,
                scope.view_scope(),
                strings_view(old(imports)@),
                fuel as nat,
            );
            stmt_v(r) == s && strings_view(final(imports)@) == i
        }),
    decreases fuel, 1nat,
{
    proof {
        reveal(require_s);
    }
    let no_enclosed: Vec<(String, Expression)> = Vec::new();
    assert(enc_v(no_enclosed@) =~= Seq::<(Seq<char>, ExprV)>::empty());
    insert_import(imports, "use ink::prelude::string::String;");
    let condition_raw = capture_or_empty(REQUIRE, line, "condition");
    let error_raw = capture(REQUIRE, line, "error");
    let condition = parse_condition_fuel(&condition_raw, constructor, true, scope, imports, &no_enclosed, fuel - 1);
    let error = match error_raw {
        Some(e) => e,
        None => lit("SMART CONTRACTZ MAKE PANIC BEEP BEEP BEEP"),
    };
    let output = if constructor {
        concat(&concat(&lit("panic!(\""), &error), &lit("\")"))
    } else {
        concat(&concat(&lit("return Err(Error::Custom(String::from(\""), &error), &lit("\")))"))
    };
    Statement::Require(condition, text(&output))
}

/// The block statement that a line opens, with its first statements.
fn open_block(
    kind: LineKind,
    first: Vec<Statement>,
    constructor: bool,
    scope: &Scope,
    imports: &mut Vec<String>,
    stack: &mut Vec<Block>,
    items: &Vec<Statement>,
    pos: &mut usize,
    fuel: usize,
) -> (r: Vec<Statement>)
    requires
        fuel > 0,
        kind == LineKind::If || kind == LineKind::Else || kind == LineKind::ElseIf || kind == LineKind::Try
            || kind == LineKind::Catch || kind == LineKind::While || kind == LineKind::Do,
    ensures
        no_duplicates(strings_view(old(imports)@)) ==> no_duplicates(strings_view(final(imports)@)),
        ({
            let b = block_loop(
                lines_v(items@),
                *old(pos) as nat,
                block_until(kind),
                stmts_v(first@),
                constructor,
                scope.view_scope(),
                strings_view(old(imports)@),
                old(stack)@.push(block_of(kind)),
                fuel as nat,
            );
            &&& stmts_v(r@) == b.stmts
            &&& *final(pos) as nat == b.pos
            &&& final(stack)@ == b.stack
            &&& strings_view(final(imports)@) == b.imports
        }),
    decreases fuel, 1nat,
{
    let until = match kind {
        LineKind::If | LineKind::Else | LineKind::ElseIf => Statement::IfEnd,
        LineKind::Try => Statement::TryEnd,
        LineKind::Catch => Statement::CatchEnd,
        _ => Statement::WhileEnd,
    };
    let block = match kind {
        LineKind::If => Block::If,
        LineKind::Else => Block::Else,
        LineKind::ElseIf => Block::ElseIf,
        LineKind::Try => Block::Try,
        LineKind::Catch => Block::Catch,
        _ => Block::While,
    };
    stack.push(block);
    let mut statements = first;
    parse_block(constructor, scope, imports, stack, items, pos, &mut statements, &until, fuel);
    statements
}

/// Parses one statement, reading the statements of a block that it opens
/// from `items` at `pos`; `fuel` bounds how deep it descends into nested
/// parts.
pub fn parse_statement_fuel(
    line_raw: &Vec<char>,
    constructor: bool,
    scope: &Scope,
    imports: &mut Vec<String>,
    stack: &mut Vec<Block>,
    items: &Vec<Statement>,
    pos: &mut usize,
    fuel: usize,
) -> (r: Statement)
    ensures
        no_duplicates(strings_view(old(imports)@)) ==> no_duplicates(strings_view(final(imports)@)),
        ({
            let s = stmt_s(
                line_raw@,
                constructor,
                scope.view_scope(),
                strings_view(old(imports)@),
                old(stack)@,
                lines_v(items@),
                *old(pos) as nat,
                fuel as nat,
            );
            &&& stmt_v(r) == s.stmt
            &&& *final(pos) as nat == s.pos
            &&& final(stack)@ == s.stack
            &&& strings_view(final(imports)@) == s.imports
        }),
    decreases fuel, 4nat,
{
    proof {
        lemma_stmt_s(line_raw@, constructor, scope.view_scope(), strings_view(imports@), stack@, lines_v(items@), *pos as nat, fuel as nat);
    }
    let line = clean(line_raw);
    if fuel == 0 {
        return not_implemented_exec(&line);
    }
    let no_enclosed: Vec<(String, Expression)> = Vec::new();
    assert(enc_v(no_enclosed@) =~= Seq::<(Seq<char>, ExprV)>::empty());
    match classify(&line) {
        LineKind::ModifierBody => Statement::ModifierBody,
        LineKind::Return => parse_return(&line, scope, imports, fuel),
        LineKind::Declaration => parse_declaration(&line, constructor, scope, imports, fuel),
        LineKind::Require => parse_require(&line, constructor, scope, imports, fuel),
        LineKind::Comment => Statement::Comment(text(&capture_or_empty(COMMENT, &line, "comment"))),
        LineKind::OneLine => parse_condition_one_line(&line, constructor, scope, imports, stack, items, pos, fuel),
        LineKind::If => parse_if(&line, constructor, scope, imports, stack, items, pos, fuel),
        LineKind::Else => parse_else(constructor, scope, imports, stack, items, pos, fuel),
        LineKind::ElseIf => parse_else_if(&line, constructor, scope, imports, stack, items, pos, fuel),
        LineKind::Unchecked => {
            stack.push(Block::Unchecked);
            comment("Please handle unchecked blocks manually >>>")
        },
        LineKind::EndBlock => match stack.pop() {
            None => comment("Sol2Ink Not Implemented yet End Block here"),
            Some(b) => end_statement(b),
        },
        LineKind::Try => parse_try(&line, constructor, scope, imports, stack, items, pos, fuel),
        LineKind::Catch => parse_catch(&line, constructor, scope, imports, stack, items, pos, fuel),
        LineKind::For => {
            stack.push(Block::While);
            parse_for(&line, constructor, scope, imports, stack, items, pos, fuel)
        },
        LineKind::Do => parse_do(constructor, scope, imports, stack, items, pos, fuel),
        LineKind::While => parse_while(&line, constructor, scope, imports, stack, items, pos, fuel),
        LineKind::Assembly => {
            stack.push(Block::Assembly);
            parse_assembly(stack, items, pos)
        },
        LineKind::Emit => parse_emit(&line, constructor, scope, imports, fuel),
        LineKind::Assign => parse_assign(&line, constructor, scope, imports, fuel),
        LineKind::Ternary => parse_ternary_statement(&line, constructor, scope, imports, stack, items, pos, fuel),
        LineKind::IncrementAfter => parse_double_sign(&line, DOUBLE_SIGN_RIGHT, constructor, scope, imports, fuel),
        LineKind::IncrementBefore => parse_double_sign(&line, DOUBLE_SIGN_LEFT, constructor, scope, imports, fuel),
        LineKind::Call => Statement::FunctionCall(
            parse_function_call_fuel(&line, constructor, scope, imports, &no_enclosed, fuel),
        ),
        LineKind::Unknown => not_implemented_exec(&line),
    }
}

/// `if (condition) {` and the statements of its block (`parse_if`).
fn parse_if(
    line: &Vec<char>,
    constructor: bool,
    scope: &Scope,
    imports: &mut Vec<String>,
    stack: &mut Vec<Block>,
    items: &Vec<Statement>,
    pos: &mut usize,
    fuel: usize,
) -> (r: Statement)
    requires
        fuel > 0,
    ensures
        no_duplicates(strings_view(old(imports)@)) ==> no_duplicates(strings_view(final(imports)@)),
        ({
            let (cond, imp1) = condition_s(
                group_or_empty(IF@, line@, "condition"@),
                false,
                constructor,
                scope.view_scope(),
                strings_view(old(imports)@),
                Seq::empty(),
                (fuel - 1) as nat,
            );
            let b = opened(
                LineKind::If,
                Seq::empty(),
                constructor,
                scope.view_scope(),
                imp1,
                old(stack)@,
                lines_v(items@),
                *old(pos) as nat,
                fuel as nat,
            );
            &&& stmt_v(r) == StmtV::If(cond, b.stmts)
            &&& *final(pos) as nat == b.pos
            &&& final(stack)@ == b.stack
            &&& strings_view(final(imports)@) == b.imports
        }),
    decreases fuel, 2nat,
{
    let no_enclosed: Vec<(String, Expression)> = Vec::new();
    assert(enc_v(no_enclosed@) =~= Seq::<(Seq<char>, ExprV)>::empty());
    let condition_raw = capture_or_empty(IF, line, "condition");
    let condition = parse_condition_fuel(&condition_raw, constructor, false, scope, imports, &no_enclosed, fuel - 1);
    let first: Vec<Statement> = Vec::new();
    assert(stmts_v(first@) =~= Seq::<StmtV>::empty());
    let statements = open_block(LineKind::If, first, constructor, scope, imports, stack, items, pos, fuel);
    Statement::If(condition, statements)
}

/// `else {` and the statements of its block (`parse_else`).
fn parse_else(
    constructor: bool,
    scope: &Scope,
    imports: &mut Vec<String>,
    stack: &mut Vec<Block>,
    items: &Vec<Statement>,
    pos: &mut usize,
    fuel: usize,
) -> (r: Statement)
    requires
        fuel > 0,
    ensures
        no_duplicates(strings_view(old(imports)@)) ==> no_duplicates(strings_view(final(imports)@)),
        ({
            let b = opened(
                LineKind::Else,
                Seq::empty(),
                constructor,
                scope.view_scope(),
                strings_view(old(imports)@),
                old(stack)@,
                lines_v(items@),
                *old(pos) as nat,
                fuel as nat,
            );
            &&& stmt_v(r) == StmtV::Else(b.stmts)
            &&& *final(pos) as nat == b.pos
            &&& final(stack)@ == b.stack
            &&& strings_view(final(imports)@) == b.imports
        }),
    decreases fuel, 2nat,
{
    let no_enclosed: Vec<(String, Expression)> = Vec::new();
    assert(enc_v(no_enclosed@) =~= Seq::<(Seq<char>, ExprV)>::empty());
    let first: Vec<Statement> = Vec::new();
    assert(stmts_v(first@) =~= Seq::<StmtV>::empty());
    let statements = open_block(LineKind::Else, first, constructor, scope, imports, stack, items, pos, fuel);
    Statement::Else(statements)
}

/// `else if (condition) {` and the statements of its block (`parse_else_if`).
fn parse_else_if(
    line: &Vec<char>,
    constructor: bool,
    scope: &Scope,
    imports: &mut Vec<String>,
    stack: &mut Vec<Block>,
    items: &Vec<Statement>,
    pos: &mut usize,
    fuel: usize,
) -> (r: Statement)
    requires
        fuel > 0,
    ensures
        no_duplicates(strings_view(old(imports)@)) ==> no_duplicates(strings_view(final(imports)@)),
        ({
            let (cond, imp1) = condition_s(
                group_or_empty(ELSE_IF@, line@, "condition"@),
                false,
                constructor,
                scope.view_scope(),
                strings_view(old(imports)@),
                Seq::empty(),
                (fuel - 1) as nat,
            );
            let b = opened(
                LineKind::ElseIf,
                Seq::empty(),
                constructor,
                scope.view_scope(),
                imp1,
                old(stack)@,
                lines_v(items@),
                *old(pos) as nat,
                fuel as nat,
            );
            &&& stmt_v(r) == StmtV::ElseIf(cond, b.stmts)
            &&& *final(pos) as nat == b.pos
            &&& final(stack)@ == b.stack
            &&& strings_view(final(imports)@) == b.imports
        }),
    decreases fuel, 2nat,
{
    let no_enclosed: Vec<(String, Expression)> = Vec::new();
    assert(enc_v(no_enclosed@) =~= Seq::<(Seq<char>, ExprV)>::empty());
    let condition_raw = capture_or_empty(ELSE_IF, line, "condition");
    let condition = parse_condition_fuel(&condition_raw, constructor, false, scope, imports, &no_enclosed, fuel - 1);
    let first: Vec<Statement> = Vec::new();
    assert(stmts_v(first@) =~= Seq::<StmtV>::empty());
    let statements = open_block(LineKind::ElseIf, first, constructor, scope, imports, stack, items, pos, fuel);
    Statement::ElseIf(condition, statements)
}

/// `try ...` and the statements of its block, the line kept as a comment first (`parse_try`).
fn parse_try(
    line: &Vec<char>,
    constructor: bool,
    scope: &Scope,
    imports: &mut Vec<String>,
    stack: &mut Vec<Block>,
    items: &Vec<Statement>,
    pos: &mut usize,
    fuel: usize,
) -> (r: Statement)
    requires
        fuel > 0,
    ensures
        no_duplicates(strings_view(old(imports)@)) ==> no_duplicates(strings_view(final(imports)@)),
        ({
            let b = opened(
                LineKind::Try,
                seq![StmtV::Comment(line@)],
                constructor,
                scope.view_scope(),
                strings_view(old(imports)@),
                old(stack)@,
                lines_v(items@),
                *old(pos) as nat,
                fuel as nat,
            );
            &&& stmt_v(r) == StmtV::Try(b.stmts)
            &&& *final(pos) as nat == b.pos
            &&& final(stack)@ == b.stack
            &&& strings_view(final(imports)@) == b.imports
        }),
    decreases fuel, 2nat,
{
    let no_enclosed: Vec<(String, Expression)> = Vec::new();
    assert(enc_v(no_enclosed@) =~= Seq::<(Seq<char>, ExprV)>::empty());
    let mut first: Vec<Statement> = Vec::new();
    first.push(Statement::Comment(text(line)));
    assert(stmts_v(first@) =~= seq![StmtV::Comment(line@)]) by {
        crate::model::lemma_stmts_v(first@);
    }
    let statements = open_block(LineKind::Try, first, constructor, scope, imports, stack, items, pos, fuel);
    Statement::Try(statements)
}

/// `catch ...` and the statements of its block, the line kept as a comment first (`parse_catch`).
fn parse_catch(
    line: &Vec<char>,
    constructor: bool,
    scope: &Scope,
    imports: &mut Vec<String>,
    stack: &mut Vec<Block>,
    items: &Vec<Statement>,
    pos: &mut usize,
    fuel: usize,
) -> (r: Statement)
    requires
        fuel > 0,
    ensures
        no_duplicates(strings_view(old(imports)@)) ==> no_duplicates(strings_view(final(imports)@)),
        ({
            let b = opened(
                LineKind::Catch,
                seq![StmtV::Comment(line@)],
                constructor,
                scope.view_scope(),
                strings_view(old(imports)@),
                old(stack)@,
                lines_v(items@),
                *old(pos) as nat,
                fuel as nat,
            );
            &&& stmt_v(r) == StmtV::Catch(b.stmts)
            &&& *final(pos) as nat == b.pos
            &&& final(stack)@ == b.stack
            &&& strings_view(final(imports)@) == b.imports
        }),
    decreases fuel, 2nat,
{
    let no_enclosed: Vec<(String, Expression)> = Vec::new();
    assert(enc_v(no_enclosed@) =~= Seq::<(Seq<char>, ExprV)>::empty());
    let mut first: Vec<Statement> = Vec::new();
    first.push(Statement::Comment(text(line)));
    assert(stmts_v(first@) =~= seq![StmtV::Comment(line@)]) by {
        crate::model::lemma_stmts_v(first@);
    }
    let statements = open_block(LineKind::Catch, first, constructor, scope, imports, stack, items, pos, fuel);
    Statement::Catch(statements)
}

/// `while (condition) {` and the statements of its block (`parse_while`).
fn parse_while(
    line: &Vec<char>,
    constructor: bool,
    scope: &Scope,
    imports: &mut Vec<String>,
    stack: &mut Vec<Block>,
    items: &Vec<Statement>,
    pos: &mut usize,
    fuel: usize,
) -> (r: Statement)
    requires
        fuel > 0,
    ensures
        no_duplicates(strings_view(old(imports)@)) ==> no_duplicates(strings_view(final(imports)@)),
        ({
            let (cond, imp1) = member_s(
                group_or_empty(WHILE@, line@, "condition"@),
                constructor,
                scope.view_scope(),
                strings_view(old(imports)@),
                Seq::empty(),
                (fuel - 1) as nat,
            );
            let b = opened(
                LineKind::While,
                Seq::empty(),
                constructor,
                scope.view_scope(),
                imp1,
                old(stack)@,
                lines_v(items@),
                *old(pos) as nat,
                fuel as nat,
            );
            &&& stmt_v(r) == StmtV::While(None, cond, None, b.stmts)
            &&& *final(pos) as nat == b.pos
            &&& final(stack)@ == b.stack
            &&& strings_view(final(imports)@) == b.imports
        }),
    decreases fuel, 2nat,
{
    let no_enclosed: Vec<(String, Expression)> = Vec::new();
    assert(enc_v(no_enclosed@) =~= Seq::<(Seq<char>, ExprV)>::empty());
    let condition_raw = capture_or_empty(WHILE, line, "condition");
    let condition = parse_member_fuel(&condition_raw, constructor, scope, imports, &no_enclosed, fuel - 1);
    let first: Vec<Statement> = Vec::new();
    assert(stmts_v(first@) =~= Seq::<StmtV>::empty());
    let statements = open_block(LineKind::While, first, constructor, scope, imports, stack, items, pos, fuel);
    Statement::While(None, condition, None, statements)
}

/// `do { ... } while (condition);` (`parse_do`): the condition is read
/// from the line after the block.
fn parse_do(
    constructor: bool,
    scope: &Scope,
    imports: &mut Vec<String>,
    stack: &mut Vec<Block>,
    items: &Vec<Statement>,
    pos: &mut usize,
    fuel: usize,
) -> (r: Statement)
    requires
        fuel > 0,
    ensures
        no_duplicates(strings_view(old(imports)@)) ==> no_duplicates(strings_view(final(imports)@)),
        ({
            let b = block_loop(
                lines_v(items@),
                *old(pos) as nat,
                StmtV::WhileEnd,
                Seq::empty(),
                constructor,
                scope.view_scope(),
                strings_view(old(imports)@),
                old(stack)@.push(Block::While),
                fuel as nat,
            );
            let lines = lines_v(items@);
            &&& final(stack)@ == b.stack
            &&& if b.pos < lines.len() {
                let (cond, imp1) = do_condition(lines, b.pos, constructor, scope.view_scope(), b.imports, fuel as nat);
                &&& stmt_v(r) == StmtV::Do(None, cond, None, b.stmts)
                &&& *final(pos) as nat == b.pos + 1
                &&& strings_view(final(imports)@) == imp1
            } else {
                &&& stmt_v(r) == StmtV::Do(None, ExprV::Literal(Seq::empty()), None, b.stmts)
                &&& *final(pos) as nat == b.pos
                &&& strings_view(final(imports)@) == b.imports
            }
        }),
    decreases fuel, 2nat,
{
    let empty: Vec<Statement> = Vec::new();
    assert(stmts_v(empty@) =~= Seq::<StmtV>::empty());
    let statements = open_block(LineKind::Do, empty, constructor, scope, imports, stack, items, pos, fuel);
    let ghost lines = lines_v(items@);
    assert(lines.len() == items.len());
    if *pos < items.len() {
        let p = *pos;
        *pos = p + 1;
        match &items[p] {
            Statement::Raw(content) => {
                assert(lines[p as int] == Some(content@));
                let no_enclosed: Vec<(String, Expression)> = Vec::new();
                assert(enc_v(no_enclosed@) =~= Seq::<(Seq<char>, ExprV)>::empty());
                let content_chars = chars_of_string(content);
                let condition_raw = capture_or_empty(WHILE, &content_chars, "condition");
                let condition = parse_member_fuel(&condition_raw, constructor, scope, imports, &no_enclosed, fuel - 1);
                Statement::Do(None, condition, None, statements)
            },
            _ => {
                assert(lines[p as int] is None);
                Statement::Do(None, Expression::Literal(text(&Vec::new())), None, statements)
            },
        }
    } else {
        Statement::Do(None, Expression::Literal(text(&Vec::new())), None, statements)
    }
}

/// Reads statements from `items` at `pos` into `statements` until one that
/// equals `until` (`parse_block`).
fn parse_block(
    constructor: bool,
    scope: &Scope,
    imports: &mut Vec<String>,
    stack: &mut Vec<Block>,
    items: &Vec<Statement>,
    pos: &mut usize,
    statements: &mut Vec<Statement>,
    until: &Statement,
    fuel: usize,
)
    requires
        is_block_end(*until),
    ensures
        no_duplicates(strings_view(old(imports)@)) ==> no_duplicates(strings_view(final(imports)@)),
        ({
            let b = block_loop(
                lines_v(items@),
                *old(pos) as nat,
                stmt_v(*until),
                stmts_v(old(statements)@),
                constructor,
                scope.view_scope(),
                strings_view(old(imports)@),
                old(stack)@,
                fuel as nat,
            );
            &&& stmts_v(final(statements)@) == b.stmts
            &&& *final(pos) as nat == b.pos
            &&& final(stack)@ == b.stack
            &&& strings_view(final(imports)@) == b.imports
        }),
    decreases fuel, 0nat,
{
    let ghost lines = lines_v(items@);
    let ghost sc = scope.view_scope();
    let ghost total = block_loop(
        lines,
        *pos as nat,
        stmt_v(*until),
        stmts_v(statements@),
        constructor,
        sc,
        strings_view(imports@),
        stack@,
        fuel as nat,
    );
    loop
        invariant
            no_duplicates(strings_view(old(imports)@)) ==> no_duplicates(strings_view(imports@)),
            is_block_end(*until),
            total == block_loop(
                lines_v(items@),
                *old(pos) as nat,
                stmt_v(*until),
                stmts_v(old(statements)@),
                constructor,
                scope.view_scope(),
                strings_view(old(imports)@),
                old(stack)@,
                fuel as nat,
            ),
            lines == lines_v(items@),
            lines.len() == items.len(),
            sc == scope.view_scope(),
            block_loop(
                lines,
                *pos as nat,
                stmt_v(*until),
                stmts_v(statements@),
                constructor,
                sc,
                strings_view(imports@),
                stack@,
                fuel as nat,
            ) == total,
        decreases items.len() - *pos,
    {
        proof {
            lemma_block_loop(
                lines,
                *pos as nat,
                stmt_v(*until),
                stmts_v(statements@),
                constructor,
                sc,
                strings_view(imports@),
                stack@,
                fuel as nat,
            );
        }
        if fuel == 0 || *pos >= items.len() {
            return;
        }
        let p = *pos;
        *pos = p + 1;
        match &items[p] {
            Statement::Raw(line_raw) => {
                assert(lines[p as int] == Some(line_raw@));
                let line = chars_of_string(line_raw);
                let statement = parse_statement_fuel(&line, constructor, scope, imports, stack, items, pos, fuel - 1);
                if !(*pos > p + 1 && *pos <= items.len()) {
                    *pos = p + 1;
                }
                if same_end(&statement, until) {
                    return;
                }
                let ghost old_statements = statements@;
                statements.push(statement);
                proof {
                    lemma_stmts_v_push(old_statements, statement);
                }
            },
            _ => {
                assert(lines[p as int] is None);
            },
        }
    }
}

/// Reads the lines of an assembly block as comments (`parse_assembly`).
fn parse_assembly(stack: &mut Vec<Block>, items: &Vec<Statement>, pos: &mut usize) -> (r: Statement)
    ensures
        ({
            let a = assembly_s(lines_v(items@), *old(pos) as nat, old(stack)@);
            &&& stmt_v(r) == StmtV::Assembly(a.stmts)
            &&& *final(pos) as nat == a.pos
            &&& final(stack)@ == a.stack
        }),
{
    proof {
        reveal(assembly_s);
    }
    let ghost lines = lines_v(items@);
    let mut statements: Vec<Statement> = Vec::new();
    statements.push(comment("Please handle assembly blocks manually >>>"));
    let ghost total = assembly_loop(lines, *pos as nat, stmts_v(statements@), stack@);
    proof {
        crate::model::lemma_stmts_v(statements@);
        assert(stmts_v(statements@) =~= seq![StmtV::Comment("Please handle assembly blocks manually >>>"@)]);
    }
    while *pos < items.len()
        invariant_except_break
            assembly_loop(lines, *pos as nat, stmts_v(statements@), stack@) == total,
        invariant
            lines == lines_v(items@),
        ensures
            *pos as nat == total.pos,
            stmts_v(statements@) == total.stmts,
            stack@ == total.stack,
        decreases items.len() - *pos,
    {
        let p = *pos;
        *pos = p + 1;
        match &items[p] {
            Statement::Raw(content_raw) => {
                assert(lines[p as int] == Some(content_raw@));
                let raw = chars_of_string(content_raw);
                let content = collapse_and_trim(&raw);
                let ghost old_statements = statements@;
                if chars_eq_str(&content, "}") {
                    stack.pop();
                    statements.push(Statement::AssemblyEnd);
                    proof {
                        lemma_stmts_v_push(old_statements, Statement::AssemblyEnd);
                    }
                    break;
                } else {
                    let c = Statement::Comment(text(&content));
                    statements.push(c);
                    proof {
                        lemma_stmts_v_push(old_statements, c);
                    }
                }
            },
            _ => {
                assert(lines[p as int] is None);
            },
        }
    }
    let end = comment("<<< Please handle assembly blocks manually");
    let ghost old_statements = statements@;
    statements.push(end);
    proof {
        lemma_stmts_v_push(old_statements, end);
    }
    Statement::Assembly(statements)
}

/// A one-line `if`, `else if` or `else` (`parse_condition_one_line`).
fn parse_condition_one_line(
    line: &Vec<char>,
    constructor: bool,
    scope: &Scope,
    imports: &mut Vec<String>,
    stack: &mut Vec<Block>,
    items: &Vec<Statement>,
    pos: &mut usize,
    fuel: usize,
) -> (r: Statement)
    ensures
        no_duplicates(strings_view(old(imports)@)) ==> no_duplicates(strings_view(final(imports)@)),
        ({
            let s = one_line_s(
                line@,
                constructor,
                scope.view_scope(),
                strings_view(old(imports)@),
                old(stack)@,
                lines_v(items@),
                *old(pos) as nat,
                fuel as nat,
            );
            &&& stmt_v(r) == s.stmt
            &&& *final(pos) as nat == s.pos
            &&& final(stack)@ == s.stack
            &&& strings_view(final(imports)@) == s.imports
        }),
    decreases fuel, 2nat,
{
    proof {
        lemma_one_line_s(line@, constructor, scope.view_scope(), strings_view(imports@), stack@, lines_v(items@), *pos as nat, fuel as nat);
    }
    if fuel == 0 {
        return not_implemented_exec(line);
    }
    let no_enclosed: Vec<(String, Expression)> = Vec::new();
    assert(enc_v(no_enclosed@) =~= Seq::<(Seq<char>, ExprV)>::empty());
    let keyword = capture_or_empty(CONDITION_ONE_LINE, line, "keyword");
    let condition_raw = capture_or_empty(CONDITION_ONE_LINE, line, "condition");
    let then_raw = capture_or_empty(CONDITION_ONE_LINE, line, "then");
    let then = parse_statement_fuel(&then_raw, constructor, scope, imports, stack, items, pos, fuel - 1);
    let mut statements: Vec<Statement> = Vec::new();
    statements.push(then);
    proof {
        lemma_stmts_v_push(Seq::empty(), then);
        assert(Seq::<Statement>::empty().push(then) == statements@);
        assert(stmts_v(Seq::<Statement>::empty()) =~= Seq::<StmtV>::empty());
    }
    let is_if = chars_eq_str(&keyword, "if");
    if is_if || chars_eq_str(&keyword, "else if") {
        let condition = parse_condition_fuel(&condition_raw, constructor, false, scope, imports, &no_enclosed, fuel - 1);
        if is_if {
            Statement::If(condition, statements)
        } else {
            Statement::ElseIf(condition, statements)
        }
    } else {
        Statement::Else(statements)
    }
}

/// A `for` loop, parsed as a while loop (`parse_for`).
fn parse_for(
    line: &Vec<char>,
    constructor: bool,
    scope: &Scope,
    imports: &mut Vec<String>,
    stack: &mut Vec<Block>,
    items: &Vec<Statement>,
    pos: &mut usize,
    fuel: usize,
) -> (r: Statement)
    ensures
        no_duplicates(strings_view(old(imports)@)) ==> no_duplicates(strings_view(final(imports)@)),
        ({
            let s = for_s(
                line@,
                constructor,
                scope.view_scope(),
                strings_view(old(imports)@),
                old(stack)@,
                lines_v(items@),
                *old(pos) as nat,
                fuel as nat,
            );
            &&& stmt_v(r) == s.stmt
            &&& *final(pos) as nat == s.pos
            &&& final(stack)@ == s.stack
            &&& strings_view(final(imports)@) == s.imports
        }),
    decreases fuel, 2nat,
{
    proof {
        lemma_for_s(line@, constructor, scope.view_scope(), strings_view(imports@), stack@, lines_v(items@), *pos as nat, fuel as nat);
    }
    if fuel == 0 {
        return not_implemented_exec(line);
    }
    let no_enclosed: Vec<(String, Expression)> = Vec::new();
    assert(enc_v(no_enclosed@) =~= Seq::<(Seq<char>, ExprV)>::empty());
    let assignment_raw = capture_or_empty(FOR, line, "assignment");
    let condition_raw = capture_or_empty(FOR, line, "condition");
    let modification_raw = capture_or_empty(FOR, line, "modification");
    let assignment = parse_statement_fuel(&assignment_raw, constructor, scope, imports, stack, items, pos, fuel - 1);
    let condition = parse_member_fuel(&condition_raw, constructor, scope, imports, &no_enclosed, fuel - 1);
    let modification = parse_statement_fuel(&modification_raw, constructor, scope, imports, stack, items, pos, fuel - 1);
    let mut statements: Vec<Statement> = Vec::new();
    assert(stmts_v(statements@) =~= Seq::<StmtV>::empty());
    parse_block(constructor, scope, imports, stack, items, pos, &mut statements, &Statement::WhileEnd, fuel);
    Statement::While(Some(Box::new(assignment)), condition, Some(Box::new(modification)), statements)
}

/// `condition ? a : b;` as a statement (`parse_ternary_statement`).
fn parse_ternary_statement(
    line: &Vec<char>,
    constructor: bool,
    scope: &Scope,
    imports: &mut Vec<String>,
    stack: &mut Vec<Block>,
    items: &Vec<Statement>,
    pos: &mut usize,
    fuel: usize,
) -> (r: Statement)
    ensures
        no_duplicates(strings_view(old(imports)@)) ==> no_duplicates(strings_view(final(imports)@)),
        ({
            let s = ternary_stmt_s(
                line@,
                constructor,
                scope.view_scope(),
                strings_view(old(imports)@),
                old(stack)@,
                lines_v(items@),
                *old(pos) as nat,
                fuel as nat,
            );
            &&& stmt_v(r) == s.stmt
            &&& *final(pos) as nat == s.pos
            &&& final(stack)@ == s.stack
            &&& strings_view(final(imports)@) == s.imports
        }),
    decreases fuel, 2nat,
{
    proof {
        lemma_ternary_stmt_s(line@, constructor, scope.view_scope(), strings_view(imports@), stack@, lines_v(items@), *pos as nat, fuel as nat);
    }
    if fuel == 0 {
        return not_implemented_exec(line);
    }
    let no_enclosed: Vec<(String, Expression)> = Vec::new();
    assert(enc_v(no_enclosed@) =~= Seq::<(Seq<char>, ExprV)>::empty());
    let condition_raw = capture_or_empty(TERNARY, line, "condition");
    let if_true_raw = capture_or_empty(TERNARY, line, "if_true");
    let if_false_raw = capture_or_empty(TERNARY, line, "if_false");
    let condition = parse_condition_fuel(&condition_raw, constructor, false, scope, imports, &no_enclosed, fuel - 1);
    let if_true = parse_statement_fuel(&if_true_raw, constructor, scope, imports, stack, items, pos, fuel - 1);
    let if_false = parse_statement_fuel(&if_false_raw, constructor, scope, imports, stack, items, pos, fuel - 1);
    Statement::Ternary(condition, Box::new(if_true), Box::new(if_false))
}

fn increment(op: Operation) -> (r: Operation)
    ensures
        r == increment_op(op),
{
    if op == Operation::AddOne {
        Operation::AddAssign
    } else if op == Operation::SubtractOne {
        Operation::SubtractAssign
    } else {
        op
    }
}

/// `x++`, `++x`, `x--`, `--x` as an assignment of one (`parse_double_sign`).
fn parse_double_sign(
    line: &Vec<char>,
    pattern: &str,
    constructor: bool,
    scope: &Scope,
    imports: &mut Vec<String>,
    fuel: usize,
) -> (r: Statement)
    ensures
        no_duplicates(strings_view(old(imports)@)) ==> no_duplicates(strings_view(final(imports)@)),
        ({
            let (s, i) = double_sign_s(
                line@,
                pattern@,
                constructor,
                scope.view_scope(),
                strings_view(old(imports)@),
                fuel as nat,
            );
            stmt_v(r) == s && strings_view(final(imports)@) == i
        }),
    decreases fuel, 1nat,
{
    proof {
        reveal(double_sign_s);
    }
    let op_raw = match capture(pattern, line, "operation") {
        Some(o) => o,
        None => lit("="),
    };
    if fuel == 0 {
        return not_implemented_exec(line);
    }
    let no_enclosed: Vec<(String, Expression)> = Vec::new();
    assert(enc_v(no_enclosed@) =~= Seq::<(Seq<char>, ExprV)>::empty());
    match lookup_operation(&op_raw) {
        Some(op) => {
            let member_raw = capture_or_empty(pattern, line, "value");
            let member = parse_member_fuel(&member_raw, constructor, scope, imports, &no_enclosed, fuel - 1);
            Statement::Assign(member, Expression::Literal(text(&lit("1"))), increment(op))
        },
        None => not_implemented_exec(line),
    }
}

fn arithmetic(op: Operation) -> (r: Operation)
    ensures
        r == arithmetic_of(op),
{
    if op == Operation::AddAssign {
        Operation::Add
    } else if op == Operation::MulAssign {
        Operation::Mul
    } else if op == Operation::DivAssign {
        Operation::Div
    } else if op == Operation::SubtractAssign {
        Operation::Subtract
    } else {
        op
    }
}

fn assignment(left: Expression, right: Expression, op: Operation) -> (r: Statement)
    ensures
        stmt_v(r) == assignment_of(expr_v(left), expr_v(right), op),
{
    let ghost lv = expr_v(left);
    let ghost rv = expr_v(right);
    match left {
        Expression::Mapping(name, indices, None) => {
            let ghost nv = expr_v(*name);
            let ghost iv = exprs_v(indices@);
            assert(lv == ExprV::Mapping(Box::new(nv), iv, None));
            let converted = arithmetic(op);
            let value = if converted == Operation::Add || converted == Operation::Mul || converted
                == Operation::Div || converted == Operation::Subtract {
                let name_copy = Box::new(clone_expression(&name));
                let indices_copy = clone_expressions(&indices);
                assert(expr_v(*name_copy) == nv);
                assert(exprs_v(indices_copy@) == iv);
                let inner = Expression::Mapping(name_copy, indices_copy, None);
                assert(expr_v(inner) == ExprV::Mapping(Box::new(nv), iv, None));
                let v = Expression::Arithmetic(
                    Box::new(inner),
                    Box::new(right),
                    converted,
                );
                assert(expr_v(v) == ExprV::Arithmetic(
                    Box::new(ExprV::Mapping(Box::new(nv), iv, None)),
                    Box::new(rv),
                    converted,
                ));
                v
            } else {
                right
            };
            let ghost vv = expr_v(value);
            let r = Statement::FunctionCall(Expression::Mapping(name, indices, Some(Box::new(value))));
            assert(stmt_v(r) == StmtV::FunctionCall(ExprV::Mapping(Box::new(nv), iv, Some(Box::new(vv)))));
            r
        },
        other => Statement::Assign(other, right, op),
    }
}

/// An assignment (`parse_assign`).
fn parse_assign(
    line: &Vec<char>,
    constructor: bool,
    scope: &Scope,
    imports: &mut Vec<String>,
    fuel: usize,
) -> (r: Statement)
    ensures
        no_duplicates(strings_view(old(imports)@)) ==> no_duplicates(strings_view(final(imports)@)),
        ({
            let (s, i) = assign_s(
                line@,
                constructor,
                scope.view_scope(),
                strings_view(old(imports)@),
                fuel as nat,
            );
            stmt_v(r) == s && strings_view(final(imports)@) == i
        }),
    decreases fuel, 2nat,
{
    proof {
        reveal(assign_s);
    }
    let left_raw = capture_or_empty(ASSIGN, line, "left");
    let operation_raw = match capture(ASSIGN, line, "operation") {
        Some(o) => o,
        None => lit("="),
    };
    let right_raw = capture_or_empty(ASSIGN, line, "right");
    if fuel == 0 {
        return not_implemented_exec(line);
    }
    let no_enclosed: Vec<(String, Expression)> = Vec::new();
    assert(enc_v(no_enclosed@) =~= Seq::<(Seq<char>, ExprV)>::empty());
    let op = match lookup_operation(&operation_raw) {
        Some(op) => op,
        None => {
            return not_implemented_exec(line);
        },
    };
    let left = parse_member_fuel(&left_raw, constructor, scope, imports, &no_enclosed, fuel - 1);
    let right = parse_member_fuel(&right_raw, constructor, scope, imports, &no_enclosed, fuel - 1);
    if is_match(DOUBLE_SIGN_LEFT, &right_raw) {
        let value_raw = capture_or_empty(DOUBLE_SIGN_LEFT, &right_raw, "value");
        let value = parse_member_fuel(&value_raw, constructor, scope, imports, &no_enclosed, fuel - 1);
        let assign = Statement::Assign(left, value, op);
        let arith = parse_double_sign(&right_raw, DOUBLE_SIGN_LEFT, constructor, scope, imports, fuel);
        let mut group: Vec<Statement> = Vec::new();
        group.push(arith);
        group.push(assign);
        proof {
            crate::model::lemma_stmts_v(group@);
            assert(stmts_v(group@) =~= seq![stmt_v(arith), stmt_v(assign)]);
        }
        Statement::Group(group)
    } else if is_match(DOUBLE_SIGN_RIGHT, &right_raw) {
        let value_raw = capture_or_empty(DOUBLE_SIGN_RIGHT, &right_raw, "value");
        let value = parse_member_fuel(&value_raw, constructor, scope, imports, &no_enclosed, fuel - 1);
        let assign = Statement::Assign(left, value, op);
        let arith = parse_double_sign(&right_raw, DOUBLE_SIGN_RIGHT, constructor, scope, imports, fuel);
        let mut group: Vec<Statement> = Vec::new();
        group.push(assign);
        group.push(arith);
        proof {
            crate::model::lemma_stmts_v(group@);
            assert(stmts_v(group@) =~= seq![stmt_v(assign), stmt_v(arith)]);
        }
        Statement::Group(group)
    } else {
        assignment(left, right, op)
    }
}

spec fn emit_state(args: Seq<Expression>, buf: Seq<char>, open: usize, close: usize, count: usize, imports: Seq<String>) -> EmitState {
    EmitState {
        args: exprs_v(args),
        buf,
        open: open as nat,
        close: close as nat,
        count: count as nat,
        imports: strings_view(imports),
    }
}

fn field_name(scope: &Scope, event: &Vec<char>, count: usize) -> (r: String)
    ensures
        r@ == emit_field(scope.view_scope(), event@, count as nat),
{
    match event_field_name(scope, event, count) {
        Some(f) => text(&f),
        None => text(&Vec::new()),
    }
}

/// `emit Event(args);` (`parse_emit`): each argument becomes a field of the
/// event's struct. An argument for which the scope declares no field (the
/// event is not declared, or has fewer fields) gets an empty name, and the
/// statement is then reported: `parse_file` refuses the contract with
/// `EventNotDefined` naming the event.
fn parse_emit(
    line: &Vec<char>,
    constructor: bool,
    scope: &Scope,
    imports: &mut Vec<String>,
    fuel: usize,
) -> (r: Statement)
    ensures
        no_duplicates(strings_view(old(imports)@)) ==> no_duplicates(strings_view(final(imports)@)),
        ({
            let (s, i) = emit_s(
                line@,
                constructor,
                scope.view_scope(),
                strings_view(old(imports)@),
                fuel as nat,
            );
            stmt_v(r) == s && strings_view(final(imports)@) == i
        }),
        fuel > 0 && last_value(scope.view_scope().events, emitted_event(line@)) is None ==> stmt_missing(
            stmt_v(r),
            decls_of(scope.view_scope()),
        ) == Some(Missing::Event(emitted_event(line@))),
        fuel > 0 ==> (stmt_v(r) matches StmtV::Emit(n, args) && n == emitted_event(line@) && (exists|i: int|
            0 <= i < args.len() && #[trigger] event_field_name_of(scope.view_scope(), n, i) is None)
            ==> stmt_missing(stmt_v(r), decls_of(scope.view_scope())) is Some),
    decreases fuel, 2nat,
{
    let ghost imp0 = strings_view(imports@);
    proof {
        reveal(emit_s);
        if fuel > 0 {
            lemma_emit_reported(line@, constructor, scope.view_scope(), imp0, fuel as nat);
        }
    }
    let event_name = capture_or_empty(EMIT, line, "event_name");
    if fuel == 0 {
        return not_implemented_exec(line);
    }
    insert_import(imports, "use ink_lang::codegen::EmitEvent;");
    let args_raw = capture_or_empty(EMIT, line, "args");
    let no_enclosed: Vec<(String, Expression)> = Vec::new();
    assert(enc_v(no_enclosed@) =~= Seq::<(Seq<char>, ExprV)>::empty());
    let ghost sc = scope.view_scope();
    let ghost total = emit_loop(
        args_raw@,
        event_name@,
        EmitState { args: Seq::empty(), buf: Seq::empty(), open: 0, close: 0, count: 0, imports: strings_view(imports@) },
        constructor,
        sc,
        fuel as nat,
    );
    let mut args: Vec<Expression> = Vec::new();
    let mut buffer: Vec<char> = Vec::new();
    let mut open: usize = 0;
    let mut close: usize = 0;
    let mut count: usize = 0;
    assert(exprs_v(args@) =~= Seq::<ExprV>::empty());
    assert(args_raw@.subrange(0, args_raw@.len() as int) == args_raw@);
    let mut i: usize = 0;
    while i < args_raw.len()
        invariant
            no_duplicates(strings_view(old(imports)@)) ==> no_duplicates(strings_view(imports@)),
            fuel > 0,
            i <= args_raw.len(),
            open <= i,
            close <= i,
            count <= i,
            sc == scope.view_scope(),
            enc_v(no_enclosed@) == Seq::<(Seq<char>, ExprV)>::empty(),
            emit_loop(
                args_raw@.subrange(i as int, args_raw@.len() as int),
                event_name@,
                emit_state(args@, buffer@, open, close, count, imports@),
                constructor,
                sc,
                fuel as nat,
            ) == total,
        decreases args_raw.len() - i,
    {
        let ghost rest = args_raw@.subrange(i as int, args_raw@.len() as int);
        assert(rest[0] == args_raw@[i as int]);
        assert(rest.drop_first() == args_raw@.subrange(i + 1, args_raw@.len() as int));
        let ch = args_raw[i];
        if ch == '(' {
            open = open + 1;
            buffer.push(ch);
        } else if ch == ')' {
            close = close + 1;
            buffer.push(ch);
        } else if ch == ',' && open == close {
            let name = field_name(scope, &event_name, count);
            let trimmed = collapse_and_trim(&buffer);
            let x = parse_member_fuel(&trimmed, constructor, scope, imports, &no_enclosed, fuel - 1);
            let arg = Expression::StructArg(name, Box::new(x));
            let ghost old_args = args@;
            args.push(arg);
            proof {
                lemma_exprs_v_push(old_args, arg);
            }
            count = count + 1;
            buffer = Vec::new();
        } else {
            buffer.push(ch);
        }
        i = i + 1;
    }
    let name = field_name(scope, &event_name, count);
    let trimmed = collapse_and_trim(&buffer);
    let x = parse_member_fuel(&trimmed, constructor, scope, imports, &no_enclosed, fuel - 1);
    let arg = Expression::StructArg(name, Box::new(x));
    let ghost old_args = args@;
    args.push(arg);
    proof {
        lemma_exprs_v_push(old_args, arg);
    }
    Statement::Emit(text(&event_name), args)
}

/// Parses the raw statements of a body (`parse_statements`).
pub fn parse_statements(
    statements: &Vec<Statement>,
    scope: &Scope,
    imports: &mut Vec<String>,
    constructor: bool,
) -> (r: Vec<Statement>)
    ensures
        no_duplicates(strings_view(old(imports)@)) ==> no_duplicates(strings_view(final(imports)@)),
        (stmts_v(r@), strings_view(final(imports)@)) == statements_s(
            lines_v(statements@),
            constructor,
            scope.view_scope(),
            strings_view(old(imports)@),
        ),
{
    let ghost lines = lines_v(statements@);
    let ghost sc = scope.view_scope();
    let mut stack: Vec<Block> = Vec::new();
    let mut out: Vec<Statement> = Vec::new();
    let mut pos: usize = 0;
    assert(stmts_v(out@) =~= Seq::<StmtV>::empty());
    assert(stack@ =~= Seq::<Block>::empty());
    let ghost total = statements_s(lines, constructor, sc, strings_view(imports@));
    while pos < statements.len()
        invariant
            no_duplicates(strings_view(old(imports)@)) ==> no_duplicates(strings_view(imports@)),
            pos <= statements.len(),
            lines == lines_v(statements@),
            lines.len() == statements.len(),
            sc == scope.view_scope(),
            statements_loop(
                lines,
                pos as nat,
                stmts_v(out@),
                constructor,
                sc,
                strings_view(imports@),
                stack@,
                usize::MAX as nat,
            ) == total,
        decreases statements.len() - pos,
    {
        let p = pos;
        pos = p + 1;
        match &statements[p] {
            Statement::Raw(line_raw) => {
                assert(lines[p as int] == Some(line_raw@));
                let line = chars_of_string(line_raw);
                let statement = parse_statement_fuel(
                    &line,
                    constructor,
                    scope,
                    imports,
                    &mut stack,
                    statements,
                    &mut pos,
                    usize::MAX,
                );
                if !(pos > p + 1 && pos <= statements.len()) {
                    pos = p + 1;
                }
                let ghost before = out@;
                out.push(statement);
                proof {
                    lemma_stmts_v_push(before, statement);
                }
            },
            _ => {
                assert(lines[p as int] is None);
            },
        }
    }
    out
}

/// Parses one statement (`parse_statement`), reading the statements of a
/// block that it opens from `items` at `pos`, however deeply it nests.
pub fn parse_statement(
    line_raw: &Vec<char>,
    constructor: bool,
    scope: &Scope,
    imports: &mut Vec<String>,
    stack: &mut Vec<Block>,
    items: &Vec<Statement>,
    pos: &mut usize,
) -> (r: Statement)
    ensures
        no_duplicates(strings_view(old(imports)@)) ==> no_duplicates(strings_view(final(imports)@)),
        ({
            let s = stmt_s(
                line_raw@,
                constructor,
                scope.view_scope(),
                strings_view(old(imports)@),
                old(stack)@,
                lines_v(items@),
                *old(pos) as nat,
                usize::MAX as nat,
            );
            &&& stmt_v(r) == s.stmt
            &&& *final(pos) as nat == s.pos
            &&& final(stack)@ == s.stack
            &&& strings_view(final(imports)@) == s.imports
        }),
{
    parse_statement_fuel(line_raw, constructor, scope, imports, stack, items, pos, usize::MAX)
}

} // verus!
