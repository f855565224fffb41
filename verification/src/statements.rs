//! What the statement parser computes, as spec functions over the models of
//! `model`; `statement_parser` holds the code that computes them.
//!
//! A function body arrives as a list of raw statements; parsing one
//! statement may read further raw statements (the body of a block), so each
//! function takes the position in that list and gives the position after
//! what it read, with the stack of open blocks and the imports. The
//! recursive functions are closed; each has a `*_step` function that is its
//! body and a `lemma_*` that unfolds it once.

use vstd::prelude::*;
use crate::structures::{Block, Operation, Statement};
use crate::model::{ExprV, StmtV};
use crate::scope::{ScopeV, event_field_name_of};
use crate::expressions::{Imports, member_s, condition_s, function_call_s};
use crate::pattern::{regex_match, regex_group};
use crate::patterns::{RETURN, DECLARE, REQUIRE, COMMENT, CONDITION_ONE_LINE, DO, IF, ELSE, ELSE_IF,
    UNCHECKED, END_BLOCK, TRY, ASSEMBLY, CATCH, EMIT, ASSIGN, FUNCTION_CALL, DOUBLE_SIGN_RIGHT,
    DOUBLE_SIGN_LEFT, FOR, WHILE, TERNARY};
use crate::types::{operation_of, group_or_empty, convert_variable_type_spec};
use crate::imports::add_import;
use crate::text::replace_seq;
use crate::formatter::trim_spec;

verus! {

/// The raw statements of a body: the text of each `Raw` statement, `None`
/// for any other statement.
pub type Lines = Seq<Option<Seq<char>>>;

/// A parsed statement, the position after what was read, the open blocks
/// and the imports.
pub struct StmtRes {
    pub stmt: StmtV,
    pub pos: nat,
    pub stack: Seq<Block>,
    pub imports: Imports,
}

/// The statements of a block, the position after it, the open blocks and
/// the imports.
pub struct BlockRes {
    pub stmts: Seq<StmtV>,
    pub pos: nat,
    pub stack: Seq<Block>,
    pub imports: Imports,
}

/// The error text of a `require` without a message.
pub open spec fn default_error() -> Seq<char> {
    "SMART CONTRACTZ MAKE PANIC BEEP BEEP BEEP"@
}

/// The comment for a statement that is not handled.
pub open spec fn not_implemented(line: Seq<char>) -> StmtV {
    StmtV::Comment("Sol2Ink Not Implemented yet: "@ + line)
}

/// The statement text with whitespace normalised and data locations removed.
pub open spec fn clean_line(line_raw: Seq<char>) -> Seq<char> {
    replace_seq(
        replace_seq(replace_seq(trim_spec(line_raw), " memory "@, " "@), " calldata "@, " "@),
        " storage "@,
        " "@,
    )
}

pub open spec fn res(stmt: StmtV, pos: nat, stack: Seq<Block>, imports: Imports) -> StmtRes {
    StmtRes { stmt, pos, stack, imports }
}

/// The kinds of statement line, in the order in which they are recognised.
#[derive(Debug, Clone, Copy, PartialEq, Eq, Structural)]
pub enum LineKind {
    ModifierBody,
    Return,
    Declaration,
    Require,
    Comment,
    OneLine,
    If,
    Else,
    ElseIf,
    Unchecked,
    EndBlock,
    Try,
    For,
    Do,
    While,
    Assembly,
    Catch,
    Emit,
    Assign,
    Ternary,
    IncrementAfter,
    IncrementBefore,
    Call,
    Unknown,
}

/// The kind of a cleaned statement line: the first pattern that matches.
#[verifier::opaque]
pub open spec fn statement_kind(line: Seq<char>) -> LineKind {
    if line == "_;"@ {
        LineKind::ModifierBody
    } else if regex_match(RETURN@, line) {
        LineKind::Return
    } else if regex_match(DECLARE@, line) {
        LineKind::Declaration
    } else if regex_match(REQUIRE@, line) {
        LineKind::Require
    } else if regex_match(COMMENT@, line) {
        LineKind::Comment
    } else if regex_match(CONDITION_ONE_LINE@, line) {
        LineKind::OneLine
    } else if regex_match(IF@, line) {
        LineKind::If
    } else if regex_match(ELSE@, line) {
        LineKind::Else
    } else if regex_match(ELSE_IF@, line) {
        LineKind::ElseIf
    } else if regex_match(UNCHECKED@, line) {
        LineKind::Unchecked
    } else if regex_match(END_BLOCK@, line) {
        LineKind::EndBlock
    } else if regex_match(TRY@, line) {
        LineKind::Try
    } else if regex_match(FOR@, line) {
        LineKind::For
    } else if regex_match(DO@, line) {
        LineKind::Do
    } else if regex_match(WHILE@, line) {
        LineKind::While
    } else if regex_match(ASSEMBLY@, line) {
        LineKind::Assembly
    } else if regex_match(CATCH@, line) {
        LineKind::Catch
    } else if regex_match(EMIT@, line) {
        LineKind::Emit
    } else if regex_match(ASSIGN@, line) {
        LineKind::Assign
    } else if regex_match(TERNARY@, line) {
        LineKind::Ternary
    } else if regex_match(DOUBLE_SIGN_RIGHT@, line) {
        LineKind::IncrementAfter
    } else if regex_match(DOUBLE_SIGN_LEFT@, line) {
        LineKind::IncrementBefore
    } else if regex_match(FUNCTION_CALL@, line) {
        LineKind::Call
    } else {
        LineKind::Unknown
    }
}

/// `return value;` (`parse_return`); the value is read outside the constructor.
#[verifier::opaque]
pub open spec fn return_s(line: Seq<char>, sc: ScopeV, imp: Imports, fuel: nat) -> (StmtV, Imports) {
    let (out, imp1) = member_s(
        group_or_empty(RETURN@, line, "output"@),
        false,
        sc,
        imp,
        Seq::empty(),
        (fuel - 1) as nat,
    );
    (StmtV::Return(out), imp1)
}

/// `type name = value;` or `type name;` (`parse_declaration`).
#[verifier::opaque]
pub open spec fn declaration_s(line: Seq<char>, c: bool, sc: ScopeV, imp: Imports, fuel: nat) -> (StmtV, Imports) {
    let (field_type, imp1) = convert_variable_type_spec(group_or_empty(DECLARE@, line, "field_type"@), imp);
    let name = group_or_empty(DECLARE@, line, "field_name"@);
    match regex_group(DECLARE@, line, "value"@) {
        Some(v) => {
            let (x, imp2) = member_s(v, c, sc, imp1, Seq::empty(), (fuel - 1) as nat);
            (StmtV::Declaration(name, field_type, Some(x)), imp2)
        },
        None => (StmtV::Declaration(name, field_type, None), imp1),
    }
}

/// `require(condition, "error");` as an inverted check that returns the
/// error, or panics with it in the constructor (`parse_require`).
#[verifier::opaque]
pub open spec fn require_s(line: Seq<char>, c: bool, sc: ScopeV, imp: Imports, fuel: nat) -> (StmtV, Imports) {
    let imp1 = add_import(imp, "use ink::prelude::string::String;"@);
    let (cond, imp2) = condition_s(
        group_or_empty(REQUIRE@, line, "condition"@),
        true,
        c,
        sc,
        imp1,
        Seq::empty(),
        (fuel - 1) as nat,
    );
    let error = match regex_group(REQUIRE@, line, "error"@) {
        Some(e) => e,
        None => default_error(),
    };
    let output = if c {
        "panic!(\""@ + error + "\")"@
    } else {
        "return Err(Error::Custom(String::from(\""@ + error + "\")))"@
    };
    (StmtV::Require(cond, output), imp2)
}

/// What an `assembly {` line reads: its lines as comments, up to its `}`.
#[verifier::opaque]
pub open spec fn assembly_s(items: Lines, pos: nat, stack: Seq<Block>) -> BlockRes {
    let a = assembly_loop(
        items,
        pos,
        seq![StmtV::Comment("Please handle assembly blocks manually >>>"@)],
        stack,
    );
    BlockRes {
        stmts: a.stmts.push(StmtV::Comment("<<< Please handle assembly blocks manually"@)),
        pos: a.pos,
        stack: a.stack,
        imports: Seq::empty(),
    }
}

/// The condition of the line after a `do { ... }` block.
pub open spec fn do_condition(items: Lines, p: nat, c: bool, sc: ScopeV, imp: Imports, fuel: nat) -> (ExprV, Imports) {
    match items[p as int] {
        Some(content) => member_s(
            group_or_empty(WHILE@, content, "condition"@),
            c,
            sc,
            imp,
            Seq::empty(),
            (fuel - 1) as nat,
        ),
        None => (ExprV::Literal(Seq::empty()), imp),
    }
}

/// Parses one statement (`parse_statement`).
pub closed spec fn stmt_s(
    line_raw: Seq<char>,
    c: bool,
    sc: ScopeV,
    imp: Imports,
    stack: Seq<Block>,
    items: Lines,
    pos: nat,
    fuel: nat,
) -> StmtRes
    decreases fuel, 3nat, 0nat, 1nat,
{
    stmt_step(line_raw, c, sc, imp, stack, items, pos, fuel)
}

/// One unfolding of `stmt_s`.
pub open spec fn stmt_step(
    line_raw: Seq<char>,
    c: bool,
    sc: ScopeV,
    imp: Imports,
    stack: Seq<Block>,
    items: Lines,
    pos: nat,
    fuel: nat,
) -> StmtRes
    decreases fuel, 3nat, 0nat, 0nat,
{
    let line = clean_line(line_raw);
    if fuel == 0 {
        res(not_implemented(line), pos, stack, imp)
    } else {
        match statement_kind(line) {
            LineKind::ModifierBody => res(StmtV::ModifierBody, pos, stack, imp),
            LineKind::Return => {
                let (s, i) = return_s(line, sc, imp, fuel);
                res(s, pos, stack, i)
            },
            LineKind::Declaration => {
                let (s, i) = declaration_s(line, c, sc, imp, fuel);
                res(s, pos, stack, i)
            },
            LineKind::Require => {
                let (s, i) = require_s(line, c, sc, imp, fuel);
                res(s, pos, stack, i)
            },
            LineKind::Comment => res(StmtV::Comment(group_or_empty(COMMENT@, line, "comment"@)), pos, stack, imp),
            LineKind::OneLine => one_line_s(line, c, sc, imp, stack, items, pos, fuel),
            LineKind::If => {
                let (cond, imp1) = condition_s(
                    group_or_empty(IF@, line, "condition"@),
                    false,
                    c,
                    sc,
                    imp,
                    Seq::empty(),
                    (fuel - 1) as nat,
                );
                let b = block_loop(items, pos, StmtV::IfEnd, Seq::empty(), c, sc, imp1, stack.push(Block::If), fuel);
                res(StmtV::If(cond, b.stmts), b.pos, b.stack, b.imports)
            },
            LineKind::Else => {
                let b = block_loop(items, pos, StmtV::IfEnd, Seq::empty(), c, sc, imp, stack.push(Block::Else), fuel);
                res(StmtV::Else(b.stmts), b.pos, b.stack, b.imports)
            },
            LineKind::ElseIf => {
                let (cond, imp1) = condition_s(
                    group_or_empty(ELSE_IF@, line, "condition"@),
                    false,
                    c,
                    sc,
                    imp,
                    Seq::empty(),
                    (fuel - 1) as nat,
                );
                let b = block_loop(items, pos, StmtV::IfEnd, Seq::empty(), c, sc, imp1, stack.push(Block::ElseIf), fuel);
                res(StmtV::ElseIf(cond, b.stmts), b.pos, b.stack, b.imports)
            },
            LineKind::Unchecked => res(
                StmtV::Comment("Please handle unchecked blocks manually >>>"@),
                pos,
                stack.push(Block::Unchecked),
                imp,
            ),
            LineKind::EndBlock => if stack.len() == 0 {
                res(StmtV::Comment("Sol2Ink Not Implemented yet End Block here"@), pos, stack, imp)
            } else {
                res(block_end(stack.last()), pos, stack.drop_last(), imp)
            },
            LineKind::Try => {
                let b = block_loop(items, pos, StmtV::TryEnd, seq![StmtV::Comment(line)], c, sc, imp, stack.push(Block::Try), fuel);
                res(StmtV::Try(b.stmts), b.pos, b.stack, b.imports)
            },
            LineKind::For => for_s(line, c, sc, imp, stack.push(Block::While), items, pos, fuel),
            LineKind::Do => {
                let b = block_loop(items, pos, StmtV::WhileEnd, Seq::empty(), c, sc, imp, stack.push(Block::While), fuel);
                if b.pos < items.len() {
                    let (cond, imp1) = do_condition(items, b.pos, c, sc, b.imports, fuel);
                    res(StmtV::Do(None, cond, None, b.stmts), b.pos + 1, b.stack, imp1)
                } else {
                    res(StmtV::Do(None, ExprV::Literal(Seq::empty()), None, b.stmts), b.pos, b.stack, b.imports)
                }
            },
            LineKind::While => {
                let (cond, imp1) = member_s(
                    group_or_empty(WHILE@, line, "condition"@),
                    c,
                    sc,
                    imp,
                    Seq::empty(),
                    (fuel - 1) as nat,
                );
                let b = block_loop(items, pos, StmtV::WhileEnd, Seq::empty(), c, sc, imp1, stack.push(Block::While), fuel);
                res(StmtV::While(None, cond, None, b.stmts), b.pos, b.stack, b.imports)
            },
            LineKind::Assembly => {
                let a = assembly_s(items, pos, stack.push(Block::Assembly));
                res(StmtV::Assembly(a.stmts), a.pos, a.stack, imp)
            },
            LineKind::Catch => {
                let b = block_loop(items, pos, StmtV::CatchEnd, seq![StmtV::Comment(line)], c, sc, imp, stack.push(Block::Catch), fuel);
                res(StmtV::Catch(b.stmts), b.pos, b.stack, b.imports)
            },
            LineKind::Emit => {
                let (s, i) = emit_s(line, c, sc, imp, fuel);
                res(s, pos, stack, i)
            },
            LineKind::Assign => {
                let (s, i) = assign_s(line, c, sc, imp, fuel);
                res(s, pos, stack, i)
            },
            LineKind::Ternary => ternary_stmt_s(line, c, sc, imp, stack, items, pos, fuel),
            LineKind::IncrementAfter => {
                let (s, i) = double_sign_s(line, DOUBLE_SIGN_RIGHT@, c, sc, imp, fuel);
                res(s, pos, stack, i)
            },
            LineKind::IncrementBefore => {
                let (s, i) = double_sign_s(line, DOUBLE_SIGN_LEFT@, c, sc, imp, fuel);
                res(s, pos, stack, i)
            },
            LineKind::Call => {
                let (e, i) = function_call_s(line, c, sc, imp, Seq::empty(), fuel);
                res(StmtV::FunctionCall(e), pos, stack, i)
            },
            LineKind::Unknown => res(not_implemented(line), pos, stack, imp),
        }
    }
}

/// The statement that closes a block of the given kind.
pub open spec fn block_end(b: Block) -> StmtV {
    match b {
        Block::Assembly => StmtV::AssemblyEnd,
        Block::Catch => StmtV::CatchEnd,
        Block::Unchecked => StmtV::Comment("<<< Please handle unchecked blocks manually"@),
        Block::If => StmtV::IfEnd,
        Block::Else => StmtV::IfEnd,
        Block::ElseIf => StmtV::IfEnd,
        Block::Try => StmtV::TryEnd,
        Block::While => StmtV::WhileEnd,
    }
}

/// The statement that ends the block a line of the given kind opens.
pub open spec fn block_until(kind: LineKind) -> StmtV {
    match kind {
        LineKind::If | LineKind::Else | LineKind::ElseIf => StmtV::IfEnd,
        LineKind::Try => StmtV::TryEnd,
        LineKind::Catch => StmtV::CatchEnd,
        _ => StmtV::WhileEnd,
    }
}

/// The open block that a line of the given kind pushes.
pub open spec fn block_of(kind: LineKind) -> Block {
    match kind {
        LineKind::If => Block::If,
        LineKind::Else => Block::Else,
        LineKind::ElseIf => Block::ElseIf,
        LineKind::Try => Block::Try,
        LineKind::Catch => Block::Catch,
        _ => Block::While,
    }
}

/// Reads statements until the one that equals `until` (`parse_block`).
pub closed spec fn block_loop(
    items: Lines,
    pos: nat,
    until: StmtV,
    acc: Seq<StmtV>,
    c: bool,
    sc: ScopeV,
    imp: Imports,
    stack: Seq<Block>,
    fuel: nat,
) -> BlockRes
    decreases fuel, 0nat, items.len() - pos, 1nat,
{
    block_step(items, pos, until, acc, c, sc, imp, stack, fuel)
}

/// One unfolding of `block_loop`.
pub open spec fn block_step(
    items: Lines,
    pos: nat,
    until: StmtV,
    acc: Seq<StmtV>,
    c: bool,
    sc: ScopeV,
    imp: Imports,
    stack: Seq<Block>,
    fuel: nat,
) -> BlockRes
    decreases fuel, 0nat, items.len() - pos, 0nat,
{
    if pos >= items.len() || fuel == 0 {
        BlockRes { stmts: acc, pos, stack, imports: imp }
    } else {
        match items[pos as int] {
            None => block_loop(items, pos + 1, until, acc, c, sc, imp, stack, fuel),
            Some(line) => {
                let r = stmt_s(line, c, sc, imp, stack, items, pos + 1, (fuel - 1) as nat);
                let next = if r.pos > pos + 1 && r.pos <= items.len() {
                    r.pos
                } else {
                    pos + 1
                };
                if r.stmt == until {
                    BlockRes { stmts: acc, pos: next, stack: r.stack, imports: r.imports }
                } else {
                    block_loop(items, next, until, acc.push(r.stmt), c, sc, r.imports, r.stack, fuel)
                }
            },
        }
    }
}

/// Reads the lines of an assembly block as comments, up to its `}`.
pub open spec fn assembly_loop(
    items: Lines,
    pos: nat,
    acc: Seq<StmtV>,
    stack: Seq<Block>,
) -> BlockRes
    decreases items.len() - pos,
{
    if pos >= items.len() {
        BlockRes { stmts: acc, pos, stack, imports: Seq::empty() }
    } else {
        match items[pos as int] {
            None => assembly_loop(items, pos + 1, acc, stack),
            Some(raw) => {
                let content = trim_spec(raw);
                if content == "}"@ {
                    BlockRes {
                        stmts: acc.push(StmtV::AssemblyEnd),
                        pos: pos + 1,
                        stack: if stack.len() > 0 {
                            stack.drop_last()
                        } else {
                            stack
                        },
                        imports: Seq::empty(),
                    }
                } else {
                    assembly_loop(items, pos + 1, acc.push(StmtV::Comment(content)), stack)
                }
            },
        }
    }
}

/// A one-line `if`, `else if` or `else` (`parse_condition_one_line`).
pub closed spec fn one_line_s(
    line: Seq<char>,
    c: bool,
    sc: ScopeV,
    imp: Imports,
    stack: Seq<Block>,
    items: Lines,
    pos: nat,
    fuel: nat,
) -> StmtRes
    decreases fuel, 2nat, 0nat, 1nat,
{
    one_line_step(line, c, sc, imp, stack, items, pos, fuel)
}

/// One unfolding of `one_line_s`.
pub open spec fn one_line_step(
    line: Seq<char>,
    c: bool,
    sc: ScopeV,
    imp: Imports,
    stack: Seq<Block>,
    items: Lines,
    pos: nat,
    fuel: nat,
) -> StmtRes
    decreases fuel, 2nat, 0nat, 0nat,
{
    if fuel == 0 {
        res(not_implemented(line), pos, stack, imp)
    } else {
        let keyword = group_or_empty(CONDITION_ONE_LINE@, line, "keyword"@);
        let r = stmt_s(
            group_or_empty(CONDITION_ONE_LINE@, line, "then"@),
            c,
            sc,
            imp,
            stack,
            items,
            pos,
            (fuel - 1) as nat,
        );
        let statements = seq![r.stmt];
        if keyword == "if"@ || keyword == "else if"@ {
            let (cond, imp1) = condition_s(
                group_or_empty(CONDITION_ONE_LINE@, line, "condition"@),
                false,
                c,
                sc,
                r.imports,
                Seq::empty(),
                (fuel - 1) as nat,
            );
            if keyword == "if"@ {
                res(StmtV::If(cond, statements), r.pos, r.stack, imp1)
            } else {
                res(StmtV::ElseIf(cond, statements), r.pos, r.stack, imp1)
            }
        } else {
            res(StmtV::Else(statements), r.pos, r.stack, r.imports)
        }
    }
}

/// A `for` loop, parsed as a while loop (`parse_for`).
pub closed spec fn for_s(
    line: Seq<char>,
    c: bool,
    sc: ScopeV,
    imp: Imports,
    stack: Seq<Block>,
    items: Lines,
    pos: nat,
    fuel: nat,
) -> StmtRes
    decreases fuel, 2nat, 0nat, 1nat,
{
    for_step(line, c, sc, imp, stack, items, pos, fuel)
}

/// One unfolding of `for_s`.
pub open spec fn for_step(
    line: Seq<char>,
    c: bool,
    sc: ScopeV,
    imp: Imports,
    stack: Seq<Block>,
    items: Lines,
    pos: nat,
    fuel: nat,
) -> StmtRes
    decreases fuel, 2nat, 0nat, 0nat,
{
    if fuel == 0 {
        res(not_implemented(line), pos, stack, imp)
    } else {
        let a = stmt_s(group_or_empty(FOR@, line, "assignment"@), c, sc, imp, stack, items, pos, (fuel - 1) as nat);
        let (cond, imp1) = member_s(
            group_or_empty(FOR@, line, "condition"@),
            c,
            sc,
            a.imports,
            Seq::empty(),
            (fuel - 1) as nat,
        );
        let m = stmt_s(
            group_or_empty(FOR@, line, "modification"@),
            c,
            sc,
            imp1,
            a.stack,
            items,
            a.pos,
            (fuel - 1) as nat,
        );
        let b = block_loop(items, m.pos, StmtV::WhileEnd, Seq::empty(), c, sc, m.imports, m.stack, fuel);
        res(
            StmtV::While(Some(Box::new(a.stmt)), cond, Some(Box::new(m.stmt)), b.stmts),
            b.pos,
            b.stack,
            b.imports,
        )
    }
}

/// `condition ? a : b;` as a statement (`parse_ternary_statement`).
pub closed spec fn ternary_stmt_s(
    line: Seq<char>,
    c: bool,
    sc: ScopeV,
    imp: Imports,
    stack: Seq<Block>,
    items: Lines,
    pos: nat,
    fuel: nat,
) -> StmtRes
    decreases fuel, 2nat, 0nat, 1nat,
{
    ternary_step(line, c, sc, imp, stack, items, pos, fuel)
}

/// One unfolding of `ternary_stmt_s`.
pub open spec fn ternary_step(
    line: Seq<char>,
    c: bool,
    sc: ScopeV,
    imp: Imports,
    stack: Seq<Block>,
    items: Lines,
    pos: nat,
    fuel: nat,
) -> StmtRes
    decreases fuel, 2nat, 0nat, 0nat,
{
    if fuel == 0 {
        res(not_implemented(line), pos, stack, imp)
    } else {
        let (cond, imp1) = condition_s(
            group_or_empty(TERNARY@, line, "condition"@),
            false,
            c,
            sc,
            imp,
            Seq::empty(),
            (fuel - 1) as nat,
        );
        let t = stmt_s(group_or_empty(TERNARY@, line, "if_true"@), c, sc, imp1, stack, items, pos, (fuel - 1) as nat);
        let f = stmt_s(
            group_or_empty(TERNARY@, line, "if_false"@),
            c,
            sc,
            t.imports,
            t.stack,
            items,
            t.pos,
            (fuel - 1) as nat,
        );
        res(StmtV::Ternary(cond, Box::new(t.stmt), Box::new(f.stmt)), f.pos, f.stack, f.imports)
    }
}

/// The operation an increment or decrement assigns with.
pub open spec fn increment_op(op: Operation) -> Operation {
    if op == Operation::AddOne {
        Operation::AddAssign
    } else if op == Operation::SubtractOne {
        Operation::SubtractAssign
    } else {
        op
    }
}

/// `x++`, `++x`, `x--`, `--x` as an assignment of one (`parse_double_sign`);
/// an operator outside the operator table leaves the statement unhandled.
#[verifier::opaque]
pub open spec fn double_sign_s(
    line: Seq<char>,
    pattern: Seq<char>,
    c: bool,
    sc: ScopeV,
    imp: Imports,
    fuel: nat,
) -> (StmtV, Imports)
{
    let op_raw = match regex_group(pattern, line, "operation"@) {
        Some(o) => o,
        None => "="@,
    };
    if fuel == 0 {
        (not_implemented(line), imp)
    } else {
        match operation_of(op_raw) {
            Some(op) => {
                let (member, imp1) = member_s(
                    group_or_empty(pattern, line, "value"@),
                    c,
                    sc,
                    imp,
                    Seq::empty(),
                    (fuel - 1) as nat,
                );
                (StmtV::Assign(member, ExprV::Literal("1"@), increment_op(op)), imp1)
            },
            None => (not_implemented(line), imp),
        }
    }
}

/// The arithmetic operation of a compound assignment.
pub open spec fn arithmetic_of(op: Operation) -> Operation {
    if op == Operation::AddAssign {
        Operation::Add
    } else if op == Operation::MulAssign {
        Operation::Mul
    } else if op == Operation::DivAssign {
        Operation::Div
    } else if op == Operation::SubtractAssign {
        Operation::Subtract
    } else {
        op
    }
}

/// The statement for `left op= right` once both sides were parsed: a write
/// into a mapping becomes an insert of the new value.
pub open spec fn assignment_of(left: ExprV, right: ExprV, op: Operation) -> StmtV {
    match left {
        ExprV::Mapping(name, indices, None) => {
            let converted = arithmetic_of(op);
            let value = if converted == Operation::Add || converted == Operation::Mul || converted
                == Operation::Div || converted == Operation::Subtract {
                ExprV::Arithmetic(Box::new(ExprV::Mapping(name, indices, None)), Box::new(right), converted)
            } else {
                right
            };
            StmtV::FunctionCall(ExprV::Mapping(name, indices, Some(Box::new(value))))
        },
        _ => StmtV::Assign(left, right, op),
    }
}

/// An assignment (`parse_assign`); an operator outside the operator table
/// leaves the statement unhandled.
#[verifier::opaque]
pub open spec fn assign_s(
    line: Seq<char>,
    c: bool,
    sc: ScopeV,
    imp: Imports,
    fuel: nat,
) -> (StmtV, Imports)
{
    let left_raw = group_or_empty(ASSIGN@, line, "left"@);
    let op_raw = match regex_group(ASSIGN@, line, "operation"@) {
        Some(o) => o,
        None => "="@,
    };
    let right_raw = group_or_empty(ASSIGN@, line, "right"@);
    if fuel == 0 {
        (not_implemented(line), imp)
    } else {
        match operation_of(op_raw) {
            None => (not_implemented(line), imp),
            Some(op) => {
                let (left, imp1) = member_s(left_raw, c, sc, imp, Seq::empty(), (fuel - 1) as nat);
                let (right, imp2) = member_s(right_raw, c, sc, imp1, Seq::empty(), (fuel - 1) as nat);
                if regex_match(DOUBLE_SIGN_LEFT@, right_raw) {
                    let (value, imp3) = member_s(
                        group_or_empty(DOUBLE_SIGN_LEFT@, right_raw, "value"@),
                        c,
                        sc,
                        imp2,
                        Seq::empty(),
                        (fuel - 1) as nat,
                    );
                    let (arith, imp4) = double_sign_s(right_raw, DOUBLE_SIGN_LEFT@, c, sc, imp3, fuel);
                    (StmtV::Group(seq![arith, StmtV::Assign(left, value, op)]), imp4)
                } else if regex_match(DOUBLE_SIGN_RIGHT@, right_raw) {
                    let (value, imp3) = member_s(
                        group_or_empty(DOUBLE_SIGN_RIGHT@, right_raw, "value"@),
                        c,
                        sc,
                        imp2,
                        Seq::empty(),
                        (fuel - 1) as nat,
                    );
                    let (arith, imp4) = double_sign_s(right_raw, DOUBLE_SIGN_RIGHT@, c, sc, imp3, fuel);
                    (StmtV::Group(seq![StmtV::Assign(left, value, op), arith]), imp4)
                } else {
                    (assignment_of(left, right, op), imp2)
                }
            },
        }
    }
}

/// The state of the scan over an event's arguments.
pub struct EmitState {
    pub args: Seq<ExprV>,
    pub buf: Seq<char>,
    pub open: nat,
    pub close: nat,
    pub count: nat,
    pub imports: Imports,
}

/// The field name for argument `count` of `event`; empty when the event or
/// the field is unknown.
pub open spec fn emit_field(sc: ScopeV, event: Seq<char>, count: nat) -> Seq<char> {
    match event_field_name_of(sc, event, count as int) {
        Some(f) => f,
        None => Seq::empty(),
    }
}

/// `emit Event(args);` (`parse_emit`).
#[verifier::opaque]
pub open spec fn emit_s(line: Seq<char>, c: bool, sc: ScopeV, imp: Imports, fuel: nat) -> (StmtV, Imports)
{
    let event = group_or_empty(EMIT@, line, "event_name"@);
    let imp1 = add_import(imp, "use ink_lang::codegen::EmitEvent;"@);
    if fuel == 0 {
        (not_implemented(line), imp)
    } else {
        let st = emit_loop(
            group_or_empty(EMIT@, line, "args"@),
            event,
            EmitState { args: Seq::empty(), buf: Seq::empty(), open: 0, close: 0, count: 0, imports: imp1 },
            c,
            sc,
            fuel,
        );
        let (last, imp2) = member_s(trim_spec(st.buf), c, sc, st.imports, Seq::empty(), (fuel - 1) as nat);
        (
            StmtV::Emit(event, st.args.push(ExprV::StructArg(emit_field(sc, event, st.count), Box::new(last)))),
            imp2,
        )
    }
}

/// One character of an event's arguments: top-level commas end an argument.
pub open spec fn emit_loop(
    chars: Seq<char>,
    event: Seq<char>,
    st: EmitState,
    c: bool,
    sc: ScopeV,
    fuel: nat,
) -> EmitState
    decreases fuel, 0nat, chars.len(),
{
    if chars.len() == 0 || fuel == 0 {
        st
    } else {
        let ch = chars[0];
        let next = if ch == '(' {
            EmitState { open: st.open + 1, buf: st.buf.push(ch), ..st }
        } else if ch == ')' {
            EmitState { close: st.close + 1, buf: st.buf.push(ch), ..st }
        } else if ch == ',' && st.open == st.close {
            let (x, imp1) = member_s(trim_spec(st.buf), c, sc, st.imports, Seq::empty(), (fuel - 1) as nat);
            EmitState {
                args: st.args.push(ExprV::StructArg(emit_field(sc, event, st.count), Box::new(x))),
                buf: Seq::empty(),
                count: st.count + 1,
                imports: imp1,
                ..st
            }
        } else {
            EmitState { buf: st.buf.push(ch), ..st }
        };
        emit_loop(chars.drop_first(), event, next, c, sc, fuel)
    }
}

/// The raw statements of a body.
pub open spec fn lines_v(items: Seq<Statement>) -> Lines {
    items.map_values(
        |s: Statement|
            match s {
                Statement::Raw(l) => Some(l@),
                _ => None,
            },
    )
}

/// `stmt_s` unfolds to `stmt_step`.
pub proof fn lemma_stmt_s(
    line_raw: Seq<char>,
    c: bool,
    sc: ScopeV,
    imp: Imports,
    stack: Seq<Block>,
    items: Lines,
    pos: nat,
    fuel: nat,
)
    ensures
        stmt_s(line_raw, c, sc, imp, stack, items, pos, fuel) == stmt_step(line_raw, c, sc, imp, stack, items, pos, fuel),
{
}

/// `block_loop` unfolds to `block_step`.
pub proof fn lemma_block_loop(
    items: Lines,
    pos: nat,
    until: StmtV,
    acc: Seq<StmtV>,
    c: bool,
    sc: ScopeV,
    imp: Imports,
    stack: Seq<Block>,
    fuel: nat,
)
    ensures
        block_loop(items, pos, until, acc, c, sc, imp, stack, fuel) == block_step(items, pos, until, acc, c, sc, imp, stack, fuel),
{
}

/// `one_line_s` unfolds to `one_line_step`.
pub proof fn lemma_one_line_s(
    line: Seq<char>,
    c: bool,
    sc: ScopeV,
    imp: Imports,
    stack: Seq<Block>,
    items: Lines,
    pos: nat,
    fuel: nat,
)
    ensures
        one_line_s(line, c, sc, imp, stack, items, pos, fuel) == one_line_step(line, c, sc, imp, stack, items, pos, fuel),
{
}

/// `for_s` unfolds to `for_step`.
pub proof fn lemma_for_s(
    line: Seq<char>,
    c: bool,
    sc: ScopeV,
    imp: Imports,
    stack: Seq<Block>,
    items: Lines,
    pos: nat,
    fuel: nat,
)
    ensures
        for_s(line, c, sc, imp, stack, items, pos, fuel) == for_step(line, c, sc, imp, stack, items, pos, fuel),
{
}

/// `ternary_stmt_s` unfolds to `ternary_step`.
pub proof fn lemma_ternary_stmt_s(
    line: Seq<char>,
    c: bool,
    sc: ScopeV,
    imp: Imports,
    stack: Seq<Block>,
    items: Lines,
    pos: nat,
    fuel: nat,
)
    ensures
        ternary_stmt_s(line, c, sc, imp, stack, items, pos, fuel) == ternary_step(line, c, sc, imp, stack, items, pos, fuel),
{
}

/// The statements of a body: each raw statement parsed in turn, a statement
/// that opens a block reading the statements of that block too.
pub open spec fn statements_loop(
    items: Lines,
    pos: nat,
    acc: Seq<StmtV>,
    c: bool,
    sc: ScopeV,
    imp: Imports,
    stack: Seq<Block>,
    fuel: nat,
) -> (Seq<StmtV>, Imports)
    decreases items.len() - pos,
{
    if pos >= items.len() {
        (acc, imp)
    } else {
        match items[pos as int] {
            None => statements_loop(items, pos + 1, acc, c, sc, imp, stack, fuel),
            Some(line) => {
                let r = stmt_s(line, c, sc, imp, stack, items, pos + 1, fuel);
                let next = if r.pos > pos + 1 && r.pos <= items.len() {
                    r.pos
                } else {
                    pos + 1
                };
                statements_loop(items, next, acc.push(r.stmt), c, sc, r.imports, r.stack, fuel)
            },
        }
    }
}

/// The parsed statements of a body and the imports (`parse_statements`).
pub open spec fn statements_s(items: Lines, c: bool, sc: ScopeV, imp: Imports) -> (Seq<StmtV>, Imports) {
    statements_loop(items, 0, Seq::empty(), c, sc, imp, Seq::empty(), usize::MAX as nat)
}

/// A block's statements never include the statement that ends it: reading
/// stops at that statement and leaves it out.
pub proof fn lemma_block_excludes_end(
    items: Lines,
    pos: nat,
    until: StmtV,
    acc: Seq<StmtV>,
    c: bool,
    sc: ScopeV,
    imp: Imports,
    stack: Seq<Block>,
    fuel: nat,
)
    requires
        !acc.contains(until),
    ensures
        !block_loop(items, pos, until, acc, c, sc, imp, stack, fuel).stmts.contains(until),
    decreases items.len() - pos,
{
    if pos < items.len() && fuel > 0 {
        match items[pos as int] {
            None => {
                lemma_block_excludes_end(items, pos + 1, until, acc, c, sc, imp, stack, fuel);
            },
            Some(line) => {
                let r = stmt_s(line, c, sc, imp, stack, items, pos + 1, (fuel - 1) as nat);
                let next = if r.pos > pos + 1 && r.pos <= items.len() {
                    r.pos
                } else {
                    pos + 1
                };
                if r.stmt != until {
                    assert(!acc.push(r.stmt).contains(until)) by {
                        if acc.push(r.stmt).contains(until) {
                            let k = choose|k: int| 0 <= k < acc.push(r.stmt).len() && acc.push(r.stmt)[k] == until;
                            assert(acc[k] == until);
                        }
                    }
                    lemma_block_excludes_end(items, next, until, acc.push(r.stmt), c, sc, r.imports, r.stack, fuel);
                }
            },
        }
    }
}

/// The block that a line of the given kind opens, read from `pos` with
/// `first` as its first statements.
pub open spec fn opened(
    kind: LineKind,
    first: Seq<StmtV>,
    c: bool,
    sc: ScopeV,
    imp: Imports,
    stack: Seq<Block>,
    items: Lines,
    pos: nat,
    fuel: nat,
) -> BlockRes {
    block_loop(items, pos, block_until(kind), first, c, sc, imp, stack.push(block_of(kind)), fuel)
}

} // verus!

verus! {

/// The arithmetic that a compound operator stands for: `+=` adds, `-=`
/// subtracts, `*=` multiplies and `/=` divides.
pub open spec fn compound_arithmetic(op: Operation) -> Option<Operation> {
    match op {
        Operation::AddAssign => Some(Operation::Add),
        Operation::SubtractAssign => Some(Operation::Subtract),
        Operation::MulAssign => Some(Operation::Mul),
        Operation::DivAssign => Some(Operation::Div),
        _ => None,
    }
}

/// A compound assignment into a mapping entry stores the entry combined
/// with the right side by the operator's own arithmetic, the entry first;
/// any other assignment operator stores the right side itself. Any other
/// target keeps the assignment as written.
pub proof fn lemma_mapping_write(left: ExprV, right: ExprV, op: Operation)
    requires
        !(op is Add || op is Subtract || op is Mul || op is Div),
    ensures
        left matches ExprV::Mapping(name, indices, None) ==> assignment_of(left, right, op) == StmtV::FunctionCall(
            ExprV::Mapping(
                name,
                indices,
                Some(
                    Box::new(
                        match compound_arithmetic(op) {
                            Some(a) => ExprV::Arithmetic(Box::new(left), Box::new(right), a),
                            None => right,
                        },
                    ),
                ),
            ),
        ),
        !(left matches ExprV::Mapping(_, _, None)) ==> assignment_of(left, right, op) == StmtV::Assign(left, right, op),
{
}

} // verus!
