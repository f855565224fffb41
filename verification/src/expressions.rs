//! The expression parser: from the text of a Solidity expression to an
//! `Expression`, recording the imports the generated code needs. Each
//! parsing function computes exactly the spec function that carries its name.
//!
//! The spec functions below say what the parser computes, over the models of
//! `model`. Each function mirrors one step of the parser; the regular
//! expressions enter through the names of `pattern`. `fuel` bounds the depth
//! of nested parsing: every parse of a sub-expression spends one unit, and
//! an expression met when no fuel is left is taken as a plain member.

use vstd::prelude::*;
use crate::structures::{Condition, Expression, Operation, negation_of};
use crate::model::{ExprV, CondV, expr_v, exprs_v, cond_v, lemma_exprs_v_push, clone_expression};
use crate::scope::{Scope, ScopeV, get_selector, selector, function_lookup, struct_field_name, last_value,
    sel_name, selector_of, struct_field_name_of};
use crate::pattern::{is_match, capture, regex_match, regex_group};
use crate::patterns::{STRING_LITERAL, CHAR_LITERAL, HEX_STRING, HEX, STRUCT_INIT, FUNCTION_CALL,
    NEW_ARRAY, TYPE, ARITHMETIC, LOGICAL, TERNARY, BOOLEAN, WITH_SELECTOR, MAPPING_ACCESS,
    DOUBLE_SIGN_RIGHT, DOUBLE_SIGN_LEFT, NEGATIVE, NAMED_PARAM};
use crate::types::{lookup_type, lookup_operation, capture_or_empty, convert_variable_type, group_or_empty,
    solidity_type, operation_of, convert_variable_type_spec};
use crate::imports::{insert_import, add_import};
use crate::text::{chars_of, chars_eq, chars_eq_str, string_from_chars, chars_of_string, concat, push_all,
    parse_i32, parse_i32_spec, decimal, decimal_chars, contains_str, has_infix, replace_str, replace_seq};
use crate::formatter::{collapse_and_trim, split_plain, strings_view, trim_spec, split_seq};

use crate::imports::no_duplicates;
verus! {

/// The import lines gathered so far.
pub type Imports = Seq<Seq<char>>;

/// Expressions that were taken out of parentheses, by placeholder name.
pub type Enclosed = Seq<(Seq<char>, ExprV)>;

/// `line` is a number that fits `i32`, a string or character literal, or a
/// boolean literal.
pub open spec fn is_literal_s(line: Seq<char>) -> bool {
    ||| parse_i32_spec(line) is Some
    ||| regex_match(STRING_LITERAL@, line)
    ||| regex_match(CHAR_LITERAL@, line)
    ||| line == "true"@
    ||| line == "false"@
}

/// A plain member: the name, with the receiver when it is a state variable.
pub open spec fn plain_member(raw: Seq<char>, c: bool, sc: ScopeV) -> ExprV {
    ExprV::Member(raw, selector_of(sc, c, raw))
}

/// The state of the scan that takes parenthesised groups out of an expression.
pub struct ExState {
    pub out: Seq<char>,
    pub tmp: Seq<char>,
    pub open: nat,
    pub close: nat,
    pub args: nat,
    pub map: Enclosed,
    pub group_possible: bool,
    pub group: bool,
    pub imports: Imports,
}

/// The characters after which a parenthesised group may start.
pub open spec fn is_group_op(ch: char) -> bool {
    ch == '*' || ch == '/' || ch == '=' || ch == '+' || ch == '-' || ch == '&' || ch == '|' || ch
        == '%' || ch == '!'
}

/// The placeholder that stands for the group number `n`.
pub open spec fn placeholder(n: nat) -> Seq<char> {
    "___"@ + decimal(n) + "___"@
}

/// The state of the scan over a function call's arguments.
pub struct ArgState {
    pub args: Seq<ExprV>,
    pub buf: Seq<char>,
    pub open: nat,
    pub close: nat,
    pub imports: Imports,
}

/// The state of the scan over a mapping's indices.
pub struct IdxState {
    pub indices: Seq<ExprV>,
    pub buf: Seq<char>,
    pub open: nat,
    pub close: nat,
    pub imports: Imports,
}

/// The result of taking the groups out: the expression with placeholders,
/// how many groups there were, and the parsed groups.
pub struct Extracted {
    pub out: Seq<char>,
    pub args: nat,
    pub map: Enclosed,
    pub imports: Imports,
}

/// Parses an expression .
pub open spec fn member_s(
    raw: Seq<char>,
    c: bool,
    sc: ScopeV,
    imp: Imports,
    enc: Enclosed,
    fuel: nat,
) -> (ExprV, Imports)
    decreases fuel, 4nat, 0nat,
{
    if fuel == 0 {
        (plain_member(raw, c, sc), imp)
    } else if is_literal_s(raw) {
        (ExprV::Literal(raw), imp)
    } else if raw == "address(0)"@ || raw == "address(0x0)"@ {
        (ExprV::ZeroAddressInto, add_import(imp, "use brush::traits::ZERO_ADDRESS;"@))
    } else if raw == "msg.sender"@ {
        (ExprV::EnvCaller(Some(sel_name(c))), add_import(imp, "use ink_lang::codegen::Env;"@))
    } else if raw == "msg.value"@ {
        (
            ExprV::TransferredValue(Some(sel_name(c))),
            add_import(imp, "use ink_lang::codegen::Env;"@),
        )
    } else if solidity_type(raw) is Some {
        (ExprV::Literal((solidity_type(raw)->0).0), imp)
    } else if last_value(enc, raw) is Some {
        (ExprV::Enclosed(Box::new(last_value(enc, raw)->0)), imp)
    } else {
        let ex = extract_s(raw, c, sc, imp, enc, fuel);
        if ex.args > 0 {
            member_s(ex.out, c, sc, ex.imports, ex.map, (fuel - 1) as nat)
        } else {
            member_stage2(raw, c, sc, ex.imports, enc, fuel)
        }
    }
}

/// The hex literal `value` written as a call of `hex`.
pub open spec fn hex_call(value: Seq<char>) -> Seq<char> {
    "hex(\""@ + value + "\")"@
}

/// Hex literals, struct initialisations, function calls, new arrays and
/// `type(..)` expressions.
pub open spec fn member_stage2(
    raw: Seq<char>,
    c: bool,
    sc: ScopeV,
    imp: Imports,
    enc: Enclosed,
    fuel: nat,
) -> (ExprV, Imports)
    decreases fuel, 3nat, 0nat,
{
    if fuel == 0 {
        (plain_member(raw, c, sc), imp)
    } else if regex_match(HEX_STRING@, raw) || regex_match(HEX@, raw) {
        let value = match regex_group(HEX_STRING@, raw, "value"@) {
            Some(v) => v,
            None => group_or_empty(HEX@, raw, "value"@),
        };
        member_s(hex_call(value), c, sc, imp, enc, (fuel - 1) as nat)
    } else if regex_match(STRUCT_INIT@, raw) {
        struct_init_s(raw, c, sc, imp, enc, fuel)
    } else if regex_match(FUNCTION_CALL@, raw) {
        function_call_s(raw, c, sc, imp, enc, fuel)
    } else if regex_match(NEW_ARRAY@, raw) {
        let (array_type, imp1) = convert_variable_type_spec(
            group_or_empty(NEW_ARRAY@, raw, "array_type"@),
            imp,
        );
        let (size, imp2) = member_s(
            group_or_empty(NEW_ARRAY@, raw, "array_size"@),
            c,
            sc,
            imp1,
            enc,
            (fuel - 1) as nat,
        );
        (ExprV::NewArray(array_type, Box::new(size)), imp2)
    } else if regex_match(TYPE@, raw) {
        let (sel, imp1) = member_s(
            group_or_empty(TYPE@, raw, "selector"@),
            c,
            sc,
            imp,
            enc,
            (fuel - 1) as nat,
        );
        let (mem, imp2) = member_s(
            group_or_empty(TYPE@, raw, "member"@),
            c,
            sc,
            imp1,
            enc,
            (fuel - 1) as nat,
        );
        (ExprV::WithSelector(Box::new(sel), Box::new(mem)), imp2)
    } else {
        member_stage3(raw, c, sc, imp, enc, fuel)
    }
}

/// The right side of a selection `left.right`, without its own receiver.
pub open spec fn unselected(right: ExprV) -> ExprV {
    match right {
        ExprV::FunctionCall(name, args, _sel, external) => ExprV::FunctionCall(
            name,
            args,
            None,
            external,
        ),
        ExprV::Member(name, _sel) => ExprV::Member(name, None),
        _ => right,
    }
}

/// Arithmetic, logical, ternary and boolean expressions, selections,
/// mapping accesses, increments and plain members.
pub open spec fn member_stage3(
    raw: Seq<char>,
    c: bool,
    sc: ScopeV,
    imp: Imports,
    enc: Enclosed,
    fuel: nat,
) -> (ExprV, Imports)
    decreases fuel, 2nat, 0nat,
{
    if fuel == 0 {
        (plain_member(raw, c, sc), imp)
    } else if regex_match(ARITHMETIC@, raw) {
        match operation_of(group_or_empty(ARITHMETIC@, raw, "operation"@)) {
            Some(op) => {
                let (left, imp1) = member_s(
                    group_or_empty(ARITHMETIC@, raw, "left"@),
                    c,
                    sc,
                    imp,
                    enc,
                    (fuel - 1) as nat,
                );
                let (right, imp2) = member_s(
                    group_or_empty(ARITHMETIC@, raw, "right"@),
                    c,
                    sc,
                    imp1,
                    enc,
                    (fuel - 1) as nat,
                );
                (ExprV::Arithmetic(Box::new(left), Box::new(right), op), imp2)
            },
            None => (ExprV::Literal(raw), imp),
        }
    } else if regex_match(LOGICAL@, raw) {
        match operation_of(group_or_empty(LOGICAL@, raw, "operation"@)) {
            Some(op) => {
                let (left, imp1) = member_s(
                    group_or_empty(LOGICAL@, raw, "left"@),
                    c,
                    sc,
                    imp,
                    enc,
                    (fuel - 1) as nat,
                );
                let (right, imp2) = member_s(
                    group_or_empty(LOGICAL@, raw, "right"@),
                    c,
                    sc,
                    imp1,
                    enc,
                    (fuel - 1) as nat,
                );
                (ExprV::Logical(Box::new(left), op, Box::new(right)), imp2)
            },
            None => (ExprV::Literal(raw), imp),
        }
    } else if regex_match(TERNARY@, raw) {
        ternary_s(raw, c, sc, imp, enc, fuel)
    } else if regex_match(BOOLEAN@, raw) {
        let (cond, imp1) = condition_s(raw, false, c, sc, imp, enc, fuel);
        (ExprV::Condition(Box::new(cond)), imp1)
    } else if regex_match(WITH_SELECTOR@, raw) {
        let (left, imp1) = member_s(
            group_or_empty(WITH_SELECTOR@, raw, "left"@),
            c,
            sc,
            imp,
            enc,
            (fuel - 1) as nat,
        );
        let (right, imp2) = member_s(
            group_or_empty(WITH_SELECTOR@, raw, "right"@),
            c,
            sc,
            imp1,
            enc,
            (fuel - 1) as nat,
        );
        (ExprV::WithSelector(Box::new(left), Box::new(unselected(right))), imp2)
    } else if regex_match(MAPPING_ACCESS@, raw) {
        mapping_s(raw, c, sc, imp, enc, fuel)
    } else if regex_match(DOUBLE_SIGN_RIGHT@, raw) {
        member_s(group_or_empty(DOUBLE_SIGN_RIGHT@, raw, "value"@), c, sc, imp, enc, (fuel - 1) as nat)
    } else if regex_match(DOUBLE_SIGN_LEFT@, raw) {
        member_s(group_or_empty(DOUBLE_SIGN_LEFT@, raw, "value"@), c, sc, imp, enc, (fuel - 1) as nat)
    } else {
        (plain_member(raw, c, sc), imp)
    }
}

/// The scan's state before the first character.
pub open spec fn ex_start(imp: Imports) -> ExState {
    ExState {
        out: Seq::empty(),
        tmp: Seq::empty(),
        open: 0,
        close: 0,
        args: 0,
        map: Seq::empty(),
        group_possible: true,
        group: false,
        imports: imp,
    }
}

/// Takes the parenthesised groups out of `raw` .
pub open spec fn extract_s(
    raw: Seq<char>,
    c: bool,
    sc: ScopeV,
    imp: Imports,
    enc: Enclosed,
    fuel: nat,
) -> Extracted
    decreases fuel, 1nat, 0nat,
{
    let st = extract_loop(raw, ex_start(imp), c, sc, enc, fuel);
    Extracted { out: st.out, args: st.args, map: st.map, imports: st.imports }
}

/// One character of the scan.
pub open spec fn extract_loop(
    chars: Seq<char>,
    st: ExState,
    c: bool,
    sc: ScopeV,
    enc: Enclosed,
    fuel: nat,
) -> ExState
    decreases fuel, 0nat, chars.len(),
{
    if chars.len() == 0 || fuel == 0 {
        st
    } else {
        let ch = chars[0];
        let open = if ch == '(' {
            st.open + 1
        } else {
            st.open
        };
        let close = if ch == ')' {
            st.close + 1
        } else {
            st.close
        };
        let next = if is_group_op(ch) && open == close {
            ExState { open, close, group_possible: true, out: st.out.push(ch), ..st }
        } else if ch == ' ' && st.group_possible {
            ExState { open, close, out: st.out.push(ch), ..st }
        } else if ch == '(' && st.group_possible {
            ExState { open, close, group: true, group_possible: false, ..st }
        } else if ch == ')' && st.group && open == close {
            let name = placeholder(st.args);
            let (e, imp1) = member_s(st.tmp, c, sc, st.imports, enc, (fuel - 1) as nat);
            ExState {
                open,
                close,
                group: false,
                map: st.map.push((name, e)),
                out: st.out + name,
                tmp: Seq::empty(),
                args: st.args + 1,
                imports: imp1,
                ..st
            }
        } else if st.group {
            ExState { open, close, group_possible: false, tmp: st.tmp.push(ch), ..st }
        } else {
            ExState { open, close, group_possible: false, out: st.out.push(ch), ..st }
        };
        extract_loop(chars.drop_first(), next, c, sc, enc, fuel)
    }
}

/// Parses a function call or a cast .
pub open spec fn function_call_s(
    raw: Seq<char>,
    c: bool,
    sc: ScopeV,
    imp: Imports,
    enc: Enclosed,
    fuel: nat,
) -> (ExprV, Imports)
    decreases fuel, 1nat, 0nat,
{
    let name = group_or_empty(FUNCTION_CALL@, raw, "function_name"@);
    let args_raw = group_or_empty(FUNCTION_CALL@, raw, "args"@);
    if fuel == 0 {
        (plain_member(raw, c, sc), imp)
    } else {
        match solidity_type(name) {
            Some((ink, init, _import)) => {
                let (x, imp1) = member_s(args_raw, c, sc, imp, enc, (fuel - 1) as nat);
                match init {
                    Some(u) => (ExprV::Cast(true, u, Box::new(x)), imp1),
                    None => (ExprV::Cast(false, ink, Box::new(x)), imp1),
                }
            },
            None => {
                let st = call_args_loop(
                    args_raw,
                    ArgState {
                        args: Seq::empty(),
                        buf: Seq::empty(),
                        open: 0,
                        close: 0,
                        imports: imp,
                    },
                    c,
                    sc,
                    enc,
                    fuel,
                );
                let (args, imp2) = if trim_spec(st.buf).len() > 0 {
                    let (x, i2) = member_s(trim_spec(st.buf), c, sc, st.imports, enc, (fuel - 1) as nat);
                    (st.args.push(x), i2)
                } else {
                    (st.args, st.imports)
                };
                let external = last_value(sc.functions, name);
                (
                    ExprV::FunctionCall(
                        name,
                        args,
                        if external is Some {
                            Some(sel_name(c))
                        } else {
                            None
                        },
                        match external {
                            Some(b) => b,
                            None => true,
                        },
                    ),
                    imp2,
                )
            },
        }
    }
}

/// One character of a call's arguments: top-level commas end an argument.
pub open spec fn call_args_loop(
    chars: Seq<char>,
    st: ArgState,
    c: bool,
    sc: ScopeV,
    enc: Enclosed,
    fuel: nat,
) -> ArgState
    decreases fuel, 0nat, chars.len(),
{
    if chars.len() == 0 || fuel == 0 {
        st
    } else {
        let ch = chars[0];
        let next = if ch == '(' {
            ArgState { open: st.open + 1, buf: st.buf.push(ch), ..st }
        } else if ch == ')' {
            ArgState { close: st.close + 1, buf: st.buf.push(ch), ..st }
        } else if ch == ',' && st.open == st.close {
            let (x, imp1) = member_s(trim_spec(st.buf), c, sc, st.imports, enc, (fuel - 1) as nat);
            ArgState { args: st.args.push(x), buf: Seq::empty(), imports: imp1, ..st }
        } else {
            ArgState { buf: st.buf.push(ch), ..st }
        };
        call_args_loop(chars.drop_first(), next, c, sc, enc, fuel)
    }
}

/// The condition of `line`, after the operation was read.
pub open spec fn zero_address_adjusted(
    left: ExprV,
    op: Operation,
    right: Option<ExprV>,
    inverted: bool,
    imp: Imports,
) -> (CondV, Imports) {
    let (l, o, r, i) = if right == Some(ExprV::ZeroAddressInto) {
        (
            ExprV::IsZero(Box::new(left)),
            if op == Operation::Equal {
                Operation::True
            } else if op == Operation::NotEqual {
                Operation::Not
            } else {
                op
            },
            None::<ExprV>,
            add_import(imp, "use brush::traits::AcountIdExt;\n"@),
        )
    } else {
        (left, op, right, imp)
    };
    (
        CondV {
            left: l,
            operation: if inverted {
                negation_of(o)
            } else {
                o
            },
            right: r,
        },
        i,
    )
}

/// Parses a condition ; a comparison whose operator is
/// not in the operator table is kept as written.
pub open spec fn condition_s(
    line: Seq<char>,
    inverted: bool,
    c: bool,
    sc: ScopeV,
    imp: Imports,
    enc: Enclosed,
    fuel: nat,
) -> (CondV, Imports)
    decreases fuel, 1nat, 0nat,
{
    if fuel == 0 {
        (CondV { left: plain_member(line, c, sc), operation: Operation::True, right: None }, imp)
    } else if regex_match(BOOLEAN@, line) {
        match operation_of(group_or_empty(BOOLEAN@, line, "operation"@)) {
            Some(op) => {
                let (left, imp1) = member_s(
                    group_or_empty(BOOLEAN@, line, "left"@),
                    c,
                    sc,
                    imp,
                    enc,
                    (fuel - 1) as nat,
                );
                let (right, imp2) = member_s(
                    group_or_empty(BOOLEAN@, line, "right"@),
                    c,
                    sc,
                    imp1,
                    enc,
                    (fuel - 1) as nat,
                );
                zero_address_adjusted(left, op, Some(right), inverted, imp2)
            },
            None => zero_address_adjusted(ExprV::Literal(line), Operation::True, None, inverted, imp),
        }
    } else if regex_match(NEGATIVE@, line) {
        let (left, imp1) = member_s(
            group_or_empty(NEGATIVE@, line, "value"@),
            c,
            sc,
            imp,
            enc,
            (fuel - 1) as nat,
        );
        zero_address_adjusted(left, Operation::Not, None, inverted, imp1)
    } else {
        let (left, imp1) = member_s(line, c, sc, imp, enc, (fuel - 1) as nat);
        zero_address_adjusted(left, Operation::True, None, inverted, imp1)
    }
}

/// Parses `condition ? if_true : if_false` .
pub open spec fn ternary_s(
    raw: Seq<char>,
    c: bool,
    sc: ScopeV,
    imp: Imports,
    enc: Enclosed,
    fuel: nat,
) -> (ExprV, Imports)
    decreases fuel, 1nat, 0nat,
{
    if fuel == 0 {
        (plain_member(raw, c, sc), imp)
    } else {
        let (cond, imp1) = condition_s(
            group_or_empty(TERNARY@, raw, "condition"@),
            false,
            c,
            sc,
            imp,
            enc,
            (fuel - 1) as nat,
        );
        let (t, imp2) = member_s(
            group_or_empty(TERNARY@, raw, "if_true"@),
            c,
            sc,
            imp1,
            enc,
            (fuel - 1) as nat,
        );
        let (f, imp3) = member_s(
            group_or_empty(TERNARY@, raw, "if_false"@),
            c,
            sc,
            imp2,
            enc,
            (fuel - 1) as nat,
        );
        (ExprV::Ternary(Box::new(cond), Box::new(t), Box::new(f)), imp3)
    }
}

/// The arguments of a struct initialisation, normalised.
pub open spec fn struct_args_text(raw: Seq<char>) -> Seq<char> {
    replace_seq(
        replace_seq(trim_spec(group_or_empty(STRUCT_INIT@, raw, "args"@)), ": "@, ":"@),
        ", "@,
        ","@,
    )
}

/// Parses `Name({ ... })`: named arguments when a `:` occurs, positional ones
/// otherwise; a positional argument of an unknown struct or field gets an
/// empty name.
pub open spec fn struct_init_s(
    raw: Seq<char>,
    c: bool,
    sc: ScopeV,
    imp: Imports,
    enc: Enclosed,
    fuel: nat,
) -> (ExprV, Imports)
    decreases fuel, 1nat, 0nat,
{
    let name = group_or_empty(STRUCT_INIT@, raw, "struct_name"@);
    let args_text = struct_args_text(raw);
    let parts = split_seq(args_text, ","@);
    if fuel == 0 {
        (plain_member(raw, c, sc), imp)
    } else if has_infix(args_text, ":"@) {
        let (args, imp1) = named_args_loop(parts, Seq::empty(), imp, c, sc, enc, fuel);
        (ExprV::StructInit(name, args), imp1)
    } else {
        let (args, imp1) = positional_args_loop(parts, name, Seq::empty(), imp, c, sc, enc, fuel);
        (ExprV::StructInit(name, args), imp1)
    }
}

/// Named struct arguments `name: value`, in order.
pub open spec fn named_args_loop(
    parts: Seq<Seq<char>>,
    args: Seq<ExprV>,
    imp: Imports,
    c: bool,
    sc: ScopeV,
    enc: Enclosed,
    fuel: nat,
) -> (Seq<ExprV>, Imports)
    decreases fuel, 0nat, parts.len(),
{
    if parts.len() == 0 || fuel == 0 {
        (args, imp)
    } else {
        let part = parts[0];
        let (value, imp1) = member_s(
            group_or_empty(NAMED_PARAM@, part, "value"@),
            c,
            sc,
            imp,
            enc,
            (fuel - 1) as nat,
        );
        let arg = ExprV::StructArg(group_or_empty(NAMED_PARAM@, part, "param_name"@), Box::new(value));
        named_args_loop(parts.drop_first(), args.push(arg), imp1, c, sc, enc, fuel)
    }
}

/// Positional struct arguments, named after the struct's fields.
pub open spec fn positional_args_loop(
    parts: Seq<Seq<char>>,
    name: Seq<char>,
    args: Seq<ExprV>,
    imp: Imports,
    c: bool,
    sc: ScopeV,
    enc: Enclosed,
    fuel: nat,
) -> (Seq<ExprV>, Imports)
    decreases fuel, 0nat, parts.len(),
{
    if parts.len() == 0 || fuel == 0 {
        (args, imp)
    } else {
        let (value, imp1) = member_s(parts[0], c, sc, imp, enc, (fuel - 1) as nat);
        let field = match struct_field_name_of(sc, name, args.len() as int) {
            Some(f) => f,
            None => Seq::empty(),
        };
        positional_args_loop(
            parts.drop_first(),
            name,
            args.push(ExprV::StructArg(field, Box::new(value))),
            imp1,
            c,
            sc,
            enc,
            fuel,
        )
    }
}

/// Parses `name[index]...` (a mapping or array access).
pub open spec fn mapping_s(
    raw: Seq<char>,
    c: bool,
    sc: ScopeV,
    imp: Imports,
    enc: Enclosed,
    fuel: nat,
) -> (ExprV, Imports)
    decreases fuel, 1nat, 0nat,
{
    if fuel == 0 {
        (plain_member(raw, c, sc), imp)
    } else {
        let (mapping, imp1) = member_s(
            group_or_empty(MAPPING_ACCESS@, raw, "mapping_name"@),
            c,
            sc,
            imp,
            enc,
            (fuel - 1) as nat,
        );
        let st = index_loop(
            group_or_empty(MAPPING_ACCESS@, raw, "index"@),
            IdxState { indices: Seq::empty(), buf: Seq::empty(), open: 0, close: 0, imports: imp1 },
            c,
            sc,
            enc,
            fuel,
        );
        (ExprV::Mapping(Box::new(mapping), st.indices, None), st.imports)
    }
}

/// One character of the indices: each balanced `[...]` is one index.
pub open spec fn index_loop(
    chars: Seq<char>,
    st: IdxState,
    c: bool,
    sc: ScopeV,
    enc: Enclosed,
    fuel: nat,
) -> IdxState
    decreases fuel, 0nat, chars.len(),
{
    if chars.len() == 0 || fuel == 0 {
        st
    } else {
        let ch = chars[0];
        let next = if ch == '[' {
            IdxState {
                open: st.open + 1,
                buf: if st.open > st.close {
                    st.buf.push(ch)
                } else {
                    st.buf
                },
                ..st
            }
        } else if ch == ']' {
            if st.open == st.close + 1 {
                let (x, imp1) = member_s(st.buf, c, sc, st.imports, enc, (fuel - 1) as nat);
                IdxState {
                    close: st.close + 1,
                    indices: st.indices.push(x),
                    buf: Seq::empty(),
                    imports: imp1,
                    ..st
                }
            } else {
                IdxState { close: st.close + 1, buf: st.buf.push(ch), ..st }
            }
        } else {
            IdxState { buf: st.buf.push(ch), ..st }
        };
        index_loop(chars.drop_first(), next, c, sc, enc, fuel)
    }
}



/// The model of the parenthesised groups taken out so far.
pub open spec fn enc_v(v: Seq<(String, Expression)>) -> Enclosed {
    v.map_values(|p: (String, Expression)| (p.0@, expr_v(p.1)))
}

fn lit(s: &str) -> (r: Vec<char>)
    ensures
        r@ == s@,
{
    chars_of(s)
}

fn text(v: &Vec<char>) -> (r: String)
    ensures
        r@ == v@,
{
    string_from_chars(v)
}

/// `is_literal`: a number that fits `i32`, a string or character literal,
/// or `true`/`false`.
pub fn is_literal(line: &Vec<char>) -> (r: bool)
    ensures
        r == is_literal_s(line@),
{
    parse_i32(line).is_some() || is_match(STRING_LITERAL, line) || is_match(CHAR_LITERAL, line)
        || chars_eq_str(line, "true") || chars_eq_str(line, "false")
}

fn plain_member_exec(raw: &Vec<char>, constructor: bool, scope: &Scope) -> (r: Expression)
    ensures
        expr_v(r) == plain_member(raw@, constructor, scope.view_scope()),
{
    Expression::Member(text(raw), get_selector(scope, constructor, raw))
}

fn enclosed_lookup(enclosed: &Vec<(String, Expression)>, raw: &Vec<char>) -> (r: Option<Expression>)
    ensures
        match r {
            Some(e) => last_value(enc_v(enclosed@), raw@) == Some(expr_v(e)),
            None => last_value(enc_v(enclosed@), raw@) is None,
        },
{
    let ghost ev = enc_v(enclosed@);
    let mut i: usize = enclosed.len();
    assert(ev.subrange(0, i as int) == ev);
    while i > 0
        invariant
            i <= enclosed.len(),
            ev == enc_v(enclosed@),
            last_value(ev, raw@) == last_value(ev.subrange(0, i as int), raw@),
        decreases i,
    {
        let ghost pre = ev.subrange(0, i as int);
        assert(pre.drop_last() == ev.subrange(0, i - 1));
        assert(pre.last() == (enclosed@[i - 1].0@, expr_v(enclosed@[i - 1].1)));
        let key = chars_of_string(&enclosed[i - 1].0);
        if chars_eq(&key, raw) {
            return Some(clone_expression(&enclosed[i - 1].1));
        }
        i = i - 1;
    }
    None
}

/// Parses an expression .
/// `fuel` bounds how deep it descends into nested parts.
pub fn parse_member_fuel(
    raw: &Vec<char>,
    constructor: bool,
    scope: &Scope,
    imports: &mut Vec<String>,
    enclosed: &Vec<(String, Expression)>,
    fuel: usize,
) -> (r: Expression)
    ensures
        no_duplicates(strings_view(old(imports)@)) ==> no_duplicates(strings_view(final(imports)@)),
        (expr_v(r), strings_view(final(imports)@)) == member_s(
            raw@,
            constructor,
            scope.view_scope(),
            strings_view(old(imports)@),
            enc_v(enclosed@),
            fuel as nat,
        ),
    decreases fuel, 4nat,
{
    if fuel == 0 {
        return plain_member_exec(raw, constructor, scope);
    }
    if is_literal(raw) {
        return Expression::Literal(text(raw));
    }
    if chars_eq_str(raw, "address(0)") || chars_eq_str(raw, "address(0x0)") {
        insert_import(imports, "use brush::traits::ZERO_ADDRESS;");
        return Expression::ZeroAddressInto;
    }
    if chars_eq_str(raw, "msg.sender") {
        insert_import(imports, "use ink_lang::codegen::Env;");
        return Expression::EnvCaller(Some(selector(constructor)));
    }
    if chars_eq_str(raw, "msg.value") {
        insert_import(imports, "use ink_lang::codegen::Env;");
        return Expression::TransferredValue(Some(selector(constructor)));
    }
    match lookup_type(raw) {
        Some(entry) => {
            return Expression::Literal(text(&entry.ink_type));
        },
        None => {},
    }
    match enclosed_lookup(enclosed, raw) {
        Some(e) => {
            return Expression::Enclosed(Box::new(e));
        },
        None => {},
    }
    let (out, args, map) = extract_parentheses_fuel(raw, constructor, scope, imports, enclosed, fuel);
    if args > 0 {
        parse_member_fuel(&out, constructor, scope, imports, &map, fuel - 1)
    } else {
        member_hex_struct_call(raw, constructor, scope, imports, enclosed, fuel)
    }
}

/// Hex literals, struct initialisations, function calls, new arrays and
/// `type(..)` expressions.
fn member_hex_struct_call(
    raw: &Vec<char>,
    constructor: bool,
    scope: &Scope,
    imports: &mut Vec<String>,
    enclosed: &Vec<(String, Expression)>,
    fuel: usize,
) -> (r: Expression)
    ensures
        no_duplicates(strings_view(old(imports)@)) ==> no_duplicates(strings_view(final(imports)@)),
        (expr_v(r), strings_view(final(imports)@)) == member_stage2(
            raw@,
            constructor,
            scope.view_scope(),
            strings_view(old(imports)@),
            enc_v(enclosed@),
            fuel as nat,
        ),
    decreases fuel, 3nat,
{
    if fuel == 0 {
        return plain_member_exec(raw, constructor, scope);
    }
    if is_match(HEX_STRING, raw) || is_match(HEX, raw) {
        let value = match capture(HEX_STRING, raw, "value") {
            Some(v) => v,
            None => capture_or_empty(HEX, raw, "value"),
        };
        let call = concat(&concat(&lit("hex(\""), &value), &lit("\")"));
        return parse_member_fuel(&call, constructor, scope, imports, enclosed, fuel - 1);
    }
    if is_match(STRUCT_INIT, raw) {
        return parse_struct_init(raw, constructor, scope, imports, enclosed, fuel);
    }
    if is_match(FUNCTION_CALL, raw) {
        return parse_function_call_fuel(raw, constructor, scope, imports, enclosed, fuel);
    }
    if is_match(NEW_ARRAY, raw) {
        let array_type_raw = capture_or_empty(NEW_ARRAY, raw, "array_type");
        let array_size_raw = capture_or_empty(NEW_ARRAY, raw, "array_size");
        let array_type = convert_variable_type(&array_type_raw, imports);
        let array_size = parse_member_fuel(&array_size_raw, constructor, scope, imports, enclosed, fuel - 1);
        return Expression::NewArray(text(&array_type), Box::new(array_size));
    }
    if is_match(TYPE, raw) {
        let selector_raw = capture_or_empty(TYPE, raw, "selector");
        let member_raw = capture_or_empty(TYPE, raw, "member");
        let sel = parse_member_fuel(&selector_raw, constructor, scope, imports, enclosed, fuel - 1);
        let mem = parse_member_fuel(&member_raw, constructor, scope, imports, enclosed, fuel - 1);
        return Expression::WithSelector(Box::new(sel), Box::new(mem));
    }
    member_operators(raw, constructor, scope, imports, enclosed, fuel)
}

fn unselect(right: Expression) -> (r: Expression)
    ensures
        expr_v(r) == unselected(expr_v(right)),
{
    match right {
        Expression::FunctionCall(name, args, _sel, external) => Expression::FunctionCall(
            name,
            args,
            None,
            external,
        ),
        Expression::Member(name, _sel) => Expression::Member(name, None),
        other => other,
    }
}

/// Arithmetic, logical, ternary and boolean expressions, selections,
/// mapping accesses, increments and plain members.
fn member_operators(
    raw: &Vec<char>,
    constructor: bool,
    scope: &Scope,
    imports: &mut Vec<String>,
    enclosed: &Vec<(String, Expression)>,
    fuel: usize,
) -> (r: Expression)
    ensures
        no_duplicates(strings_view(old(imports)@)) ==> no_duplicates(strings_view(final(imports)@)),
        (expr_v(r), strings_view(final(imports)@)) == member_stage3(
            raw@,
            constructor,
            scope.view_scope(),
            strings_view(old(imports)@),
            enc_v(enclosed@),
            fuel as nat,
        ),
    decreases fuel, 2nat,
{
    if fuel == 0 {
        return plain_member_exec(raw, constructor, scope);
    }
    if is_match(ARITHMETIC, raw) {
        let operation_raw = capture_or_empty(ARITHMETIC, raw, "operation");
        match lookup_operation(&operation_raw) {
            Some(op) => {
                let left_raw = capture_or_empty(ARITHMETIC, raw, "left");
                let right_raw = capture_or_empty(ARITHMETIC, raw, "right");
                let left = parse_member_fuel(&left_raw, constructor, scope, imports, enclosed, fuel - 1);
                let right = parse_member_fuel(&right_raw, constructor, scope, imports, enclosed, fuel - 1);
                return Expression::Arithmetic(Box::new(left), Box::new(right), op);
            },
            None => {
                return Expression::Literal(text(raw));
            },
        }
    }
    if is_match(LOGICAL, raw) {
        let operation_raw = capture_or_empty(LOGICAL, raw, "operation");
        match lookup_operation(&operation_raw) {
            Some(op) => {
                let left_raw = capture_or_empty(LOGICAL, raw, "left");
                let right_raw = capture_or_empty(LOGICAL, raw, "right");
                let left = parse_member_fuel(&left_raw, constructor, scope, imports, enclosed, fuel - 1);
                let right = parse_member_fuel(&right_raw, constructor, scope, imports, enclosed, fuel - 1);
                return Expression::Logical(Box::new(left), op, Box::new(right));
            },
            None => {
                return Expression::Literal(text(raw));
            },
        }
    }
    if is_match(TERNARY, raw) {
        return parse_ternary_fuel(raw, constructor, scope, imports, enclosed, fuel);
    }
    if is_match(BOOLEAN, raw) {
        let condition = parse_condition_fuel(raw, constructor, false, scope, imports, enclosed, fuel);
        return Expression::Condition(Box::new(condition));
    }
    if is_match(WITH_SELECTOR, raw) {
        let left_raw = capture_or_empty(WITH_SELECTOR, raw, "left");
        let right_raw = capture_or_empty(WITH_SELECTOR, raw, "right");
        let left = parse_member_fuel(&left_raw, constructor, scope, imports, enclosed, fuel - 1);
        let right = parse_member_fuel(&right_raw, constructor, scope, imports, enclosed, fuel - 1);
        return Expression::WithSelector(Box::new(left), Box::new(unselect(right)));
    }
    if is_match(MAPPING_ACCESS, raw) {
        return parse_mapping(raw, constructor, scope, imports, enclosed, fuel);
    }
    if is_match(DOUBLE_SIGN_RIGHT, raw) {
        let value = capture_or_empty(DOUBLE_SIGN_RIGHT, raw, "value");
        return parse_member_fuel(&value, constructor, scope, imports, enclosed, fuel - 1);
    }
    if is_match(DOUBLE_SIGN_LEFT, raw) {
        let value = capture_or_empty(DOUBLE_SIGN_LEFT, raw, "value");
        return parse_member_fuel(&value, constructor, scope, imports, enclosed, fuel - 1);
    }
    plain_member_exec(raw, constructor, scope)
}

spec fn ex_state(
    out: Seq<char>,
    tmp: Seq<char>,
    open: usize,
    close: usize,
    args: usize,
    map: Seq<(String, Expression)>,
    gp: bool,
    group: bool,
    imports: Seq<String>,
) -> ExState {
    ExState {
        out,
        tmp,
        open: open as nat,
        close: close as nat,
        args: args as nat,
        map: enc_v(map),
        group_possible: gp,
        group,
        imports: strings_view(imports),
    }
}

/// Takes the parenthesised groups out of `raw`, parsing each, and returns
/// the text with placeholders `___k___`, the number of groups, and the
/// parsed groups by placeholder .
/// `fuel` bounds how deep it descends into nested parts.
pub fn extract_parentheses_fuel(
    raw: &Vec<char>,
    constructor: bool,
    scope: &Scope,
    imports: &mut Vec<String>,
    enclosed: &Vec<(String, Expression)>,
    fuel: usize,
) -> (r: (Vec<char>, usize, Vec<(String, Expression)>))
    ensures
        no_duplicates(strings_view(old(imports)@)) ==> no_duplicates(strings_view(final(imports)@)),
        ({
            let ex = extract_s(
                raw@,
                constructor,
                scope.view_scope(),
                strings_view(old(imports)@),
                enc_v(enclosed@),
                fuel as nat,
            );
            &&& r.0@ == ex.out
            &&& r.1 as nat == ex.args
            &&& enc_v(r.2@) == ex.map
            &&& strings_view(final(imports)@) == ex.imports
        }),
    decreases fuel, 1nat,
{
    let ghost sc = scope.view_scope();
    let ghost enc = enc_v(enclosed@);
    let ghost total = extract_loop(raw@, ex_start(strings_view(imports@)), constructor, sc, enc, fuel as nat);
    let mut out: Vec<char> = Vec::new();
    let mut tmp: Vec<char> = Vec::new();
    let mut open: usize = 0;
    let mut close: usize = 0;
    let mut args: usize = 0;
    let mut map: Vec<(String, Expression)> = Vec::new();
    let mut gp = true;
    let mut group = false;
    if fuel == 0 {
        return (out, args, map);
    }
    assert(enc_v(map@) =~= Seq::<(Seq<char>, ExprV)>::empty());
    assert(raw@.subrange(0, raw@.len() as int) == raw@);
    let mut i: usize = 0;
    while i < raw.len()
        invariant
            no_duplicates(strings_view(old(imports)@)) ==> no_duplicates(strings_view(imports@)),
            fuel > 0,
            i <= raw.len(),
            open <= i,
            close <= i,
            args <= i,
            sc == scope.view_scope(),
            enc == enc_v(enclosed@),
            extract_loop(
                raw@.subrange(i as int, raw@.len() as int),
                ex_state(out@, tmp@, open, close, args, map@, gp, group, imports@),
                constructor,
                sc,
                enc,
                fuel as nat,
            ) == total,
        decreases raw.len() - i,
    {
        let ghost rest = raw@.subrange(i as int, raw@.len() as int);
        let ghost st = ex_state(out@, tmp@, open, close, args, map@, gp, group, imports@);
        assert(rest[0] == raw@[i as int]);
        assert(rest.drop_first() == raw@.subrange(i + 1, raw@.len() as int));
        let ch = raw[i];
        if ch == '(' {
            open = open + 1;
        }
        if ch == ')' {
            close = close + 1;
        }
        let is_op = ch == '*' || ch == '/' || ch == '=' || ch == '+' || ch == '-' || ch == '&' || ch
            == '|' || ch == '%' || ch == '!';
        if is_op && open == close {
            gp = true;
            out.push(ch);
        } else if ch == ' ' && gp {
            out.push(ch);
        } else if ch == '(' && gp {
            group = true;
            gp = false;
        } else if ch == ')' && group && open == close {
            group = false;
            let name = concat(&concat(&lit("___"), &decimal_chars(args)), &lit("___"));
            let expression = parse_member_fuel(&tmp, constructor, scope, imports, enclosed, fuel - 1);
            let ghost old_map = map@;
            let ghost e_v = expr_v(expression);
            map.push((text(&name), expression));
            assert(enc_v(map@) =~= enc_v(old_map).push((name@, e_v)));
            push_all(&mut out, &name);
            tmp = Vec::new();
            args = args + 1;
        } else {
            gp = false;
            if group {
                tmp.push(ch);
            } else {
                out.push(ch);
            }
        }
        i = i + 1;
    }
    (out, args, map)
}

spec fn arg_state(args: Seq<Expression>, buf: Seq<char>, open: usize, close: usize, imports: Seq<String>) -> ArgState {
    ArgState { args: exprs_v(args), buf, open: open as nat, close: close as nat, imports: strings_view(imports) }
}

/// Parses a function call, or a cast where the called name is a type
/// .
/// `fuel` bounds how deep it descends into nested parts.
pub fn parse_function_call_fuel(
    raw: &Vec<char>,
    constructor: bool,
    scope: &Scope,
    imports: &mut Vec<String>,
    enclosed: &Vec<(String, Expression)>,
    fuel: usize,
) -> (r: Expression)
    ensures
        no_duplicates(strings_view(old(imports)@)) ==> no_duplicates(strings_view(final(imports)@)),
        (expr_v(r), strings_view(final(imports)@)) == function_call_s(
            raw@,
            constructor,
            scope.view_scope(),
            strings_view(old(imports)@),
            enc_v(enclosed@),
            fuel as nat,
        ),
    decreases fuel, 1nat,
{
    let function_name = capture_or_empty(FUNCTION_CALL, raw, "function_name");
    let args_raw = capture_or_empty(FUNCTION_CALL, raw, "args");
    if fuel == 0 {
        return plain_member_exec(raw, constructor, scope);
    }
    match lookup_type(&function_name) {
        Some(entry) => {
            let x = parse_member_fuel(&args_raw, constructor, scope, imports, enclosed, fuel - 1);
            return match entry.initializer {
                Some(u) => Expression::Cast(true, text(&u), Box::new(x)),
                None => Expression::Cast(false, text(&entry.ink_type), Box::new(x)),
            };
        },
        None => {},
    }
    let ghost sc = scope.view_scope();
    let ghost enc = enc_v(enclosed@);
    let ghost total = call_args_loop(
        args_raw@,
        ArgState { args: Seq::empty(), buf: Seq::empty(), open: 0, close: 0, imports: strings_view(imports@) },
        constructor,
        sc,
        enc,
        fuel as nat,
    );
    let mut args: Vec<Expression> = Vec::new();
    let mut buffer: Vec<char> = Vec::new();
    let mut open: usize = 0;
    let mut close: usize = 0;
    assert(exprs_v(args@) =~= Seq::<ExprV>::empty());
    assert(args_raw@.subrange(0, args_raw@.len() as int) == args_raw@);
    let mut i: usize = 0;
    while i < args_raw.len()
        invariant
            no_duplicates(strings_view(old(imports)@)) ==> no_duplicates(strings_view(imports@)),
            fuel > 0,
            i <= args_raw.len(),
            open <= i,
            close <= i,
            sc == scope.view_scope(),
            enc == enc_v(enclosed@),
            call_args_loop(
                args_raw@.subrange(i as int, args_raw@.len() as int),
                arg_state(args@, buffer@, open, close, imports@),
                constructor,
                sc,
                enc,
                fuel as nat,
            ) == total,
        decreases args_raw.len() - i,
    {
        let ghost rest = args_raw@.subrange(i as int, args_raw@.len() as int);
        assert(rest[0] == args_raw@[i as int]);
        assert(rest.drop_first() == args_raw@.subrange(i + 1, args_raw@.len() as int));
        let ch = args_raw[i];
        if ch == '(' {
            open = open + 1;
            buffer.push(ch);
        } else if ch == ')' {
            close = close + 1;
            buffer.push(ch);
        } else if ch == ',' && open == close {
            let trimmed = collapse_and_trim(&buffer);
            let x = parse_member_fuel(&trimmed, constructor, scope, imports, enclosed, fuel - 1);
            let ghost old_args = args@;
            args.push(x);
            proof {
                lemma_exprs_v_push(old_args, x);
            }
            buffer = Vec::new();
        } else {
            buffer.push(ch);
        }
        i = i + 1;
    }
    let trimmed = collapse_and_trim(&buffer);
    if trimmed.len() > 0 {
        let x = parse_member_fuel(&trimmed, constructor, scope, imports, enclosed, fuel - 1);
        let ghost old_args = args@;
        args.push(x);
        proof {
            lemma_exprs_v_push(old_args, x);
        }
    }
    let external = function_lookup(scope, &function_name);
    let sel = match external {
        Some(_) => Some(selector(constructor)),
        None => None,
    };
    let ext = match external {
        Some(b) => b,
        None => true,
    };
    Expression::FunctionCall(text(&function_name), args, sel, ext)
}

fn adjust_zero_address(
    left: Expression,
    op: Operation,
    right: Option<Expression>,
    inverted: bool,
    imports: &mut Vec<String>,
) -> (r: Condition)
    ensures
        no_duplicates(strings_view(old(imports)@)) ==> no_duplicates(strings_view(final(imports)@)),
        (cond_v(r), strings_view(final(imports)@)) == zero_address_adjusted(
            expr_v(left),
            op,
            match right {
                Some(x) => Some(expr_v(x)),
                None => None,
            },
            inverted,
            strings_view(old(imports)@),
        ),
{
    let is_zero = match &right {
        Some(Expression::ZeroAddressInto) => true,
        _ => false,
    };
    let (l, o, rgt) = if is_zero {
        insert_import(imports, "use brush::traits::AcountIdExt;\n");
        let o = if op == Operation::Equal {
            Operation::True
        } else if op == Operation::NotEqual {
            Operation::Not
        } else {
            op
        };
        (Expression::IsZero(Box::new(left)), o, None)
    } else {
        (left, op, right)
    };
    Condition { left: l, operation: if inverted { o.negate() } else { o }, right: rgt }
}

/// Parses a condition ; with `inverted`, the condition
/// that holds when the written one does not.
/// `fuel` bounds how deep it descends into nested parts.
pub fn parse_condition_fuel(
    line: &Vec<char>,
    constructor: bool,
    inverted: bool,
    scope: &Scope,
    imports: &mut Vec<String>,
    enclosed: &Vec<(String, Expression)>,
    fuel: usize,
) -> (r: Condition)
    ensures
        no_duplicates(strings_view(old(imports)@)) ==> no_duplicates(strings_view(final(imports)@)),
        (cond_v(r), strings_view(final(imports)@)) == condition_s(
            line@,
            inverted,
            constructor,
            scope.view_scope(),
            strings_view(old(imports)@),
            enc_v(enclosed@),
            fuel as nat,
        ),
    decreases fuel, 1nat,
{
    if fuel == 0 {
        return Condition {
            left: plain_member_exec(line, constructor, scope),
            operation: Operation::True,
            right: None,
        };
    }
    if is_match(BOOLEAN, line) {
        let operation_raw = capture_or_empty(BOOLEAN, line, "operation");
        match lookup_operation(&operation_raw) {
            Some(op) => {
                let left_raw = capture_or_empty(BOOLEAN, line, "left");
                let right_raw = capture_or_empty(BOOLEAN, line, "right");
                let left = parse_member_fuel(&left_raw, constructor, scope, imports, enclosed, fuel - 1);
                let right = parse_member_fuel(&right_raw, constructor, scope, imports, enclosed, fuel - 1);
                adjust_zero_address(left, op, Some(right), inverted, imports)
            },
            None => adjust_zero_address(
                Expression::Literal(text(line)),
                Operation::True,
                None,
                inverted,
                imports,
            ),
        }
    } else if is_match(NEGATIVE, line) {
        let value = capture_or_empty(NEGATIVE, line, "value");
        let left = parse_member_fuel(&value, constructor, scope, imports, enclosed, fuel - 1);
        adjust_zero_address(left, Operation::Not, None, inverted, imports)
    } else {
        let left = parse_member_fuel(line, constructor, scope, imports, enclosed, fuel - 1);
        adjust_zero_address(left, Operation::True, None, inverted, imports)
    }
}

/// Parses `condition ? if_true : if_false` .
/// `fuel` bounds how deep it descends into nested parts.
pub fn parse_ternary_fuel(
    raw: &Vec<char>,
    constructor: bool,
    scope: &Scope,
    imports: &mut Vec<String>,
    enclosed: &Vec<(String, Expression)>,
    fuel: usize,
) -> (r: Expression)
    ensures
        no_duplicates(strings_view(old(imports)@)) ==> no_duplicates(strings_view(final(imports)@)),
        (expr_v(r), strings_view(final(imports)@)) == ternary_s(
            raw@,
            constructor,
            scope.view_scope(),
            strings_view(old(imports)@),
            enc_v(enclosed@),
            fuel as nat,
        ),
    decreases fuel, 1nat,
{
    if fuel == 0 {
        return plain_member_exec(raw, constructor, scope);
    }
    let condition_raw = capture_or_empty(TERNARY, raw, "condition");
    let if_true_raw = capture_or_empty(TERNARY, raw, "if_true");
    let if_false_raw = capture_or_empty(TERNARY, raw, "if_false");
    let condition = parse_condition_fuel(&condition_raw, constructor, false, scope, imports, enclosed, fuel - 1);
    let if_true = parse_member_fuel(&if_true_raw, constructor, scope, imports, enclosed, fuel - 1);
    let if_false = parse_member_fuel(&if_false_raw, constructor, scope, imports, enclosed, fuel - 1);
    Expression::Ternary(Box::new(condition), Box::new(if_true), Box::new(if_false))
}

/// Parses a struct initialisation `Name({ ... })`.
fn parse_struct_init(
    raw: &Vec<char>,
    constructor: bool,
    scope: &Scope,
    imports: &mut Vec<String>,
    enclosed: &Vec<(String, Expression)>,
    fuel: usize,
) -> (r: Expression)
    ensures
        no_duplicates(strings_view(old(imports)@)) ==> no_duplicates(strings_view(final(imports)@)),
        (expr_v(r), strings_view(final(imports)@)) == struct_init_s(
            raw@,
            constructor,
            scope.view_scope(),
            strings_view(old(imports)@),
            enc_v(enclosed@),
            fuel as nat,
        ),
    decreases fuel, 1nat,
{
    let struct_name = capture_or_empty(STRUCT_INIT, raw, "struct_name");
    let args_captured = capture_or_empty(STRUCT_INIT, raw, "args");
    let trimmed = collapse_and_trim(&args_captured);
    proof {
        reveal_strlit(": ");
        reveal_strlit(", ");
    }
    let step = replace_str(&trimmed, ": ", ":");
    let args_string = replace_str(&step, ", ", ",");
    assert(args_string@ == struct_args_text(raw@));
    if fuel == 0 {
        return plain_member_exec(raw, constructor, scope);
    }
    let ghost sc = scope.view_scope();
    let ghost enc = enc_v(enclosed@);
    let joined = text(&args_string);
    let parts = split_plain(joined.as_str(), ",");
    let ghost pv = split_seq(args_string@, ","@);
    let named = contains_str(&args_string, ":");
    let ghost imp0 = strings_view(imports@);
    let ghost total = if named {
        named_args_loop(pv, Seq::empty(), imp0, constructor, sc, enc, fuel as nat)
    } else {
        positional_args_loop(pv, struct_name@, Seq::empty(), imp0, constructor, sc, enc, fuel as nat)
    };
    let mut args: Vec<Expression> = Vec::new();
    assert(exprs_v(args@) =~= Seq::<ExprV>::empty());
    assert(pv.subrange(0, pv.len() as int) == pv);
    let mut i: usize = 0;
    while i < parts.len()
        invariant
            no_duplicates(strings_view(old(imports)@)) ==> no_duplicates(strings_view(imports@)),
            fuel > 0,
            i <= parts.len(),
            pv == strings_view(parts@),
            args@.len() == i,
            sc == scope.view_scope(),
            enc == enc_v(enclosed@),
            named ==> named_args_loop(
                pv.subrange(i as int, pv.len() as int),
                exprs_v(args@),
                strings_view(imports@),
                constructor,
                sc,
                enc,
                fuel as nat,
            ) == total,
            !named ==> positional_args_loop(
                pv.subrange(i as int, pv.len() as int),
                struct_name@,
                exprs_v(args@),
                strings_view(imports@),
                constructor,
                sc,
                enc,
                fuel as nat,
            ) == total,
        decreases parts.len() - i,
    {
        let ghost rest = pv.subrange(i as int, pv.len() as int);
        assert(rest[0] == parts@[i as int]@);
        assert(rest.drop_first() == pv.subrange(i + 1, pv.len() as int));
        let part = chars_of_string(&parts[i]);
        let ghost old_args = args@;
        proof {
            crate::model::lemma_exprs_v(old_args);
        }
        if named {
            let param_name = capture_or_empty(NAMED_PARAM, &part, "param_name");
            let value_raw = capture_or_empty(NAMED_PARAM, &part, "value");
            let value = parse_member_fuel(&value_raw, constructor, scope, imports, enclosed, fuel - 1);
            let arg = Expression::StructArg(text(&param_name), Box::new(value));
            args.push(arg);
            proof {
                lemma_exprs_v_push(old_args, arg);
            }
        } else {
            let value = parse_member_fuel(&part, constructor, scope, imports, enclosed, fuel - 1);
            let field = match struct_field_name(scope, &struct_name, i) {
                Some(f) => f,
                None => Vec::new(),
            };
            let arg = Expression::StructArg(text(&field), Box::new(value));
            args.push(arg);
            proof {
                lemma_exprs_v_push(old_args, arg);
            }
        }
        i = i + 1;
    }
    Expression::StructInit(text(&struct_name), args)
}

spec fn idx_state(indices: Seq<Expression>, buf: Seq<char>, open: usize, close: usize, imports: Seq<String>) -> IdxState {
    IdxState { indices: exprs_v(indices), buf, open: open as nat, close: close as nat, imports: strings_view(imports) }
}

/// Parses `name[index]...`, a mapping or array access.
fn parse_mapping(
    raw: &Vec<char>,
    constructor: bool,
    scope: &Scope,
    imports: &mut Vec<String>,
    enclosed: &Vec<(String, Expression)>,
    fuel: usize,
) -> (r: Expression)
    ensures
        no_duplicates(strings_view(old(imports)@)) ==> no_duplicates(strings_view(final(imports)@)),
        (expr_v(r), strings_view(final(imports)@)) == mapping_s(
            raw@,
            constructor,
            scope.view_scope(),
            strings_view(old(imports)@),
            enc_v(enclosed@),
            fuel as nat,
        ),
    decreases fuel, 1nat,
{
    if fuel == 0 {
        return plain_member_exec(raw, constructor, scope);
    }
    let mapping_raw = capture_or_empty(MAPPING_ACCESS, raw, "mapping_name");
    let mapping = parse_member_fuel(&mapping_raw, constructor, scope, imports, enclosed, fuel - 1);
    let indices_raw = capture_or_empty(MAPPING_ACCESS, raw, "index");
    let ghost sc = scope.view_scope();
    let ghost enc = enc_v(enclosed@);
    let ghost total = index_loop(
        indices_raw@,
        IdxState { indices: Seq::empty(), buf: Seq::empty(), open: 0, close: 0, imports: strings_view(imports@) },
        constructor,
        sc,
        enc,
        fuel as nat,
    );
    let mut indices: Vec<Expression> = Vec::new();
    let mut buffer: Vec<char> = Vec::new();
    let mut open: usize = 0;
    let mut close: usize = 0;
    assert(exprs_v(indices@) =~= Seq::<ExprV>::empty());
    assert(indices_raw@.subrange(0, indices_raw@.len() as int) == indices_raw@);
    let mut i: usize = 0;
    while i < indices_raw.len()
        invariant
            no_duplicates(strings_view(old(imports)@)) ==> no_duplicates(strings_view(imports@)),
            fuel > 0,
            i <= indices_raw.len(),
            open <= i,
            close <= i,
            sc == scope.view_scope(),
            enc == enc_v(enclosed@),
            index_loop(
                indices_raw@.subrange(i as int, indices_raw@.len() as int),
                idx_state(indices@, buffer@, open, close, imports@),
                constructor,
                sc,
                enc,
                fuel as nat,
            ) == total,
        decreases indices_raw.len() - i,
    {
        let ghost rest = indices_raw@.subrange(i as int, indices_raw@.len() as int);
        assert(rest[0] == indices_raw@[i as int]);
        assert(rest.drop_first() == indices_raw@.subrange(i + 1, indices_raw@.len() as int));
        let ch = indices_raw[i];
        if ch == '[' {
            if open > close {
                buffer.push(ch);
            }
            open = open + 1;
        } else if ch == ']' {
            if open == close + 1 {
                let x = parse_member_fuel(&buffer, constructor, scope, imports, enclosed, fuel - 1);
                let ghost old_indices = indices@;
                indices.push(x);
                proof {
                    lemma_exprs_v_push(old_indices, x);
                }
                buffer = Vec::new();
            } else {
                buffer.push(ch);
            }
            close = close + 1;
        } else {
            buffer.push(ch);
        }
        i = i + 1;
    }
    Expression::Mapping(Box::new(mapping), indices, None)
}

/// Parses an expression (`parse_member`), however deeply it nests.
pub fn parse_member(
    raw: &Vec<char>,
    constructor: bool,
    scope: &Scope,
    imports: &mut Vec<String>,
    enclosed: &Vec<(String, Expression)>,
) -> (r: Expression)
    ensures
        no_duplicates(strings_view(old(imports)@)) ==> no_duplicates(strings_view(final(imports)@)),
        (expr_v(r), strings_view(final(imports)@)) == member_s(
            raw@,
            constructor,
            scope.view_scope(),
            strings_view(old(imports)@),
            enc_v(enclosed@),
            usize::MAX as nat,
        ),
{
    parse_member_fuel(raw, constructor, scope, imports, enclosed, usize::MAX)
}

/// Replaces each top-level parenthesised group of `raw` by a placeholder:
/// the text with placeholders `___k___`, the number of groups, and the
/// parsed groups by placeholder (`extract_parentheses`).
pub fn extract_parentheses(
    raw: &Vec<char>,
    constructor: bool,
    scope: &Scope,
    imports: &mut Vec<String>,
    enclosed: &Vec<(String, Expression)>,
) -> (r: (Vec<char>, usize, Vec<(String, Expression)>))
    ensures
        no_duplicates(strings_view(old(imports)@)) ==> no_duplicates(strings_view(final(imports)@)),
        ({
            let ex = extract_s(
                raw@,
                constructor,
                scope.view_scope(),
                strings_view(old(imports)@),
                enc_v(enclosed@),
                usize::MAX as nat,
            );
            &&& r.0@ == ex.out
            &&& r.1 as nat == ex.args
            &&& enc_v(r.2@) == ex.map
            &&& strings_view(final(imports)@) == ex.imports
        }),
{
    extract_parentheses_fuel(raw, constructor, scope, imports, enclosed, usize::MAX)
}

/// Parses a function call, or a cast where the called name is a type
/// (`parse_function_call`).
pub fn parse_function_call(
    raw: &Vec<char>,
    constructor: bool,
    scope: &Scope,
    imports: &mut Vec<String>,
    enclosed: &Vec<(String, Expression)>,
) -> (r: Expression)
    ensures
        no_duplicates(strings_view(old(imports)@)) ==> no_duplicates(strings_view(final(imports)@)),
        (expr_v(r), strings_view(final(imports)@)) == function_call_s(
            raw@,
            constructor,
            scope.view_scope(),
            strings_view(old(imports)@),
            enc_v(enclosed@),
            usize::MAX as nat,
        ),
{
    parse_function_call_fuel(raw, constructor, scope, imports, enclosed, usize::MAX)
}

/// Parses a condition (`parse_condition`); with `inverted`, the condition
/// that holds when the written one does not.
pub fn parse_condition(
    line: &Vec<char>,
    constructor: bool,
    inverted: bool,
    scope: &Scope,
    imports: &mut Vec<String>,
    enclosed: &Vec<(String, Expression)>,
) -> (r: Condition)
    ensures
        no_duplicates(strings_view(old(imports)@)) ==> no_duplicates(strings_view(final(imports)@)),
        (cond_v(r), strings_view(final(imports)@)) == condition_s(
            line@,
            inverted,
            constructor,
            scope.view_scope(),
            strings_view(old(imports)@),
            enc_v(enclosed@),
            usize::MAX as nat,
        ),
{
    parse_condition_fuel(line, constructor, inverted, scope, imports, enclosed, usize::MAX)
}

/// Parses `condition ? if_true : if_false` (`parse_ternary`).
pub fn parse_ternary(
    raw: &Vec<char>,
    constructor: bool,
    scope: &Scope,
    imports: &mut Vec<String>,
    enclosed: &Vec<(String, Expression)>,
) -> (r: Expression)
    ensures
        no_duplicates(strings_view(old(imports)@)) ==> no_duplicates(strings_view(final(imports)@)),
        (expr_v(r), strings_view(final(imports)@)) == ternary_s(
            raw@,
            constructor,
            scope.view_scope(),
            strings_view(old(imports)@),
            enc_v(enclosed@),
            usize::MAX as nat,
        ),
{
    parse_ternary_fuel(raw, constructor, scope, imports, enclosed, usize::MAX)
}

} // verus!

verus! {

/// An arithmetic expression `left op right` parses into the arithmetic of
/// the parsed left side and the parsed right side, in that order.
pub proof fn lemma_arithmetic_operands(raw: Seq<char>, c: bool, sc: ScopeV, imp: Imports, enc: Enclosed, fuel: nat)
    requires
        fuel > 0,
        regex_match(ARITHMETIC@, raw),
        operation_of(group_or_empty(ARITHMETIC@, raw, "operation"@)) is Some,
    ensures
        ({
            let op = operation_of(group_or_empty(ARITHMETIC@, raw, "operation"@))->0;
            let (left, imp1) = member_s(group_or_empty(ARITHMETIC@, raw, "left"@), c, sc, imp, enc, (fuel - 1) as nat);
            let (right, imp2) = member_s(
                group_or_empty(ARITHMETIC@, raw, "right"@),
                c,
                sc,
                imp1,
                enc,
                (fuel - 1) as nat,
            );
            member_stage3(raw, c, sc, imp, enc, fuel) == (ExprV::Arithmetic(Box::new(left), Box::new(right), op), imp2)
        }),
{
}

} // verus!
