//! The file, contract and interface readers: what a source file declares,
//! and the contract or interface it holds.

use vstd::prelude::*;
use crate::structures::{Contract, Interface, ContractField, Event, EventField, Enum, Struct, StructField, Function, FunctionHeader, Modifier, Expression};
use crate::cursor::CharStream;
use crate::scanner::{read_until, read_until_s, until_s, lemma_until_skip, comment_loop, block_comment_loop, block_comment_start,
    parse_comment, parse_multiline_comment, chars_seqs};
use crate::declarations::{Imports, HeaderV, EventFieldV, StructFieldV, event_field_v, struct_field_v, RawFunctionV, FieldV, EventV, EnumV, StructV, ParamV, event_s,
    enum_s, struct_s, function_s, header_s, contract_field_s, modifier_imports, event_view, enum_view,
    struct_view, header_view, field_view, params_v, parse_event, parse_enum, parse_struct, parse_function,
    parse_modifier, parse_function_header, parse_contract_field, copy_strings};
use crate::statements::{Lines, lines_v, statements_s};
use crate::statement_parser::parse_statements;
use crate::expressions::{function_call_s, parse_function_call_fuel, enc_v};
use crate::scope::{Scope, ScopeV, event_v, struct_v, lemma_view_scope};
use crate::model::{ExprV, StmtV, expr_v, exprs_v, stmts_v, lemma_exprs_v_push};
use crate::formatter::strings_view;
use crate::pattern::{substring, substring_spec};
use crate::patterns::MODIFIER_NAME;
use crate::types::{capture_or_empty, group_or_empty};
use crate::text::{chars_of, contains_str, concat, has_infix, chars_of_string, chars_eq, chars_eq_str, string_from_chars, trim_seq, trim_chars, utf8_len, byte_len};

use crate::imports::no_duplicates;
use crate::declared::{contract_check, contract_missing, reports};
verus! {

/// Why a source file could not be turned into a contract or an interface.
#[derive(Debug, PartialEq, Eq)]
pub enum ParserError {
    FileError(String),
    FileCorrupted,
    LibraryParsingNotImplemented,
    /// An `emit` of an event that the contract does not declare, or with
    /// more arguments than the event has fields.
    EventNotDefined(String),
    /// A struct built from positional arguments that the contract does not
    /// declare, or with more arguments than the struct has fields.
    StructNotDefined(String),
}

/// Where a contract or interface reader stands.
#[derive(Debug, Clone, Copy, PartialEq, Eq, Structural)]
pub enum ScanAction {
    Start,
    ContractName,
    ContractNamed,
    Contract,
    Slash,
}

pub struct FunctionV {
    pub header: HeaderV,
    pub body: Seq<StmtV>,
}

pub struct ModifierV {
    pub header: HeaderV,
    pub statements: Seq<StmtV>,
    pub comments: Seq<Seq<char>>,
}

pub struct RawModifierV {
    pub header: HeaderV,
    pub lines: Lines,
    pub comments: Seq<Seq<char>>,
}

pub struct ContractV {
    pub name: Seq<char>,
    pub fields: Seq<FieldV>,
    pub constructor: FunctionV,
    pub events: Seq<EventV>,
    pub enums: Seq<EnumV>,
    pub structs: Seq<StructV>,
    pub functions: Seq<FunctionV>,
    pub imports: Imports,
    pub contract_doc: Seq<Seq<char>>,
    pub modifiers: Seq<ModifierV>,
}

pub struct InterfaceV {
    pub name: Seq<char>,
    pub events: Seq<EventV>,
    pub enums: Seq<EnumV>,
    pub structs: Seq<StructV>,
    pub function_headers: Seq<HeaderV>,
    pub imports: Imports,
    pub comments: Seq<Seq<char>>,
}

/// The scan over a contract's text: the declarations read so far.
pub struct ContractScan {
    pub action: ScanAction,
    pub buffer: Seq<char>,
    pub name: Seq<char>,
    pub comments: Seq<Seq<char>>,
    pub fields: Seq<FieldV>,
    pub events: Seq<EventV>,
    pub enums: Seq<EnumV>,
    pub structs: Seq<StructV>,
    pub functions: Seq<RawFunctionV>,
    pub constructor: RawFunctionV,
    pub modifiers: Seq<RawModifierV>,
    pub imports: Imports,
}

/// A header with no name, parameters or attributes.
pub open spec fn empty_header() -> HeaderV {
    HeaderV {
        name: Seq::empty(),
        params: Seq::empty(),
        external: false,
        view: false,
        payable: false,
        return_params: Seq::empty(),
        comments: Seq::empty(),
        modifiers: Seq::empty(),
    }
}

pub open spec fn contract_start() -> ContractScan {
    ContractScan {
        action: ScanAction::Start,
        buffer: Seq::empty(),
        name: Seq::empty(),
        comments: Seq::empty(),
        fields: Seq::empty(),
        events: Seq::empty(),
        enums: Seq::empty(),
        structs: Seq::empty(),
        functions: Seq::empty(),
        constructor: RawFunctionV { header: empty_header(), lines: Seq::empty() },
        modifiers: Seq::empty(),
        imports: Seq::empty(),
    }
}

/// The comments with a line comment added unless it is empty.
pub open spec fn with_comment(comments: Seq<Seq<char>>, c: Seq<char>) -> Seq<Seq<char>> {
    if c.len() == 0 {
        comments
    } else {
        comments.push(c)
    }
}

/// What the word `t` read in a contract's body starts (`ch` being the last
/// character read, `rest` the input after it): an event, enum, struct,
/// constructor, function, `receive`, `fallback`, `using` directive, modifier,
/// or, at a `;`, a state variable. Comments read before a declaration go to
/// it.
pub open spec fn contract_member(t: Seq<char>, ch: char, rest: Seq<char>, st: ContractScan) -> (
    ContractScan,
    Seq<char>,
) {
    if t == "event"@ {
        let (e, imp, r) = event_s(rest, st.imports, st.comments);
        (ContractScan { events: st.events.push(e), imports: imp, comments: Seq::empty(), buffer: Seq::empty(), ..st }, r)
    } else if t == "enum"@ {
        let (e, r) = enum_s(rest, st.comments);
        (ContractScan { enums: st.enums.push(e), comments: Seq::empty(), buffer: Seq::empty(), ..st }, r)
    } else if t == "struct"@ {
        let (s, imp, r) = struct_s(rest, st.imports, st.comments);
        (ContractScan { structs: st.structs.push(s), imports: imp, comments: Seq::empty(), buffer: Seq::empty(), ..st }, r)
    } else if t == "constructor"@ {
        let (f, imp, r) = function_s(rest, st.imports, st.comments);
        (ContractScan { constructor: f, imports: imp, comments: Seq::empty(), buffer: Seq::empty(), ..st }, r)
    } else if t == "function"@ {
        let (f, imp, r) = function_s(rest, st.imports, st.comments);
        (ContractScan { functions: st.functions.push(f), imports: imp, comments: Seq::empty(), buffer: Seq::empty(), ..st }, r)
    } else if t == "receive"@ || t == "fallback"@ {
        let (f, imp, r) = function_s(rest, st.imports, st.comments);
        let named = RawFunctionV { header: HeaderV { name: t, ..f.header }, ..f };
        (ContractScan { functions: st.functions.push(named), imports: imp, comments: Seq::empty(), buffer: Seq::empty(), ..st }, r)
    } else if t == "using"@ {
        let (_, r) = read_until_s(rest, seq![';']);
        (ContractScan { buffer: Seq::empty(), ..st }, r)
    } else if t == "modifier"@ {
        let (f, imp, r) = function_s(rest, modifier_imports(st.imports), st.comments);
        let m = RawModifierV { header: f.header, lines: f.lines, comments: st.comments };
        (ContractScan { modifiers: st.modifiers.push(m), imports: imp, comments: Seq::empty(), buffer: Seq::empty(), ..st }, r)
    } else if ch == ';' {
        let (f, imp) = contract_field_s(t, st.imports, st.comments);
        (ContractScan { fields: st.fields.push(f), imports: imp, comments: Seq::empty(), buffer: Seq::empty(), ..st }, rest)
    } else {
        (st, rest)
    }
}

/// The declarations of a contract read from `input` to its end: the name
/// up to the first space, then comments, declarations and state variables.
pub open spec fn contract_scan(input: Seq<char>, st: ContractScan) -> ContractScan
    decreases input.len(),
{
    if input.len() == 0 {
        st
    } else {
        let ch = input[0];
        let rest = input.drop_first();
        if ch == '\n' && (st.action == ScanAction::Start || st.action == ScanAction::Contract) {
            contract_scan(rest, st)
        } else if ch == '/' && st.action == ScanAction::Contract {
            contract_scan(rest, ContractScan { action: ScanAction::Slash, ..st })
        } else if ch == '/' && st.action == ScanAction::Slash {
            let (c, r) = comment_loop(rest, Seq::empty(), false);
            let next = ContractScan { comments: with_comment(st.comments, c), action: ScanAction::Contract, ..st };
            if r.len() < input.len() {
                contract_scan(r, next)
            } else {
                next
            }
        } else if ch == '*' && st.action == ScanAction::Slash {
            let (cs, r) = block_comment_loop(rest, block_comment_start());
            let next = ContractScan { comments: st.comments + cs, action: ScanAction::Contract, ..st };
            if r.len() < input.len() {
                contract_scan(r, next)
            } else {
                next
            }
        } else if ch == ' ' && st.action == ScanAction::ContractName {
            let (_, r) = read_until_s(rest, seq!['{']);
            let next = ContractScan {
                name: trim_seq(st.buffer),
                buffer: Seq::empty(),
                action: ScanAction::Contract,
                ..st
            };
            if r.len() < input.len() {
                contract_scan(r, next)
            } else {
                next
            }
        } else if st.action == ScanAction::Start {
            contract_scan(rest, ContractScan { buffer: st.buffer.push(ch), action: ScanAction::ContractName, ..st })
        } else if st.action == ScanAction::ContractName || st.action == ScanAction::Contract {
            let buffer = st.buffer.push(ch);
            let (next, r) = contract_member(trim_seq(buffer), ch, rest, ContractScan { buffer, ..st });
            if r.len() < input.len() {
                contract_scan(r, next)
            } else {
                next
            }
        } else {
            contract_scan(rest, st)
        }
    }
}

/// A modifier invocation as a call: a bare name is called without
/// arguments.
pub open spec fn modifier_call(m: Seq<char>) -> Seq<char> {
    if has_infix(m, "("@) {
        m
    } else {
        m + "()"@
    }
}

/// The modifier invocations of a function that name a modifier of the
/// contract, each parsed as a call (`process_function_modifiers`).
pub open spec fn modifier_calls_loop(
    raw: Seq<ExprV>,
    names: Seq<Seq<char>>,
    sc: ScopeV,
    imp: Imports,
    acc: Seq<ExprV>,
) -> (Seq<ExprV>, Imports)
    decreases raw.len(),
{
    if raw.len() == 0 {
        (acc, imp)
    } else {
        match raw[0] {
            ExprV::Modifier(m) => {
                if names.contains(group_or_empty(MODIFIER_NAME@, m, "name"@)) {
                    let (e, imp1) = function_call_s(modifier_call(m), false, sc, imp, Seq::empty(), usize::MAX as nat);
                    modifier_calls_loop(raw.drop_first(), names, sc, imp1, acc.push(e))
                } else {
                    modifier_calls_loop(raw.drop_first(), names, sc, imp, acc)
                }
            },
            _ => modifier_calls_loop(raw.drop_first(), names, sc, imp, acc),
        }
    }
}

/// The functions with their modifier invocations and statements parsed,
/// one after the other.
pub open spec fn finish_functions(
    fs: Seq<RawFunctionV>,
    names: Seq<Seq<char>>,
    sc: ScopeV,
    imp: Imports,
    acc: Seq<FunctionV>,
) -> (Seq<FunctionV>, Imports)
    decreases fs.len(),
{
    if fs.len() == 0 {
        (acc, imp)
    } else {
        let f = fs[0];
        let (mods, imp1) = modifier_calls_loop(f.header.modifiers, names, sc, imp, Seq::empty());
        let (body, imp2) = statements_s(f.lines, false, sc, imp1);
        finish_functions(
            fs.drop_first(),
            names,
            sc,
            imp2,
            acc.push(FunctionV { header: HeaderV { modifiers: mods, ..f.header }, body }),
        )
    }
}

/// The modifiers with their statements parsed, one after the other.
pub open spec fn finish_modifiers(ms: Seq<RawModifierV>, sc: ScopeV, imp: Imports, acc: Seq<ModifierV>) -> (
    Seq<ModifierV>,
    Imports,
)
    decreases ms.len(),
{
    if ms.len() == 0 {
        (acc, imp)
    } else {
        let m = ms[0];
        let (statements, imp1) = statements_s(m.lines, false, sc, imp);
        finish_modifiers(
            ms.drop_first(),
            sc,
            imp1,
            acc.push(ModifierV { header: m.header, statements, comments: m.comments }),
        )
    }
}

/// What the statements of a contract know of it: its state variables,
/// functions (with whether each is external), events and structs.
pub open spec fn contract_scope(st: ContractScan) -> ScopeV {
    ScopeV {
        storage: st.fields.map_values(|f: FieldV| f.name),
        functions: st.functions.map_values(|f: RawFunctionV| (f.header.name, f.header.external)),
        events: st.events.map_values(
            |e: EventV| (e.name, e.fields.map_values(|f: crate::declarations::EventFieldV| f.name)),
        ),
        structs: st.structs.map_values(
            |s: StructV| (s.name, s.fields.map_values(|f: crate::declarations::StructFieldV| f.name)),
        ),
    }
}

/// A contract read after the keyword `contract` (`parse_contract`): its
/// declarations, then the statements of its functions, modifiers and
/// constructor, parsed with what the contract declares.
pub open spec fn contract_s(input: Seq<char>, doc: Seq<Seq<char>>) -> ContractV {
    let st = contract_scan(input, contract_start());
    let sc = contract_scope(st);
    let names = st.modifiers.map_values(|m: RawModifierV| m.header.name);
    let (functions, imp1) = finish_functions(st.functions, names, sc, st.imports, Seq::empty());
    let (modifiers, imp2) = finish_modifiers(st.modifiers, sc, imp1, Seq::empty());
    let (body, imp3) = statements_s(st.constructor.lines, true, sc, imp2);
    ContractV {
        name: st.name,
        fields: st.fields,
        constructor: FunctionV { header: st.constructor.header, body },
        events: st.events,
        enums: st.enums,
        structs: st.structs,
        functions,
        imports: imp3,
        contract_doc: doc,
        modifiers,
    }
}

/// The scan over an interface's text.
pub struct InterfaceScan {
    pub action: ScanAction,
    pub buffer: Seq<char>,
    pub name: Seq<char>,
    pub comments: Seq<Seq<char>>,
    pub events: Seq<EventV>,
    pub enums: Seq<EnumV>,
    pub structs: Seq<StructV>,
    pub headers: Seq<HeaderV>,
    pub imports: Imports,
}

pub open spec fn interface_start() -> InterfaceScan {
    InterfaceScan {
        action: ScanAction::Start,
        buffer: Seq::empty(),
        name: Seq::empty(),
        comments: Seq::empty(),
        events: Seq::empty(),
        enums: Seq::empty(),
        structs: Seq::empty(),
        headers: Seq::empty(),
        imports: Seq::empty(),
    }
}

/// What the word `t` read in an interface's body starts: an event, enum,
/// struct or function header.
pub open spec fn interface_member(t: Seq<char>, rest: Seq<char>, st: InterfaceScan) -> (InterfaceScan, Seq<char>) {
    if t == "event"@ {
        let (e, imp, r) = event_s(rest, st.imports, st.comments);
        (InterfaceScan { events: st.events.push(e), imports: imp, comments: Seq::empty(), buffer: Seq::empty(), ..st }, r)
    } else if t == "enum"@ {
        let (e, r) = enum_s(rest, st.comments);
        (InterfaceScan { enums: st.enums.push(e), comments: Seq::empty(), buffer: Seq::empty(), ..st }, r)
    } else if t == "struct"@ {
        let (s, imp, r) = struct_s(rest, st.imports, st.comments);
        (InterfaceScan { structs: st.structs.push(s), imports: imp, comments: Seq::empty(), buffer: Seq::empty(), ..st }, r)
    } else if t == "function"@ {
        let (h, imp, r) = header_s(rest, st.imports, st.comments);
        (InterfaceScan { headers: st.headers.push(h), imports: imp, comments: Seq::empty(), buffer: Seq::empty(), ..st }, r)
    } else {
        (st, rest)
    }
}

/// The name of an interface from the text read before the first space after
/// it: trimmed, without its first character (`IToken` names `Token`).
pub open spec fn interface_name(buffer: Seq<char>) -> Seq<char> {
    substring_spec(trim_seq(buffer), 1, utf8_len(buffer) as int)
}

/// The declarations of an interface read from `input` to its end.
pub open spec fn interface_scan(input: Seq<char>, st: InterfaceScan) -> InterfaceScan
    decreases input.len(),
{
    if input.len() == 0 {
        st
    } else {
        let ch = input[0];
        let rest = input.drop_first();
        if ch == '\n' && (st.action == ScanAction::Start || st.action == ScanAction::Contract) {
            interface_scan(rest, st)
        } else if ch == '/' && st.action == ScanAction::Contract {
            interface_scan(rest, InterfaceScan { action: ScanAction::Slash, ..st })
        } else if ch == '/' && st.action == ScanAction::Slash {
            let (c, r) = comment_loop(rest, Seq::empty(), false);
            let next = InterfaceScan { comments: with_comment(st.comments, c), action: ScanAction::Contract, ..st };
            if r.len() < input.len() {
                interface_scan(r, next)
            } else {
                next
            }
        } else if ch == '*' && st.action == ScanAction::Slash {
            let (cs, r) = block_comment_loop(rest, block_comment_start());
            let next = InterfaceScan { comments: st.comments + cs, action: ScanAction::Contract, ..st };
            if r.len() < input.len() {
                interface_scan(r, next)
            } else {
                next
            }
        } else if ch == '{' {
            interface_scan(rest, InterfaceScan { action: ScanAction::Contract, ..st })
        } else if ch == ' ' && st.action == ScanAction::ContractName {
            interface_scan(
                rest,
                InterfaceScan {
                    name: interface_name(st.buffer),
                    buffer: Seq::empty(),
                    action: ScanAction::ContractNamed,
                    ..st
                },
            )
        } else if st.action == ScanAction::Start {
            interface_scan(rest, InterfaceScan { buffer: st.buffer.push(ch), action: ScanAction::ContractName, ..st })
        } else if st.action == ScanAction::ContractName || st.action == ScanAction::Contract {
            let buffer = st.buffer.push(ch);
            let (next, r) = interface_member(trim_seq(buffer), rest, InterfaceScan { buffer, ..st });
            if r.len() < input.len() {
                interface_scan(r, next)
            } else {
                next
            }
        } else {
            interface_scan(rest, st)
        }
    }
}

/// An interface read after the keyword `interface` (`parse_interface`).
pub open spec fn interface_s(input: Seq<char>, comments: Seq<Seq<char>>) -> InterfaceV {
    let st = interface_scan(input, interface_start());
    InterfaceV {
        name: st.name,
        events: st.events,
        enums: st.enums,
        structs: st.structs,
        function_headers: st.headers,
        imports: st.imports,
        comments,
    }
}

/// What a source file holds.
pub enum FileV {
    Contract(ContractV),
    Interface(InterfaceV),
    Library,
    Nothing,
}

/// The scan over the top of a file: comments, `pragma` and `import`
/// directives, `abstract`, up to the first contract, interface or library.
pub struct FileScan {
    pub comments: Seq<Seq<char>>,
    pub slash: bool,
    pub buffer: Seq<char>,
}

/// What a source file declares first, the comments before it going to a
/// contract or interface (`parse_file`).
pub open spec fn file_loop(input: Seq<char>, st: FileScan) -> FileV
    decreases input.len(),
{
    if input.len() == 0 {
        FileV::Nothing
    } else {
        let ch = input[0];
        let rest = input.drop_first();
        if ch == '/' && !st.slash {
            file_loop(rest, FileScan { slash: true, ..st })
        } else if ch == '/' && st.slash {
            let (c, r) = comment_loop(rest, Seq::empty(), false);
            let next = FileScan { comments: with_comment(st.comments, c), slash: false, ..st };
            if r.len() < input.len() {
                file_loop(r, next)
            } else {
                FileV::Nothing
            }
        } else if ch == '*' && st.slash {
            let (cs, r) = block_comment_loop(rest, block_comment_start());
            let next = FileScan { comments: st.comments + cs, slash: false, ..st };
            if r.len() < input.len() {
                file_loop(r, next)
            } else {
                FileV::Nothing
            }
        } else if ch == '\n' || ch == ' ' {
            file_loop(rest, st)
        } else {
            let buffer = st.buffer.push(ch);
            if buffer == "pragma"@ || buffer == "import"@ {
                let (_, r) = read_until_s(rest, seq![';']);
                let next = FileScan { buffer: Seq::empty(), ..st };
                if r.len() < input.len() {
                    file_loop(r, next)
                } else {
                    FileV::Nothing
                }
            } else if buffer == "abstract"@ {
                file_loop(rest, FileScan { buffer: Seq::empty(), ..st })
            } else if buffer == "contract"@ {
                FileV::Contract(contract_s(rest, st.comments))
            } else if buffer == "interface"@ {
                FileV::Interface(interface_s(rest, st.comments))
            } else if buffer == "library"@ {
                FileV::Library
            } else {
                file_loop(rest, FileScan { buffer, ..st })
            }
        }
    }
}

pub open spec fn file_s(input: Seq<char>) -> FileV {
    file_loop(input, FileScan { comments: Seq::empty(), slash: false, buffer: Seq::empty() })
}

fn text(v: &Vec<char>) -> (r: String)
    ensures
        r@ == v@,
{
    string_from_chars(v)
}

pub open spec fn raw_function_v(f: Function) -> RawFunctionV {
    RawFunctionV { header: header_view(f.header), lines: lines_v(f.body@) }
}

pub open spec fn raw_modifier_v(m: Modifier) -> RawModifierV {
    RawModifierV { header: header_view(m.header), lines: lines_v(m.statements@), comments: strings_view(m.comments@) }
}

pub open spec fn function_view(f: Function) -> FunctionV {
    FunctionV { header: header_view(f.header), body: stmts_v(f.body@) }
}

pub open spec fn modifier_view(m: Modifier) -> ModifierV {
    ModifierV { header: header_view(m.header), statements: stmts_v(m.statements@), comments: strings_view(m.comments@) }
}

/// The declarations of a contract read so far.
struct ContractState {
    action: ScanAction,
    buffer: Vec<char>,
    name: Vec<char>,
    comments: Vec<String>,
    fields: Vec<ContractField>,
    events: Vec<Event>,
    enums: Vec<Enum>,
    structs: Vec<Struct>,
    functions: Vec<Function>,
    constructor: Function,
    modifiers: Vec<Modifier>,
    imports: Vec<String>,
}

impl ContractState {
    spec fn scan(&self) -> ContractScan {
        ContractScan {
            action: self.action,
            buffer: self.buffer@,
            name: self.name@,
            comments: strings_view(self.comments@),
            fields: self.fields@.map_values(|f: ContractField| field_view(f)),
            events: self.events@.map_values(|e: Event| event_view(e)),
            enums: self.enums@.map_values(|e: Enum| enum_view(e)),
            structs: self.structs@.map_values(|s: Struct| struct_view(s)),
            functions: self.functions@.map_values(|f: Function| raw_function_v(f)),
            constructor: raw_function_v(self.constructor),
            modifiers: self.modifiers@.map_values(|m: Modifier| raw_modifier_v(m)),
            imports: strings_view(self.imports@),
        }
    }
}

/// A function with an empty header and body.
fn empty_function() -> (r: Function)
    ensures
        raw_function_v(r) == (RawFunctionV { header: empty_header(), lines: Seq::empty() }),
{
    let r = Function {
        header: FunctionHeader {
            name: String::new(),
            params: Vec::new(),
            external: false,
            view: false,
            payable: false,
            return_params: Vec::new(),
            comments: Vec::new(),
            modifiers: Vec::new(),
        },
        body: Vec::new(),
    };
    assert(params_v(r.header.params@) =~= Seq::<ParamV>::empty());
    assert(params_v(r.header.return_params@) =~= Seq::<ParamV>::empty());
    assert(strings_view(r.header.comments@) =~= Seq::<Seq<char>>::empty());
    assert(exprs_v(r.header.modifiers@) =~= Seq::<ExprV>::empty());
    assert(lines_v(r.body@) =~= Seq::<Option<Seq<char>>>::empty());
    r
}

/// Reads what the word in the buffer starts (`ch` being the last character
/// read).
fn contract_member_exec(st: &mut ContractState, ch: char, chars: &mut CharStream)
    ensures
        (final(st).scan(), final(chars)@) == contract_member(trim_seq(old(st).buffer@), ch, old(chars)@, old(st).scan()),
        final(chars)@.len() <= old(chars)@.len(),
        no_duplicates(strings_view(old(st).imports@)) ==> no_duplicates(strings_view(final(st).imports@)),
{
    let t = trim_chars(&st.buffer);
    let ghost s0 = st.scan();
    if chars_eq_str(&t, "event") {
        let e = parse_event(&mut st.imports, chars, &st.comments);
        let ghost before = st.events@;
        st.events.push(e);
        assert(st.events@.map_values(|e: Event| event_view(e)) =~= before.map_values(|e: Event| event_view(e)).push(event_view(e)));
        st.comments = Vec::new();
        st.buffer = Vec::new();
        assert(strings_view(st.comments@) =~= Seq::<Seq<char>>::empty());
    } else if chars_eq_str(&t, "enum") {
        let e = parse_enum(chars, &st.comments);
        let ghost before = st.enums@;
        st.enums.push(e);
        assert(st.enums@.map_values(|e: Enum| enum_view(e)) =~= before.map_values(|e: Enum| enum_view(e)).push(enum_view(e)));
        st.comments = Vec::new();
        st.buffer = Vec::new();
        assert(strings_view(st.comments@) =~= Seq::<Seq<char>>::empty());
    } else if chars_eq_str(&t, "struct") {
        let s = parse_struct(&mut st.imports, chars, &st.comments);
        let ghost before = st.structs@;
        st.structs.push(s);
        assert(st.structs@.map_values(|s: Struct| struct_view(s)) =~= before.map_values(|s: Struct| struct_view(s)).push(struct_view(s)));
        st.comments = Vec::new();
        st.buffer = Vec::new();
        assert(strings_view(st.comments@) =~= Seq::<Seq<char>>::empty());
    } else if chars_eq_str(&t, "constructor") {
        st.constructor = parse_function(&mut st.imports, chars, &st.comments);
        st.comments = Vec::new();
        st.buffer = Vec::new();
        assert(strings_view(st.comments@) =~= Seq::<Seq<char>>::empty());
    } else if chars_eq_str(&t, "function") {
        let f = parse_function(&mut st.imports, chars, &st.comments);
        let ghost before = st.functions@;
        st.functions.push(f);
        assert(st.functions@.map_values(|f: Function| raw_function_v(f)) =~= before.map_values(
            |f: Function| raw_function_v(f),
        ).push(raw_function_v(f)));
        st.comments = Vec::new();
        st.buffer = Vec::new();
        assert(strings_view(st.comments@) =~= Seq::<Seq<char>>::empty());
    } else if chars_eq_str(&t, "receive") || chars_eq_str(&t, "fallback") {
        let mut f = parse_function(&mut st.imports, chars, &st.comments);
        f.header.name = text(&t);
        let ghost before = st.functions@;
        st.functions.push(f);
        assert(st.functions@.map_values(|f: Function| raw_function_v(f)) =~= before.map_values(
            |f: Function| raw_function_v(f),
        ).push(raw_function_v(f)));
        st.comments = Vec::new();
        st.buffer = Vec::new();
        assert(strings_view(st.comments@) =~= Seq::<Seq<char>>::empty());
    } else if chars_eq_str(&t, "using") {
        let mut semicolon: Vec<char> = Vec::new();
        semicolon.push(';');
        assert(semicolon@ =~= seq![';']);
        let _ = read_until(chars, &semicolon);
        st.buffer = Vec::new();
    } else if chars_eq_str(&t, "modifier") {
        let m = parse_modifier(&mut st.imports, chars, &st.comments);
        let ghost before = st.modifiers@;
        st.modifiers.push(m);
        assert(st.modifiers@.map_values(|m: Modifier| raw_modifier_v(m)) =~= before.map_values(
            |m: Modifier| raw_modifier_v(m),
        ).push(raw_modifier_v(m)));
        st.comments = Vec::new();
        st.buffer = Vec::new();
        assert(strings_view(st.comments@) =~= Seq::<Seq<char>>::empty());
    } else if ch == ';' {
        let f = parse_contract_field(&t, &mut st.imports, &st.comments);
        let ghost before = st.fields@;
        st.fields.push(f);
        assert(st.fields@.map_values(|f: ContractField| field_view(f)) =~= before.map_values(
            |f: ContractField| field_view(f),
        ).push(field_view(f)));
        st.comments = Vec::new();
        st.buffer = Vec::new();
        assert(strings_view(st.comments@) =~= Seq::<Seq<char>>::empty());
    }
}

/// Adds a line comment unless it is empty.
fn push_comment(comments: &mut Vec<String>, c: &Vec<char>)
    ensures
        strings_view(final(comments)@) == with_comment(strings_view(old(comments)@), c@),
{
    if c.len() > 0 {
        let ghost before = strings_view(comments@);
        comments.push(text(c));
        assert(strings_view(comments@) =~= before.push(c@));
    }
}

/// Adds the lines of a block comment.
fn append_comments(comments: &mut Vec<String>, cs: &Vec<Vec<char>>)
    ensures
        strings_view(final(comments)@) == strings_view(old(comments)@) + chars_seqs(cs@),
{
    let ghost start = strings_view(comments@);
    let mut i: usize = 0;
    while i < cs.len()
        invariant
            i <= cs.len(),
            strings_view(comments@) == start + chars_seqs(cs@).subrange(0, i as int),
        decreases cs.len() - i,
    {
        let ghost before = strings_view(comments@);
        comments.push(text(&cs[i]));
        assert(strings_view(comments@) =~= before.push(cs@[i as int]@));
        assert(chars_seqs(cs@).subrange(0, i + 1) =~= chars_seqs(cs@).subrange(0, i as int).push(cs@[i as int]@));
        i = i + 1;
    }
    assert(chars_seqs(cs@).subrange(0, cs@.len() as int) =~= chars_seqs(cs@));
}

/// Reads the declarations of a contract, to the end of the input.
fn scan_contract(chars: &mut CharStream) -> (st: ContractState)
    ensures
        st.scan() == contract_scan(old(chars)@, contract_start()),
        no_duplicates(strings_view(st.imports@)),
{
    let ghost input = chars@;
    let mut st = ContractState {
        action: ScanAction::Start,
        buffer: Vec::new(),
        name: Vec::new(),
        comments: Vec::new(),
        fields: Vec::new(),
        events: Vec::new(),
        enums: Vec::new(),
        structs: Vec::new(),
        functions: Vec::new(),
        constructor: empty_function(),
        modifiers: Vec::new(),
        imports: Vec::new(),
    };
    assert(st.scan() =~= contract_start()) by {
        assert(strings_view(st.comments@) =~= Seq::<Seq<char>>::empty());
        assert(st.fields@.map_values(|f: ContractField| field_view(f)) =~= Seq::<FieldV>::empty());
        assert(st.events@.map_values(|e: Event| event_view(e)) =~= Seq::<EventV>::empty());
        assert(st.enums@.map_values(|e: Enum| enum_view(e)) =~= Seq::<EnumV>::empty());
        assert(st.structs@.map_values(|s: Struct| struct_view(s)) =~= Seq::<StructV>::empty());
        assert(st.functions@.map_values(|f: Function| raw_function_v(f)) =~= Seq::<RawFunctionV>::empty());
        assert(st.modifiers@.map_values(|m: Modifier| raw_modifier_v(m)) =~= Seq::<RawModifierV>::empty());
        assert(strings_view(st.imports@) =~= Seq::<Seq<char>>::empty());
    }
    assert(no_duplicates(strings_view(st.imports@)));
    loop
        invariant
            input == old(chars)@,
            contract_scan(input, contract_start()) == contract_scan(chars@, st.scan()),
            no_duplicates(strings_view(st.imports@)),
        decreases chars@.len(),
    {
        let ch = match chars.next() {
            None => {
                return st;
            },
            Some(c) => c,
        };
        if ch == '\n' && (st.action == ScanAction::Start || st.action == ScanAction::Contract) {
        } else if ch == '/' && st.action == ScanAction::Contract {
            st.action = ScanAction::Slash;
        } else if ch == '/' && st.action == ScanAction::Slash {
            let c = parse_comment(chars);
            push_comment(&mut st.comments, &c);
            st.action = ScanAction::Contract;
        } else if ch == '*' && st.action == ScanAction::Slash {
            let cs = parse_multiline_comment(chars);
            append_comments(&mut st.comments, &cs);
            st.action = ScanAction::Contract;
        } else if ch == ' ' && st.action == ScanAction::ContractName {
            st.name = trim_chars(&st.buffer);
            st.buffer = Vec::new();
            let mut brace: Vec<char> = Vec::new();
            brace.push('{');
            assert(brace@ =~= seq!['{']);
            let _ = read_until(chars, &brace);
            st.action = ScanAction::Contract;
        } else if st.action == ScanAction::Start {
            st.buffer.push(ch);
            st.action = ScanAction::ContractName;
        } else if st.action == ScanAction::ContractName || st.action == ScanAction::Contract {
            st.buffer.push(ch);
            contract_member_exec(&mut st, ch, chars);
        }
    }
}

/// A copy of an event.
fn copy_event(e: &Event) -> (r: Event)
    ensures
        event_view(r) == event_view(*e),
{
    let mut fields: Vec<EventField> = Vec::new();
    let mut i: usize = 0;
    while i < e.fields.len()
        invariant
            i <= e.fields.len(),
            fields@.map_values(|f: EventField| event_field_v(f)) == e.fields@.map_values(
                |f: EventField| event_field_v(f),
            ).subrange(0, i as int),
        decreases e.fields.len() - i,
    {
        let f = EventField {
            indexed: e.fields[i].indexed,
            field_type: e.fields[i].field_type.clone(),
            name: e.fields[i].name.clone(),
        };
        let ghost before = fields@;
        fields.push(f);
        assert(fields@.map_values(|f: EventField| event_field_v(f)) =~= before.map_values(|f: EventField| event_field_v(f)).push(event_field_v(f)));
        assert(event_field_v(f) == event_field_v(e.fields@[i as int]));
        assert(e.fields@.map_values(|f: EventField| event_field_v(f)).subrange(0, i + 1) =~= e.fields@.map_values(
            |f: EventField| event_field_v(f),
        ).subrange(0, i as int).push(event_field_v(e.fields@[i as int])));
        i = i + 1;
    }
    assert(e.fields@.map_values(|f: EventField| event_field_v(f)).subrange(0, e.fields@.len() as int)
        =~= e.fields@.map_values(|f: EventField| event_field_v(f)));
    Event { name: e.name.clone(), fields, comments: copy_strings(&e.comments) }
}

/// A copy of a struct.
fn copy_struct(s: &Struct) -> (r: Struct)
    ensures
        struct_view(r) == struct_view(*s),
{
    let mut fields: Vec<StructField> = Vec::new();
    let mut i: usize = 0;
    while i < s.fields.len()
        invariant
            i <= s.fields.len(),
            fields@.map_values(|f: StructField| struct_field_v(f)) == s.fields@.map_values(
                |f: StructField| struct_field_v(f),
            ).subrange(0, i as int),
        decreases s.fields.len() - i,
    {
        let f = StructField { name: s.fields[i].name.clone(), field_type: s.fields[i].field_type.clone() };
        let ghost before = fields@;
        fields.push(f);
        assert(fields@.map_values(|f: StructField| struct_field_v(f)) =~= before.map_values(|f: StructField| struct_field_v(f)).push(struct_field_v(f)));
        assert(struct_field_v(f) == struct_field_v(s.fields@[i as int]));
        assert(s.fields@.map_values(|f: StructField| struct_field_v(f)).subrange(0, i + 1) =~= s.fields@.map_values(
            |f: StructField| struct_field_v(f),
        ).subrange(0, i as int).push(struct_field_v(s.fields@[i as int])));
        i = i + 1;
    }
    assert(s.fields@.map_values(|f: StructField| struct_field_v(f)).subrange(0, s.fields@.len() as int)
        =~= s.fields@.map_values(|f: StructField| struct_field_v(f)));
    Struct { name: s.name.clone(), fields, comments: copy_strings(&s.comments) }
}

/// What the scope keeps of an event is the name and the field names.
proof fn lemma_event_entry(e: Event)
    ensures
        event_v(e) == (event_view(e).name, event_view(e).fields.map_values(|f: EventFieldV| f.name)),
{
    assert(event_v(e).1 =~= event_view(e).fields.map_values(|f: EventFieldV| f.name));
}

/// What the scope keeps of a struct is the name and the field names.
proof fn lemma_struct_entry(s: Struct)
    ensures
        struct_v(s) == (struct_view(s).name, struct_view(s).fields.map_values(|f: StructFieldV| f.name)),
{
    assert(struct_v(s).1 =~= struct_view(s).fields.map_values(|f: StructFieldV| f.name));
}

/// The scope of a contract from its declarations.
fn build_scope(st: &ContractState) -> (r: Scope)
    ensures
        r.view_scope() == contract_scope(st.scan()),
{
    let ghost target = contract_scope(st.scan());
    let mut storage: Vec<String> = Vec::new();
    let mut i: usize = 0;
    while i < st.fields.len()
        invariant
            i <= st.fields.len(),
            target == contract_scope(st.scan()),
            strings_view(storage@) == target.storage.subrange(0, i as int),
        decreases st.fields.len() - i,
    {
        let ghost before = strings_view(storage@);
        let name = st.fields[i].name.clone();
        storage.push(name);
        assert(strings_view(storage@) =~= before.push(name@));
        assert(target.storage.subrange(0, i + 1) =~= target.storage.subrange(0, i as int).push(name@));
        i = i + 1;
    }
    let mut functions: Vec<(String, bool)> = Vec::new();
    let mut i: usize = 0;
    while i < st.functions.len()
        invariant
            i <= st.functions.len(),
            target == contract_scope(st.scan()),
            functions@.map_values(|p: (String, bool)| (p.0@, p.1)) == target.functions.subrange(0, i as int),
        decreases st.functions.len() - i,
    {
        let ghost before = functions@;
        let entry = (st.functions[i].header.name.clone(), st.functions[i].header.external);
        functions.push(entry);
        assert(functions@.map_values(|p: (String, bool)| (p.0@, p.1)) =~= before.map_values(
            |p: (String, bool)| (p.0@, p.1),
        ).push((entry.0@, entry.1)));
        assert(target.functions.subrange(0, i + 1) =~= target.functions.subrange(0, i as int).push(
            (entry.0@, entry.1),
        ));
        i = i + 1;
    }
    let mut events: Vec<Event> = Vec::new();
    let mut i: usize = 0;
    while i < st.events.len()
        invariant
            i <= st.events.len(),
            target == contract_scope(st.scan()),
            events@.map_values(|e: Event| event_v(e)) == target.events.subrange(0, i as int),
        decreases st.events.len() - i,
    {
        let ghost before = events@;
        let e = copy_event(&st.events[i]);
        proof {
            lemma_event_entry(e);
            lemma_event_entry(st.events@[i as int]);
        }
        events.push(e);
        assert(events@.map_values(|e: Event| event_v(e)) =~= before.map_values(|e: Event| event_v(e)).push(event_v(e)));
        assert(target.events.subrange(0, i + 1) =~= target.events.subrange(0, i as int).push(event_v(e)));
        i = i + 1;
    }
    let mut structs: Vec<Struct> = Vec::new();
    let mut i: usize = 0;
    while i < st.structs.len()
        invariant
            i <= st.structs.len(),
            target == contract_scope(st.scan()),
            structs@.map_values(|s: Struct| struct_v(s)) == target.structs.subrange(0, i as int),
        decreases st.structs.len() - i,
    {
        let ghost before = structs@;
        let s = copy_struct(&st.structs[i]);
        proof {
            lemma_struct_entry(s);
            lemma_struct_entry(st.structs@[i as int]);
        }
        structs.push(s);
        assert(structs@.map_values(|s: Struct| struct_v(s)) =~= before.map_values(|s: Struct| struct_v(s)).push(struct_v(s)));
        assert(target.structs.subrange(0, i + 1) =~= target.structs.subrange(0, i as int).push(struct_v(s)));
        i = i + 1;
    }
    let r = Scope { storage, functions, events, structs };
    proof {
        lemma_view_scope(&r);
        assert(target.storage.subrange(0, target.storage.len() as int) =~= target.storage);
        assert(target.functions.subrange(0, target.functions.len() as int) =~= target.functions);
        assert(target.events.subrange(0, target.events.len() as int) =~= target.events);
        assert(target.structs.subrange(0, target.structs.len() as int) =~= target.structs);
    }
    r
}

/// Whether `name` is one of `names`.
fn contains_name(names: &Vec<String>, name: &Vec<char>) -> (r: bool)
    ensures
        r == strings_view(names@).contains(name@),
{
    let mut i: usize = 0;
    while i < names.len()
        invariant
            i <= names.len(),
            forall|j: int| 0 <= j < i ==> strings_view(names@)[j] != name@,
        decreases names.len() - i,
    {
        if chars_eq(&chars_of_string(&names[i]), name) {
            assert(strings_view(names@)[i as int] == name@);
            return true;
        }
        i = i + 1;
    }
    false
}

/// Parses the modifier invocations of a function that name one of the
/// contract's modifiers (`process_function_modifiers`).
pub fn process_function_modifiers(
    raw_modifiers: &Vec<Expression>,
    modifier_names: &Vec<String>,
    scope: &Scope,
    imports: &mut Vec<String>,
) -> (r: Vec<Expression>)
    ensures
        no_duplicates(strings_view(old(imports)@)) ==> no_duplicates(strings_view(final(imports)@)),
        (exprs_v(r@), strings_view(final(imports)@)) == modifier_calls_loop(
            exprs_v(raw_modifiers@),
            strings_view(modifier_names@),
            scope.view_scope(),
            strings_view(old(imports)@),
            Seq::empty(),
        ),
{
    let ghost raw = exprs_v(raw_modifiers@);
    let ghost names = strings_view(modifier_names@);
    let ghost sc = scope.view_scope();
    let ghost total = modifier_calls_loop(raw, names, sc, strings_view(imports@), Seq::empty());
    proof {
        crate::model::lemma_exprs_v(raw_modifiers@);
    }
    let mut out: Vec<Expression> = Vec::new();
    assert(exprs_v(out@) =~= Seq::<ExprV>::empty());
    assert(raw.subrange(0, raw.len() as int) =~= raw);
    let mut i: usize = 0;
    while i < raw_modifiers.len()
        invariant
            no_duplicates(strings_view(old(imports)@)) ==> no_duplicates(strings_view(imports@)),
            i <= raw_modifiers.len(),
            raw == exprs_v(raw_modifiers@),
            raw.len() == raw_modifiers.len(),
            forall|j: int| 0 <= j < raw.len() ==> #[trigger] raw[j] == expr_v(raw_modifiers@[j]),
            names == strings_view(modifier_names@),
            sc == scope.view_scope(),
            modifier_calls_loop(raw.subrange(i as int, raw.len() as int), names, sc, strings_view(imports@), exprs_v(out@))
                == total,
        decreases raw_modifiers.len() - i,
    {
        let ghost rest = raw.subrange(i as int, raw.len() as int);
        assert(rest[0] == raw[i as int]);
        assert(rest.drop_first() =~= raw.subrange(i + 1, raw.len() as int));
        match &raw_modifiers[i] {
            Expression::Modifier(m) => {
                let mv = chars_of_string(m);
                let name = capture_or_empty(MODIFIER_NAME, &mv, "name");
                if contains_name(modifier_names, &name) {
                    let no_enclosed: Vec<(String, Expression)> = Vec::new();
                    assert(enc_v(no_enclosed@) =~= Seq::<(Seq<char>, ExprV)>::empty());
                    let call_text = if contains_str(&mv, "(") {
                        mv
                    } else {
                        concat(&mv, &chars_of("()"))
                    };
                    let call = parse_function_call_fuel(&call_text, false, scope, imports, &no_enclosed, usize::MAX);
                    let ghost before = out@;
                    out.push(call);
                    proof {
                        lemma_exprs_v_push(before, call);
                    }
                }
            },
            _ => {},
        }
        i = i + 1;
    }
    assert(raw.subrange(i as int, raw.len() as int) =~= Seq::<ExprV>::empty());
    out
}

pub open spec fn contract_view(c: Contract) -> ContractV {
    ContractV {
        name: c.name@,
        fields: c.fields@.map_values(|f: ContractField| field_view(f)),
        constructor: function_view(c.constructor),
        events: c.events@.map_values(|e: Event| event_view(e)),
        enums: c.enums@.map_values(|e: Enum| enum_view(e)),
        structs: c.structs@.map_values(|s: Struct| struct_view(s)),
        functions: c.functions@.map_values(|f: Function| function_view(f)),
        imports: strings_view(c.imports@),
        contract_doc: strings_view(c.contract_doc@),
        modifiers: c.modifiers@.map_values(|m: Modifier| modifier_view(m)),
    }
}

/// The names of the modifiers.
fn modifier_names(modifiers: &Vec<Modifier>) -> (r: Vec<String>)
    ensures
        strings_view(r@) == modifiers@.map_values(|m: Modifier| raw_modifier_v(m)).map_values(
            |m: RawModifierV| m.header.name,
        ),
{
    let ghost target = modifiers@.map_values(|m: Modifier| raw_modifier_v(m)).map_values(
        |m: RawModifierV| m.header.name,
    );
    let mut names: Vec<String> = Vec::new();
    let mut i: usize = 0;
    while i < modifiers.len()
        invariant
            i <= modifiers.len(),
            target == modifiers@.map_values(|m: Modifier| raw_modifier_v(m)).map_values(|m: RawModifierV| m.header.name),
            strings_view(names@) == target.subrange(0, i as int),
        decreases modifiers.len() - i,
    {
        let ghost before = strings_view(names@);
        let n = modifiers[i].header.name.clone();
        names.push(n);
        assert(strings_view(names@) =~= before.push(n@));
        assert(target.subrange(0, i + 1) =~= target.subrange(0, i as int).push(n@));
        i = i + 1;
    }
    assert(target.subrange(0, target.len() as int) =~= target);
    names
}

/// Parses the modifier invocations and statements of each function.
fn finish_function_list(
    functions: Vec<Function>,
    names: &Vec<String>,
    scope: &Scope,
    imports: &mut Vec<String>,
) -> (r: Vec<Function>)
    ensures
        no_duplicates(strings_view(old(imports)@)) ==> no_duplicates(strings_view(final(imports)@)),
        (r@.map_values(|f: Function| function_view(f)), strings_view(final(imports)@)) == finish_functions(
            functions@.map_values(|f: Function| raw_function_v(f)),
            strings_view(names@),
            scope.view_scope(),
            strings_view(old(imports)@),
            Seq::empty(),
        ),
{
    let ghost total = finish_functions(
        functions@.map_values(|f: Function| raw_function_v(f)),
        strings_view(names@),
        scope.view_scope(),
        strings_view(imports@),
        Seq::empty(),
    );
    let mut pending = functions;
    let mut done: Vec<Function> = Vec::new();
    assert(done@.map_values(|f: Function| function_view(f)) =~= Seq::<FunctionV>::empty());
    while pending.len() > 0
        invariant
            no_duplicates(strings_view(old(imports)@)) ==> no_duplicates(strings_view(imports@)),
            finish_functions(
                pending@.map_values(|f: Function| raw_function_v(f)),
                strings_view(names@),
                scope.view_scope(),
                strings_view(imports@),
                done@.map_values(|f: Function| function_view(f)),
            ) == total,
        decreases pending.len(),
    {
        let ghost pv = pending@.map_values(|f: Function| raw_function_v(f));
        let f = pending.remove(0);
        assert(pending@.map_values(|f: Function| raw_function_v(f)) =~= pv.drop_first());
        assert(pv[0] == raw_function_v(f));
        let Function { header, body } = f;
        let FunctionHeader { name, params, external, view, payable, return_params, comments, modifiers } = header;
        let mods = process_function_modifiers(&modifiers, names, scope, imports);
        let parsed = parse_statements(&body, scope, imports, false);
        let g = Function {
            header: FunctionHeader { name, params, external, view, payable, return_params, comments, modifiers: mods },
            body: parsed,
        };
        let ghost before = done@;
        done.push(g);
        assert(done@.map_values(|f: Function| function_view(f)) =~= before.map_values(|f: Function| function_view(f)).push(
            function_view(g),
        ));
    }
    assert(pending@.map_values(|f: Function| raw_function_v(f)) =~= Seq::<RawFunctionV>::empty());
    done
}

/// Parses the statements of each modifier.
fn finish_modifier_list(modifiers: Vec<Modifier>, scope: &Scope, imports: &mut Vec<String>) -> (r: Vec<Modifier>)
    ensures
        no_duplicates(strings_view(old(imports)@)) ==> no_duplicates(strings_view(final(imports)@)),
        (r@.map_values(|m: Modifier| modifier_view(m)), strings_view(final(imports)@)) == finish_modifiers(
            modifiers@.map_values(|m: Modifier| raw_modifier_v(m)),
            scope.view_scope(),
            strings_view(old(imports)@),
            Seq::empty(),
        ),
{
    let ghost total = finish_modifiers(
        modifiers@.map_values(|m: Modifier| raw_modifier_v(m)),
        scope.view_scope(),
        strings_view(imports@),
        Seq::empty(),
    );
    let mut pending = modifiers;
    let mut done: Vec<Modifier> = Vec::new();
    assert(done@.map_values(|m: Modifier| modifier_view(m)) =~= Seq::<ModifierV>::empty());
    while pending.len() > 0
        invariant
            no_duplicates(strings_view(old(imports)@)) ==> no_duplicates(strings_view(imports@)),
            finish_modifiers(
                pending@.map_values(|m: Modifier| raw_modifier_v(m)),
                scope.view_scope(),
                strings_view(imports@),
                done@.map_values(|m: Modifier| modifier_view(m)),
            ) == total,
        decreases pending.len(),
    {
        let ghost pv = pending@.map_values(|m: Modifier| raw_modifier_v(m));
        let m = pending.remove(0);
        assert(pending@.map_values(|m: Modifier| raw_modifier_v(m)) =~= pv.drop_first());
        assert(pv[0] == raw_modifier_v(m));
        let Modifier { header, statements, comments } = m;
        let parsed = parse_statements(&statements, scope, imports, false);
        let g = Modifier { header, statements: parsed, comments };
        let ghost before = done@;
        done.push(g);
        assert(done@.map_values(|m: Modifier| modifier_view(m)) =~= before.map_values(|m: Modifier| modifier_view(m)).push(
            modifier_view(g),
        ));
    }
    assert(pending@.map_values(|m: Modifier| raw_modifier_v(m)) =~= Seq::<RawModifierV>::empty());
    done
}

/// Reads a contract after the keyword `contract` (`parse_contract`).
fn parse_contract(chars: &mut CharStream, contract_doc: Vec<String>) -> (r: Contract)
    ensures
        contract_view(r) == contract_s(old(chars)@, strings_view(contract_doc@)),
        no_duplicates(strings_view(r.imports@)),
{
    let st = scan_contract(chars);
    let ghost scan = st.scan();
    let scope = build_scope(&st);
    let names = modifier_names(&st.modifiers);
    let ContractState {
        action: _,
        buffer: _,
        name,
        comments: _,
        fields,
        events,
        enums,
        structs,
        functions,
        constructor,
        modifiers,
        mut imports,
    } = st;
    let functions = finish_function_list(functions, &names, &scope, &mut imports);
    let modifiers = finish_modifier_list(modifiers, &scope, &mut imports);
    let Function { header, body } = constructor;
    let parsed = parse_statements(&body, &scope, &mut imports, true);
    Contract {
        name: text(&name),
        fields,
        constructor: Function { header, body: parsed },
        events,
        enums,
        structs,
        functions,
        imports,
        contract_doc,
        modifiers,
    }
}

pub open spec fn interface_view(i: Interface) -> InterfaceV {
    InterfaceV {
        name: i.name@,
        events: i.events@.map_values(|e: Event| event_view(e)),
        enums: i.enums@.map_values(|e: Enum| enum_view(e)),
        structs: i.structs@.map_values(|s: Struct| struct_view(s)),
        function_headers: i.function_headers@.map_values(|h: FunctionHeader| header_view(h)),
        imports: strings_view(i.imports@),
        comments: strings_view(i.comments@),
    }
}

/// The declarations of an interface read so far.
struct InterfaceState {
    action: ScanAction,
    buffer: Vec<char>,
    name: Vec<char>,
    comments: Vec<String>,
    events: Vec<Event>,
    enums: Vec<Enum>,
    structs: Vec<Struct>,
    headers: Vec<FunctionHeader>,
    imports: Vec<String>,
}

impl InterfaceState {
    spec fn scan(&self) -> InterfaceScan {
        InterfaceScan {
            action: self.action,
            buffer: self.buffer@,
            name: self.name@,
            comments: strings_view(self.comments@),
            events: self.events@.map_values(|e: Event| event_view(e)),
            enums: self.enums@.map_values(|e: Enum| enum_view(e)),
            structs: self.structs@.map_values(|s: Struct| struct_view(s)),
            headers: self.headers@.map_values(|h: FunctionHeader| header_view(h)),
            imports: strings_view(self.imports@),
        }
    }
}

/// Reads what the word in the buffer of an interface starts.
fn interface_member_exec(st: &mut InterfaceState, chars: &mut CharStream)
    ensures
        (final(st).scan(), final(chars)@) == interface_member(trim_seq(old(st).buffer@), old(chars)@, old(st).scan()),
        final(chars)@.len() <= old(chars)@.len(),
        no_duplicates(strings_view(old(st).imports@)) ==> no_duplicates(strings_view(final(st).imports@)),
{
    let t = trim_chars(&st.buffer);
    if chars_eq_str(&t, "event") {
        let e = parse_event(&mut st.imports, chars, &st.comments);
        let ghost before = st.events@;
        st.events.push(e);
        assert(st.events@.map_values(|e: Event| event_view(e)) =~= before.map_values(|e: Event| event_view(e)).push(event_view(e)));
        st.comments = Vec::new();
        st.buffer = Vec::new();
        assert(strings_view(st.comments@) =~= Seq::<Seq<char>>::empty());
    } else if chars_eq_str(&t, "enum") {
        let e = parse_enum(chars, &st.comments);
        let ghost before = st.enums@;
        st.enums.push(e);
        assert(st.enums@.map_values(|e: Enum| enum_view(e)) =~= before.map_values(|e: Enum| enum_view(e)).push(enum_view(e)));
        st.comments = Vec::new();
        st.buffer = Vec::new();
        assert(strings_view(st.comments@) =~= Seq::<Seq<char>>::empty());
    } else if chars_eq_str(&t, "struct") {
        let s = parse_struct(&mut st.imports, chars, &st.comments);
        let ghost before = st.structs@;
        st.structs.push(s);
        assert(st.structs@.map_values(|s: Struct| struct_view(s)) =~= before.map_values(|s: Struct| struct_view(s)).push(struct_view(s)));
        st.comments = Vec::new();
        st.buffer = Vec::new();
        assert(strings_view(st.comments@) =~= Seq::<Seq<char>>::empty());
    } else if chars_eq_str(&t, "function") {
        let h = parse_function_header(chars, &mut st.imports, &st.comments);
        let ghost before = st.headers@;
        st.headers.push(h);
        assert(st.headers@.map_values(|h: FunctionHeader| header_view(h)) =~= before.map_values(
            |h: FunctionHeader| header_view(h),
        ).push(header_view(h)));
        st.comments = Vec::new();
        st.buffer = Vec::new();
        assert(strings_view(st.comments@) =~= Seq::<Seq<char>>::empty());
    }
}

/// The name of an interface from the text read up to the space after it.
fn interface_name_exec(buffer: &Vec<char>) -> (r: Vec<char>)
    ensures
        r@ == interface_name(buffer@),
{
    let t = trim_chars(buffer);
    let n = t.len();
    assert(n == t@.len());
    let end = byte_len(buffer);
    substring(&t, 1, end)
}

/// Reads an interface after the keyword `interface`, to the end of the
/// input (`parse_interface`). Its result is always `Ok`.
pub fn parse_interface(chars: &mut CharStream, contract_comments: Vec<String>) -> (r: Result<Interface, ParserError>)
    ensures
        r is Ok,
        interface_view(r->Ok_0) == interface_s(old(chars)@, strings_view(contract_comments@)),
        no_duplicates(strings_view(r->Ok_0.imports@)),
        final(chars)@.len() == 0,
{
    let ghost input = chars@;
    let mut st = InterfaceState {
        action: ScanAction::Start,
        buffer: Vec::new(),
        name: Vec::new(),
        comments: Vec::new(),
        events: Vec::new(),
        enums: Vec::new(),
        structs: Vec::new(),
        headers: Vec::new(),
        imports: Vec::new(),
    };
    assert(st.scan() =~= interface_start()) by {
        assert(strings_view(st.comments@) =~= Seq::<Seq<char>>::empty());
        assert(st.events@.map_values(|e: Event| event_view(e)) =~= Seq::<EventV>::empty());
        assert(st.enums@.map_values(|e: Enum| enum_view(e)) =~= Seq::<EnumV>::empty());
        assert(st.structs@.map_values(|s: Struct| struct_view(s)) =~= Seq::<StructV>::empty());
        assert(st.headers@.map_values(|h: FunctionHeader| header_view(h)) =~= Seq::<HeaderV>::empty());
        assert(strings_view(st.imports@) =~= Seq::<Seq<char>>::empty());
    }
    assert(no_duplicates(strings_view(st.imports@)));
    loop
        invariant
            input == old(chars)@,
            interface_scan(input, interface_start()) == interface_scan(chars@, st.scan()),
            no_duplicates(strings_view(st.imports@)),
        decreases chars@.len(),
    {
        let ch = match chars.next() {
            None => {
                let InterfaceState { action: _, buffer: _, name, comments: _, events, enums, structs, headers, imports } = st;
                return Ok(
                    Interface {
                        name: text(&name),
                        events,
                        enums,
                        structs,
                        function_headers: headers,
                        imports,
                        comments: contract_comments,
                    },
                );
            },
            Some(c) => c,
        };
        if ch == '\n' && (st.action == ScanAction::Start || st.action == ScanAction::Contract) {
        } else if ch == '/' && st.action == ScanAction::Contract {
            st.action = ScanAction::Slash;
        } else if ch == '/' && st.action == ScanAction::Slash {
            let c = parse_comment(chars);
            push_comment(&mut st.comments, &c);
            st.action = ScanAction::Contract;
        } else if ch == '*' && st.action == ScanAction::Slash {
            let cs = parse_multiline_comment(chars);
            append_comments(&mut st.comments, &cs);
            st.action = ScanAction::Contract;
        } else if ch == '{' {
            st.action = ScanAction::Contract;
        } else if ch == ' ' && st.action == ScanAction::ContractName {
            st.name = interface_name_exec(&st.buffer);
            st.buffer = Vec::new();
            st.action = ScanAction::ContractNamed;
        } else if st.action == ScanAction::Start {
            st.buffer.push(ch);
            st.action = ScanAction::ContractName;
        } else if st.action == ScanAction::ContractName || st.action == ScanAction::Contract {
            st.buffer.push(ch);
            interface_member_exec(&mut st, chars);
        }
    }
}

/// Reads a source file: the first contract or interface it declares, after
/// the comments, `pragma` and `import` directives before it (`parse_file`).
/// A library is refused, and so is a contract that emits an event, or builds
/// a struct from positional arguments, without a declared field for each
/// argument.
pub fn parse_file(string: String) -> (r: Result<(Option<Contract>, Option<Interface>), ParserError>)
    ensures
        match file_s(string@) {
            FileV::Contract(c) => match contract_missing(c) {
                None => r matches Ok((Some(x), None)) && contract_view(x) == c,
                Some(m) => r matches Err(e) && reports(Some(e), Some(m)),
            },
            FileV::Interface(i) => r matches Ok((None, Some(x))) && interface_view(x) == i,
            FileV::Library => r == Err::<(Option<Contract>, Option<Interface>), ParserError>(
                ParserError::LibraryParsingNotImplemented,
            ),
            FileV::Nothing => r matches Ok((None, None)),
        },
        r matches Ok((Some(x), _)) ==> no_duplicates(strings_view(x.imports@)),
        r matches Ok((_, Some(x))) ==> no_duplicates(strings_view(x.imports@)),
        !(r matches Ok((Some(_), Some(_)))),
        r matches Err(e) ==> e == ParserError::LibraryParsingNotImplemented || e is EventNotDefined
            || e is StructNotDefined,
{
    let mut chars = CharStream::new(string.as_str());
    let ghost input = chars@;
    let mut comments: Vec<String> = Vec::new();
    let mut slash = false;
    let mut buffer: Vec<char> = Vec::new();
    assert(strings_view(comments@) =~= Seq::<Seq<char>>::empty());
    proof {
        reveal_strlit("pragma");
        reveal_strlit("import");
        reveal_strlit("abstract");
        reveal_strlit("contract");
        reveal_strlit("interface");
        reveal_strlit("library");
    }
    loop
        invariant
            input == string@,
            file_s(string@) == file_loop(chars@, FileScan { comments: strings_view(comments@), slash, buffer: buffer@ }),
        decreases chars@.len(),
    {
        let ch = match chars.next() {
            None => {
                return Ok((None, None));
            },
            Some(c) => c,
        };
        if ch == '/' && !slash {
            slash = true;
        } else if ch == '/' && slash {
            let c = parse_comment(&mut chars);
            push_comment(&mut comments, &c);
            slash = false;
        } else if ch == '*' && slash {
            let cs = parse_multiline_comment(&mut chars);
            append_comments(&mut comments, &cs);
            slash = false;
        } else if ch == '\n' || ch == ' ' {
        } else {
            buffer.push(ch);
            if chars_eq_str(&buffer, "pragma") || chars_eq_str(&buffer, "import") {
                let mut semicolon: Vec<char> = Vec::new();
                semicolon.push(';');
                assert(semicolon@ =~= seq![';']);
                let _ = read_until(&mut chars, &semicolon);
                buffer = Vec::new();
            } else if chars_eq_str(&buffer, "abstract") {
                buffer = Vec::new();
            } else if chars_eq_str(&buffer, "contract") {
                let contract = parse_contract(&mut chars, comments);
                return match contract_check(contract) {
                    Ok(c) => Ok((Some(c), None)),
                    Err(e) => Err(e),
                };
            } else if chars_eq_str(&buffer, "interface") {
                let interface = parse_interface(&mut chars, comments);
                return match interface {
                    Ok(i) => Ok((None, Some(i))),
                    Err(e) => Err(e),
                };
            } else if chars_eq_str(&buffer, "library") {
                return Err(ParserError::LibraryParsingNotImplemented);
            }
        }
    }
}


/// One character of a word at the top of a file: it goes to the buffer when
/// the buffer does not then spell a keyword.
proof fn lemma_file_word_step(input: Seq<char>, st: FileScan)
    requires
        input.len() > 0,
        input[0] != '/' && input[0] != '*' && input[0] != '\n' && input[0] != ' ',
        st.buffer.push(input[0]) != "pragma"@,
        st.buffer.push(input[0]) != "import"@,
        st.buffer.push(input[0]) != "abstract"@,
        st.buffer.push(input[0]) != "contract"@,
        st.buffer.push(input[0]) != "interface"@,
        st.buffer.push(input[0]) != "library"@,
    ensures
        file_loop(input, st) == file_loop(input.drop_first(), FileScan { buffer: st.buffer.push(input[0]), ..st }),
{
}

/// The last character of a keyword at the top of a file decides it.
proof fn lemma_file_word_end(input: Seq<char>, st: FileScan)
    requires
        input.len() > 0,
        input[0] != '/' && input[0] != '*' && input[0] != '\n' && input[0] != ' ',
    ensures
        st.buffer.push(input[0]) == "contract"@ ==> file_loop(input, st) == FileV::Contract(
            contract_s(input.drop_first(), st.comments),
        ),
        st.buffer.push(input[0]) == "interface"@ ==> file_loop(input, st) == FileV::Interface(
            interface_s(input.drop_first(), st.comments),
        ),
        st.buffer.push(input[0]) == "library"@ ==> file_loop(input, st) == FileV::Library,
        st.buffer.push(input[0]) == "pragma"@ || st.buffer.push(input[0]) == "import"@ ==> file_loop(input, st)
            == (if read_until_s(input.drop_first(), seq![';']).1.len() < input.len() {
            file_loop(read_until_s(input.drop_first(), seq![';']).1, FileScan { buffer: Seq::empty(), ..st })
        } else {
            FileV::Nothing
        }),
{
    reveal_strlit("pragma");
    reveal_strlit("import");
    reveal_strlit("abstract");
    reveal_strlit("contract");
    reveal_strlit("interface");
    reveal_strlit("library");
    assert("contract"@ != "abstract"@) by {
        assert("contract"@[0] != "abstract"@[0]);
    }
    assert("interface"@.len() == 9);
    assert("pragma"@.len() == 6 && "import"@.len() == 6 && "abstract"@.len() == 8 && "contract"@.len() == 8);
}

/// Reading the first `k` characters of `word` at the top of a file, none of
/// them a separator and no prefix of them a keyword, fills the buffer with
/// them.
proof fn lemma_file_word(word: Seq<char>, rest: Seq<char>, k: int)
    requires
        0 <= k < word.len(),
        forall|i: int| 0 <= i < word.len() ==> word[i] != '/' && word[i] != '*' && word[i] != '\n' && word[i] != ' ',
        forall|j: int|
            1 <= j < word.len() ==> {
                let p = #[trigger] word.subrange(0, j);
                &&& p != "pragma"@
                &&& p != "import"@
                &&& p != "abstract"@
                &&& p != "contract"@
                &&& p != "interface"@
                &&& p != "library"@
            },
    ensures
        file_loop(word + rest, FileScan { comments: Seq::empty(), slash: false, buffer: Seq::empty() })
            == file_loop(
            word.subrange(k, word.len() as int) + rest,
            FileScan { comments: Seq::empty(), slash: false, buffer: word.subrange(0, k) },
        ),
    decreases k,
{
    if k == 0 {
        assert(word.subrange(0, word.len() as int) =~= word);
        assert(word.subrange(0, 0) =~= Seq::<char>::empty());
    } else {
        lemma_file_word(word, rest, k - 1);
        let input = word.subrange(k - 1, word.len() as int) + rest;
        let st = FileScan { comments: Seq::empty(), slash: false, buffer: word.subrange(0, k - 1) };
        assert(input[0] == word[k - 1]);
        assert(st.buffer.push(input[0]) =~= word.subrange(0, k));
        let p = word.subrange(0, k);
        assert(p != "pragma"@ && p != "import"@ && p != "abstract"@ && p != "contract"@ && p != "interface"@
            && p != "library"@);
        lemma_file_word_step(input, st);
        assert(input.drop_first() =~= word.subrange(k, word.len() as int) + rest);
    }
}

/// A file that starts with `contract`, `interface` or `library` is that
/// contract (with no documentation), that interface (with no comments), or
/// refused as a library: the keyword decides how the rest is read.
pub proof fn lemma_file_keyword(rest: Seq<char>)
    ensures
        file_s("contract"@ + rest) == FileV::Contract(contract_s(rest, Seq::empty())),
        file_s("interface"@ + rest) == FileV::Interface(interface_s(rest, Seq::empty())),
        file_s("library"@ + rest) == FileV::Library,
{
    reveal_strlit("pragma");
    reveal_strlit("import");
    reveal_strlit("abstract");
    reveal_strlit("contract");
    reveal_strlit("interface");
    reveal_strlit("library");
    let start = FileScan { comments: Seq::empty(), slash: false, buffer: Seq::empty() };
    let words = seq!["contract"@, "interface"@, "library"@];
    assert forall|w: int| 0 <= w < 3 implies {
        let word = #[trigger] words[w];
        &&& file_loop(word + rest, start) == file_loop(
            word.subrange(word.len() - 1, word.len() as int) + rest,
            FileScan { comments: Seq::empty(), slash: false, buffer: word.subrange(0, word.len() - 1) },
        )
    } by {
        let word = words[w];
        assert forall|j: int| 1 <= j < word.len() implies {
            let p = #[trigger] word.subrange(0, j);
            &&& p != "pragma"@
            &&& p != "import"@
            &&& p != "abstract"@
            &&& p != "contract"@
            &&& p != "interface"@
            &&& p != "library"@
        } by {
            let p = word.subrange(0, j);
            assert(p.len() == j);
            if j >= 6 {
                assert(p[0] == word[0]);
                assert(p[1] == word[1]);
                assert(p[5] == word[5]);
            }
        }
        lemma_file_word(word, rest, word.len() - 1);
    }
    let c = "contract"@;
    let c_in = c.subrange(7, 8) + rest;
    assert(c.subrange(0, 7).push(c_in[0]) =~= c);
    assert(c_in.drop_first() =~= rest);
    lemma_file_word_end(c_in, FileScan { buffer: c.subrange(0, 7), ..start });
    assert(words[0] == c);
    let i = "interface"@;
    let i_in = i.subrange(8, 9) + rest;
    assert(i.subrange(0, 8).push(i_in[0]) =~= i);
    assert(i_in.drop_first() =~= rest);
    lemma_file_word_end(i_in, FileScan { buffer: i.subrange(0, 8), ..start });
    assert(words[1] == i);
    let l = "library"@;
    let l_in = l.subrange(6, 7) + rest;
    assert(l.subrange(0, 6).push(l_in[0]) =~= l);
    assert(l_in.drop_first() =~= rest);
    lemma_file_word_end(l_in, FileScan { buffer: l.subrange(0, 6), ..start });
    assert(words[2] == l);
}


/// A `pragma` or `import` directive at the top of a file is skipped: what
/// the file holds is what the text after its `;` holds.
pub proof fn lemma_file_directive(text: Seq<char>, rest: Seq<char>)
    requires
        !text.contains(';'),
    ensures
        file_s("pragma"@ + text + seq![';'] + rest) == file_s(rest),
        file_s("import"@ + text + seq![';'] + rest) == file_s(rest),
{
    reveal_strlit("pragma");
    reveal_strlit("import");
    reveal_strlit("abstract");
    reveal_strlit("contract");
    reveal_strlit("interface");
    reveal_strlit("library");
    let start = FileScan { comments: Seq::empty(), slash: false, buffer: Seq::empty() };
    let after = text + seq![';'] + rest;
    assert forall|i: int| 0 <= i < text.len() implies !seq![';'].contains(#[trigger] text[i]) by {
        if seq![';'].contains(text[i]) {
            assert(seq![';'][0] == text[i]);
            assert(text.contains(';'));
        }
    }
    assert(seq![';'].contains(';')) by {
        assert(seq![';'][0] == ';');
    }
    lemma_until_skip(text, ';', rest, seq![';']);
    let words = seq!["pragma"@, "import"@];
    assert forall|w: int| 0 <= w < 2 implies #[trigger] file_loop(words[w] + after, start) == file_s(rest) by {
        let word = words[w];
        assert(word.len() == 6);
        assert forall|j: int| 1 <= j < word.len() implies {
            let p = #[trigger] word.subrange(0, j);
            &&& p != "pragma"@
            &&& p != "import"@
            &&& p != "abstract"@
            &&& p != "contract"@
            &&& p != "interface"@
            &&& p != "library"@
        } by {
            let p = word.subrange(0, j);
            assert(p.len() == j);
        }
        lemma_file_word(word, after, 5);
        let input = word.subrange(5, 6) + after;
        assert(word.subrange(0, 5).push(input[0]) =~= word);
        assert(input.drop_first() =~= after);
        lemma_file_word_end(input, FileScan { buffer: word.subrange(0, 5), ..start });
        assert(FileScan { buffer: Seq::<char>::empty(), ..FileScan { buffer: word.subrange(0, 5), ..start } } == start);
    }
    assert(words[0] == "pragma"@);
    assert(words[1] == "import"@);
    assert("pragma"@ + text + seq![';'] + rest =~= "pragma"@ + after);
    assert("import"@ + text + seq![';'] + rest =~= "import"@ + after);
}

/// `b` starts with `a`.
pub open spec fn extends<T>(a: Seq<T>, b: Seq<T>) -> bool {
    a.len() <= b.len() && b.subrange(0, a.len() as int) == a
}

proof fn lemma_extends_trans<T>(a: Seq<T>, b: Seq<T>, c: Seq<T>)
    requires
        extends(a, b),
        extends(b, c),
    ensures
        extends(a, c),
{
    assert(c.subrange(0, a.len() as int) =~= b.subrange(0, a.len() as int));
}

proof fn lemma_extends_push<T>(a: Seq<T>, x: T)
    ensures
        extends(a, a),
        extends(a, a.push(x)),
{
    assert(a.subrange(0, a.len() as int) =~= a);
    assert(a.push(x).subrange(0, a.len() as int) =~= a);
}

/// A declaration read in an interface's body carries the comments read
/// since the declaration before it, and is added after those read before.
pub proof fn lemma_interface_member(t: Seq<char>, rest: Seq<char>, st: InterfaceScan)
    ensures
        ({
            let n = interface_member(t, rest, st).0;
            &&& t == "event"@ ==> n.events == st.events.push(n.events.last()) && n.events.last().comments
                == st.comments && n.comments.len() == 0
            &&& t == "enum"@ ==> n.enums == st.enums.push(n.enums.last()) && n.enums.last().comments
                == st.comments && n.comments.len() == 0
            &&& t == "struct"@ ==> n.structs == st.structs.push(n.structs.last()) && n.structs.last().comments
                == st.comments && n.comments.len() == 0
            &&& t == "function"@ ==> n.headers == st.headers.push(n.headers.last()) && n.headers.last().comments
                == st.comments && n.comments.len() == 0
        }),
{
    reveal_strlit("event");
    reveal_strlit("enum");
    reveal_strlit("struct");
    reveal_strlit("function");
    assert("event"@.len() == 5 && "enum"@.len() == 4 && "struct"@.len() == 6 && "function"@.len() == 8);
    let n = interface_member(t, rest, st).0;
    if t == "event"@ {
        let e = event_s(rest, st.imports, st.comments).0;
        assert(n.events == st.events.push(e));
        assert(n.events.last() == e);
        assert(e.comments == st.comments);
    } else if t == "enum"@ {
        let e = enum_s(rest, st.comments).0;
        assert(n.enums == st.enums.push(e));
        assert(n.enums.last() == e);
    } else if t == "struct"@ {
        let e = struct_s(rest, st.imports, st.comments).0;
        assert(n.structs == st.structs.push(e));
        assert(n.structs.last() == e);
    } else if t == "function"@ {
        let e = header_s(rest, st.imports, st.comments).0;
        assert(n.headers == st.headers.push(e));
        assert(n.headers.last() == e);
    }
}

/// Reading an interface only adds declarations: those read first stay
/// first, in the order they were read.
pub proof fn lemma_interface_scan_appends(input: Seq<char>, st: InterfaceScan)
    ensures
        ({
            let r = interface_scan(input, st);
            &&& extends(st.events, r.events)
            &&& extends(st.enums, r.enums)
            &&& extends(st.structs, r.structs)
            &&& extends(st.headers, r.headers)
        }),
    decreases input.len(),
{
    lemma_extends_push(st.events, st.events.last());
    lemma_extends_push(st.enums, st.enums.last());
    lemma_extends_push(st.structs, st.structs.last());
    lemma_extends_push(st.headers, st.headers.last());
    if input.len() > 0 {
        let ch = input[0];
        let rest = input.drop_first();
        if ch == '\n' && (st.action == ScanAction::Start || st.action == ScanAction::Contract) {
            lemma_interface_scan_appends(rest, st);
        } else if ch == '/' && st.action == ScanAction::Contract {
            lemma_interface_scan_appends(rest, InterfaceScan { action: ScanAction::Slash, ..st });
        } else if ch == '/' && st.action == ScanAction::Slash {
            let (c, r) = comment_loop(rest, Seq::empty(), false);
            let next = InterfaceScan { comments: with_comment(st.comments, c), action: ScanAction::Contract, ..st };
            if r.len() < input.len() {
                lemma_interface_scan_appends(r, next);
            }
        } else if ch == '*' && st.action == ScanAction::Slash {
            let (cs, r) = block_comment_loop(rest, block_comment_start());
            let next = InterfaceScan { comments: st.comments + cs, action: ScanAction::Contract, ..st };
            if r.len() < input.len() {
                lemma_interface_scan_appends(r, next);
            }
        } else if ch == '{' {
            lemma_interface_scan_appends(rest, InterfaceScan { action: ScanAction::Contract, ..st });
        } else if ch == ' ' && st.action == ScanAction::ContractName {
            lemma_interface_scan_appends(
                rest,
                InterfaceScan {
                    name: interface_name(st.buffer),
                    buffer: Seq::empty(),
                    action: ScanAction::ContractNamed,
                    ..st
                },
            );
        } else if st.action == ScanAction::Start {
            lemma_interface_scan_appends(
                rest,
                InterfaceScan { buffer: st.buffer.push(ch), action: ScanAction::ContractName, ..st },
            );
        } else if st.action == ScanAction::ContractName || st.action == ScanAction::Contract {
            let buffer = st.buffer.push(ch);
            let s1 = InterfaceScan { buffer, ..st };
            let (next, r) = interface_member(trim_seq(buffer), rest, s1);
            lemma_interface_member(trim_seq(buffer), rest, s1);
            lemma_extends_push(st.events, next.events.last());
            lemma_extends_push(st.enums, next.enums.last());
            lemma_extends_push(st.structs, next.structs.last());
            lemma_extends_push(st.headers, next.headers.last());
            if r.len() < input.len() {
                lemma_interface_scan_appends(r, next);
                lemma_extends_trans(st.events, next.events, interface_scan(input, st).events);
                lemma_extends_trans(st.enums, next.enums, interface_scan(input, st).enums);
                lemma_extends_trans(st.structs, next.structs, interface_scan(input, st).structs);
                lemma_extends_trans(st.headers, next.headers, interface_scan(input, st).headers);
            }
        } else {
            lemma_interface_scan_appends(rest, st);
        }
    }
}

/// A contract or interface with `doc` put before its own documentation.
pub open spec fn with_doc(doc: Seq<Seq<char>>, f: FileV) -> FileV {
    match f {
        FileV::Contract(c) => FileV::Contract(ContractV { contract_doc: doc + c.contract_doc, ..c }),
        FileV::Interface(i) => FileV::Interface(InterfaceV { comments: doc + i.comments, ..i }),
        other => other,
    }
}

/// The comments read at the top of a file, before the keyword, become the
/// documentation of the contract or interface that follows, in the order
/// they were read.
pub proof fn lemma_file_doc(input: Seq<char>, doc: Seq<Seq<char>>, st: FileScan)
    ensures
        file_loop(input, FileScan { comments: doc + st.comments, ..st }) == with_doc(doc, file_loop(input, st)),
    decreases input.len(),
{
    let sd = FileScan { comments: doc + st.comments, ..st };
    if input.len() > 0 {
        let ch = input[0];
        let rest = input.drop_first();
        if ch == '/' && !st.slash {
            lemma_file_doc(rest, doc, FileScan { slash: true, ..st });
        } else if ch == '/' && st.slash {
            let (c, r) = comment_loop(rest, Seq::empty(), false);
            assert(with_comment(doc + st.comments, c) =~= doc + with_comment(st.comments, c));
            if r.len() < input.len() {
                lemma_file_doc(r, doc, FileScan { comments: with_comment(st.comments, c), slash: false, ..st });
            }
        } else if ch == '*' && st.slash {
            let (cs, r) = block_comment_loop(rest, block_comment_start());
            assert(doc + st.comments + cs =~= doc + (st.comments + cs));
            if r.len() < input.len() {
                lemma_file_doc(r, doc, FileScan { comments: st.comments + cs, slash: false, ..st });
            }
        } else if ch == '\n' || ch == ' ' {
            lemma_file_doc(rest, doc, st);
        } else {
            let buffer = st.buffer.push(ch);
            if buffer == "pragma"@ || buffer == "import"@ {
                let (_, r) = read_until_s(rest, seq![';']);
                if r.len() < input.len() {
                    lemma_file_doc(r, doc, FileScan { buffer: Seq::empty(), ..st });
                }
            } else if buffer == "abstract"@ {
                lemma_file_doc(rest, doc, FileScan { buffer: Seq::empty(), ..st });
            } else if buffer == "contract"@ {
                assert(contract_s(rest, doc + st.comments) == ContractV {
                    contract_doc: doc + st.comments,
                    ..contract_s(rest, st.comments)
                });
            } else if buffer == "interface"@ {
            } else if buffer == "library"@ {
            } else {
                lemma_file_doc(rest, doc, FileScan { buffer, ..st });
            }
        }
    }
}


} // verus!

verus! {

/// The text of a `//` comment line: a third `/` is dropped, then the ends
/// are trimmed.
pub open spec fn line_comment(line: Seq<char>) -> Seq<char> {
    trim_seq(
        if line.len() > 0 && line[0] == '/' {
            line.drop_first()
        } else {
            line
        },
    )
}

proof fn lemma_comment_reading(l: Seq<char>, b: Seq<char>, rest: Seq<char>)
    requires
        !l.contains('\n'),
    ensures
        comment_loop(l + seq!['\n'] + rest, b, true) == (trim_seq(b + l), rest),
    decreases l.len(),
{
    let input = l + seq!['\n'] + rest;
    if l.len() == 0 {
        assert(input[0] == '\n');
        assert(input.drop_first() =~= rest);
        assert(b + l =~= b);
    } else {
        assert(input[0] == l[0]);
        assert(l[0] != '\n') by {
            if l[0] == '\n' {
                assert(l.contains('\n'));
            }
        }
        assert(!l.drop_first().contains('\n')) by {
            if l.drop_first().contains('\n') {
                let k = choose|k: int| 0 <= k < l.drop_first().len() && l.drop_first()[k] == '\n';
                assert(l[k + 1] == '\n');
            }
        }
        assert(input.drop_first() =~= l.drop_first() + seq!['\n'] + rest);
        lemma_comment_reading(l.drop_first(), b.push(l[0]), rest);
        assert(b.push(l[0]) + l.drop_first() =~= b + l);
    }
}

/// A `//` comment line at the top of a file documents the contract or
/// interface that follows; an empty one is dropped.
pub proof fn lemma_file_comment(line: Seq<char>, rest: Seq<char>)
    requires
        !line.contains('\n'),
    ensures
        file_s(seq!['/', '/'] + line + seq!['\n'] + rest) == with_doc(
            with_comment(Seq::empty(), line_comment(line)),
            file_s(rest),
        ),
{
    let input = seq!['/', '/'] + line + seq!['\n'] + rest;
    let after = line + seq!['\n'] + rest;
    let start = FileScan { comments: Seq::empty(), slash: false, buffer: Seq::empty() };
    assert(input[0] == '/');
    assert(input.drop_first()[0] == '/');
    assert(input.drop_first().drop_first() =~= after);
    if line.len() > 0 && line[0] == '/' {
        assert(after[0] == '/');
        assert(after.drop_first() =~= line.drop_first() + seq!['\n'] + rest);
        assert(!line.drop_first().contains('\n')) by {
            if line.drop_first().contains('\n') {
                let k = choose|k: int| 0 <= k < line.drop_first().len() && line.drop_first()[k] == '\n';
                assert(line[k + 1] == '\n');
            }
        }
        lemma_comment_reading(line.drop_first(), Seq::empty(), rest);
        assert(Seq::<char>::empty() + line.drop_first() =~= line.drop_first());
    } else if line.len() > 0 {
        assert(after[0] == line[0]);
        assert(line[0] != '\n') by {
            if line[0] == '\n' {
                assert(line.contains('\n'));
            }
        }
        assert(after.drop_first() =~= line.drop_first() + seq!['\n'] + rest);
        assert(!line.drop_first().contains('\n')) by {
            if line.drop_first().contains('\n') {
                let k = choose|k: int| 0 <= k < line.drop_first().len() && line.drop_first()[k] == '\n';
                assert(line[k + 1] == '\n');
            }
        }
        lemma_comment_reading(line.drop_first(), seq![line[0]], rest);
        assert(seq![line[0]] + line.drop_first() =~= line);
    } else {
        assert(after[0] == '\n');
        assert(after.drop_first() =~= rest);
        assert(trim_seq(Seq::<char>::empty()) == line_comment(line));
    }
    let c = line_comment(line);
    assert(comment_loop(after, Seq::empty(), false) == (c, rest));
    let doc = with_comment(Seq::empty(), c);
    let s1 = FileScan { slash: true, ..start };
    let s2 = FileScan { comments: doc, slash: false, buffer: Seq::empty() };
    assert(file_loop(input, start) == file_loop(input.drop_first(), s1));
    assert(file_loop(input.drop_first(), s1) == file_loop(rest, s2));
    assert(doc + start.comments =~= doc);
    lemma_file_doc(rest, doc, start);
    assert(s2 == FileScan { comments: doc + start.comments, ..start });
}

} // verus!
