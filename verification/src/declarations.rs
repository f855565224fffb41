//! The declarations of a contract or interface: events, structs, enums,
//! function headers and their parameters, state variables. Each reader takes
//! the character stream after the keyword that introduced the declaration.

use vstd::prelude::*;
use crate::structures::{Event, EventField, Struct, StructField, Enum, FunctionParam, FunctionHeader,
    Expression, ContractField};
use crate::cursor::CharStream;
use crate::scanner::{read_until, read_until_s};
use crate::formatter::{maps_to, split, split_plain, split_seq, strings_view, without_commas, remove_commas, lemma_split_nonempty, trim_spec, collapse_and_trim};
use crate::types::{convert_variable_type, convert_variable_type_spec};
use crate::text::{chars_of, chars_of_string, string_from_chars, chars_eq_str, trim_seq, trim_chars,
    replace_seq, replace_str, has_infix, contains_str};
use crate::model::{ExprV, expr_v, exprs_v};
use crate::pattern::{capture, regex_group};
use crate::patterns::{FUNCTION_WITH_RETURN, FUNCTION_NO_RETURN, CONTRACT_FIELD};
use crate::types::{capture_or_empty, group_or_empty};
use crate::scanner::{parse_body, body_loop, body_start, raw_lines};
use crate::statements::{Lines, lines_v};
use crate::expressions::{parse_member_fuel, member_s, enc_v};
use crate::scope::{empty_scope, empty_scope_v};
use crate::imports::{insert_import, add_import};
use crate::structures::{Function, Modifier};

use crate::imports::no_duplicates;
verus! {

/// The imports of a contract, one line each.
pub type Imports = Seq<Seq<char>>;

pub struct ParamV {
    pub name: Seq<char>,
    pub param_type: Seq<char>,
}

pub open spec fn param_v(p: FunctionParam) -> ParamV {
    ParamV { name: p.name@, param_type: p.param_type@ }
}

pub open spec fn params_v(s: Seq<FunctionParam>) -> Seq<ParamV> {
    s.map_values(|p: FunctionParam| param_v(p))
}

pub struct EventFieldV {
    pub indexed: bool,
    pub field_type: Seq<char>,
    pub name: Seq<char>,
}

pub struct EventV {
    pub name: Seq<char>,
    pub fields: Seq<EventFieldV>,
    pub comments: Seq<Seq<char>>,
}

pub open spec fn event_field_v(f: EventField) -> EventFieldV {
    EventFieldV { indexed: f.indexed, field_type: f.field_type@, name: f.name@ }
}

pub open spec fn event_view(e: Event) -> EventV {
    EventV {
        name: e.name@,
        fields: e.fields@.map_values(|f: EventField| event_field_v(f)),
        comments: strings_view(e.comments@),
    }
}

pub struct StructFieldV {
    pub name: Seq<char>,
    pub field_type: Seq<char>,
}

pub struct StructV {
    pub name: Seq<char>,
    pub fields: Seq<StructFieldV>,
    pub comments: Seq<Seq<char>>,
}

pub open spec fn struct_field_v(f: StructField) -> StructFieldV {
    StructFieldV { name: f.name@, field_type: f.field_type@ }
}

pub open spec fn struct_view(s: Struct) -> StructV {
    StructV {
        name: s.name@,
        fields: s.fields@.map_values(|f: StructField| struct_field_v(f)),
        comments: strings_view(s.comments@),
    }
}

pub struct EnumV {
    pub name: Seq<char>,
    pub values: Seq<Seq<char>>,
    pub comments: Seq<Seq<char>>,
}

pub open spec fn enum_view(e: Enum) -> EnumV {
    EnumV { name: e.name@, values: strings_view(e.values@), comments: strings_view(e.comments@) }
}

/// `s` without any `,` or `)`.
pub open spec fn without_commas_parens(s: Seq<char>) -> Seq<char> {
    replace_seq(replace_seq(s, seq![','], Seq::empty()), seq![')'], Seq::empty())
}

/// The scan over the words of an event after its name: a type, then a name,
/// with `indexed` marking the field that follows.
pub struct EventScan {
    pub fields: Seq<EventFieldV>,
    pub field_type: Seq<char>,
    pub indexed: bool,
    pub expect_type: bool,
    pub imports: Imports,
}

pub open spec fn event_fields_loop(tokens: Seq<Seq<char>>, st: EventScan) -> EventScan
    decreases tokens.len(),
{
    if tokens.len() == 0 {
        st
    } else {
        let token = tokens[0];
        let next = if token == "indexed"@ {
            EventScan { indexed: true, ..st }
        } else if st.expect_type {
            let (t, imp) = convert_variable_type_spec(token, st.imports);
            EventScan { field_type: t, expect_type: false, imports: imp, ..st }
        } else {
            EventScan {
                fields: st.fields.push(
                    EventFieldV { indexed: st.indexed, field_type: st.field_type, name: without_commas_parens(token) },
                ),
                indexed: false,
                expect_type: true,
                ..st
            }
        };
        event_fields_loop(tokens.drop_first(), next)
    }
}

/// The text of an event declaration with the spaces inside its parentheses
/// taken out.
pub open spec fn event_text(raw: Seq<char>) -> Seq<char> {
    replace_seq(replace_seq(trim_seq(raw), "( "@, "("@), " )"@, ")"@)
}

/// The piece at `i`, or nothing where there is none.
pub open spec fn piece(pieces: Seq<Seq<char>>, i: int) -> Seq<char> {
    if 0 <= i < pieces.len() {
        pieces[i]
    } else {
        Seq::empty()
    }
}

/// `event Name(type name, ...);` read after `event`: the event, the imports,
/// and the input after the `;`. Where the name has no `(`, the first type is
/// empty.
pub open spec fn event_s(input: Seq<char>, imports: Imports, comments: Seq<Seq<char>>) -> (
    EventV,
    Imports,
    Seq<char>,
) {
    let (raw, rest) = read_until_s(input, seq![';']);
    let tokens = split_seq(event_text(raw), " "@);
    let head = split_seq(piece(tokens, 0), "("@);
    let (first_type, imp1) = convert_variable_type_spec(piece(head, 1), imports);
    let st = event_fields_loop(
        tokens.drop_first(),
        EventScan { fields: Seq::empty(), field_type: first_type, indexed: false, expect_type: false, imports: imp1 },
    );
    (EventV { name: piece(head, 0), fields: st.fields, comments }, st.imports, rest)
}

fn lit(s: &str) -> (r: Vec<char>)
    ensures
        r@ == s@,
{
    chars_of(s)
}

fn text(v: &Vec<char>) -> (r: String)
    ensures
        r@ == v@,
{
    string_from_chars(v)
}

/// A copy of a list of strings.
pub fn copy_strings(v: &Vec<String>) -> (r: Vec<String>)
    ensures
        strings_view(r@) == strings_view(v@),
{
    let mut r: Vec<String> = Vec::new();
    let mut i: usize = 0;
    while i < v.len()
        invariant
            i <= v.len(),
            strings_view(r@) == strings_view(v@).subrange(0, i as int),
        decreases v.len() - i,
    {
        let ghost before = r@;
        let c = v[i].clone();
        r.push(c);
        assert(strings_view(r@) =~= strings_view(before).push(c@));
        assert(strings_view(v@).subrange(0, i + 1) =~= strings_view(v@).subrange(0, i as int).push(
            v@[i as int]@,
        ));
        i = i + 1;
    }
    assert(strings_view(v@).subrange(0, v@.len() as int) =~= strings_view(v@));
    r
}

/// The piece at `i` of a split, or an empty one.
fn piece_at(pieces: &Vec<String>, i: usize) -> (r: Vec<char>)
    ensures
        r@ == piece(strings_view(pieces@), i as int),
{
    if i < pieces.len() {
        chars_of_string(&pieces[i])
    } else {
        Vec::new()
    }
}

/// Splits a character vector by `sep`.
fn split_chars(s: &Vec<char>, sep: &str) -> (r: Vec<String>)
    ensures
        strings_view(r@) == split_seq(s@, sep@),
{
    let st = text(s);
    split_plain(st.as_str(), sep)
}

/// Reads an event after the keyword `event` (`parse_event`).
pub fn parse_event(imports: &mut Vec<String>, chars: &mut CharStream, comments: &Vec<String>) -> (r: Event)
    ensures
        no_duplicates(strings_view(old(imports)@)) ==> no_duplicates(strings_view(final(imports)@)),
        (event_view(r), strings_view(final(imports)@), final(chars)@) == event_s(
            old(chars)@,
            strings_view(old(imports)@),
            strings_view(comments@),
        ),
        final(chars)@.len() <= old(chars)@.len(),
{
    let mut semicolon: Vec<char> = Vec::new();
    semicolon.push(';');
    let raw = read_until(chars, &semicolon);
    proof {
        reveal_strlit("( ");
        reveal_strlit(" )");
        assert(semicolon@ == seq![';']);
    }
    let t = trim_chars(&raw);
    let t2 = replace_str(&t, "( ", "(");
    let event_raw = replace_str(&t2, " )", ")");
    let tokens = split_chars(&event_raw, " ");
    let head = split_chars(&piece_at(&tokens, 0), "(");
    let name = piece_at(&head, 0);
    let mut field_type = convert_variable_type(&piece_at(&head, 1), imports);
    let mut fields: Vec<EventField> = Vec::new();
    let mut indexed = false;
    let mut expect_type = false;
    let ghost tv = strings_view(tokens@);
    let ghost first = EventScan {
        fields: Seq::empty(),
        field_type: field_type@,
        indexed: false,
        expect_type: false,
        imports: strings_view(imports@),
    };
    let ghost total = event_fields_loop(tv.drop_first(), first);
    assert(fields@.map_values(|f: EventField| event_field_v(f)) =~= Seq::<EventFieldV>::empty());
    proof {
        lemma_split_nonempty(event_raw@, " "@);
    }
    let mut i: usize = 1;
    assert(tv.drop_first() =~= tv.subrange(1, tv.len() as int));
    while i < tokens.len()
        invariant
            no_duplicates(strings_view(old(imports)@)) ==> no_duplicates(strings_view(imports@)),
            i <= tokens.len(),
            tv == strings_view(tokens@),
            event_fields_loop(
                tv.subrange(i as int, tv.len() as int),
                EventScan {
                    fields: fields@.map_values(|f: EventField| event_field_v(f)),
                    field_type: field_type@,
                    indexed,
                    expect_type,
                    imports: strings_view(imports@),
                },
            ) == total,
        decreases tokens.len() - i,
    {
        let ghost rest = tv.subrange(i as int, tv.len() as int);
        assert(rest[0] == tv[i as int]);
        assert(rest.drop_first() =~= tv.subrange(i + 1, tv.len() as int));
        let token = chars_of_string(&tokens[i]);
        if chars_eq_str(&token, "indexed") {
            indexed = true;
        } else if expect_type {
            field_type = convert_variable_type(&token, imports);
            expect_type = false;
        } else {
            proof {
                reveal_strlit(",");
                reveal_strlit(")");
                reveal_strlit("");
                assert(","@ =~= seq![',']);
                assert(")"@ =~= seq![')']);
                assert(""@ =~= Seq::<char>::empty());
            }
            let without = replace_str(&replace_str(&token, ",", ""), ")", "");
            let f = EventField { indexed, field_type: text(&field_type), name: text(&without) };
            let ghost before = fields@;
            fields.push(f);
            assert(fields@.map_values(|f: EventField| event_field_v(f)) =~= before.map_values(
                |f: EventField| event_field_v(f),
            ).push(event_field_v(f)));
            indexed = false;
            expect_type = true;
        }
        i = i + 1;
    }
    assert(tv.subrange(i as int, tv.len() as int) =~= Seq::<Seq<char>>::empty());
    Event { name: text(&name), fields, comments: copy_strings(comments) }
}

/// A struct field `type name;`: the converted type, and the second word
/// without its `;` (empty where there is none).
pub open spec fn struct_field_s(line: Seq<char>, imports: Imports) -> (StructFieldV, Imports) {
    let tokens = split_seq(line, " "@);
    let (t, imp) = convert_variable_type_spec(piece(tokens, 0), imports);
    (StructFieldV { name: replace_seq(piece(tokens, 1), seq![';'], Seq::empty()), field_type: t }, imp)
}

/// The fields of a struct body, skipping the empty pieces.
pub open spec fn struct_fields_loop(pieces: Seq<Seq<char>>, acc: Seq<StructFieldV>, imports: Imports) -> (
    Seq<StructFieldV>,
    Imports,
)
    decreases pieces.len(),
{
    if pieces.len() == 0 {
        (acc, imports)
    } else if pieces[0].len() == 0 {
        struct_fields_loop(pieces.drop_first(), acc, imports)
    } else {
        let (f, imp) = struct_field_s(trim_seq(pieces[0]), imports);
        struct_fields_loop(pieces.drop_first(), acc.push(f), imp)
    }
}

/// `struct Name { type name; ... }` read after `struct`: the struct, the
/// imports and the input after the `}`. The name is trimmed.
pub open spec fn struct_s(input: Seq<char>, imports: Imports, comments: Seq<Seq<char>>) -> (
    StructV,
    Imports,
    Seq<char>,
) {
    let (raw, rest) = read_until_s(input, seq!['}']);
    let parts = split_seq(replace_seq(raw, " => "@, "=>"@), "{"@);
    let (fields, imp) = struct_fields_loop(split_seq(trim_seq(piece(parts, 1)), ";"@), Seq::empty(), imports);
    (StructV { name: trim_seq(piece(parts, 0)), fields, comments }, imp, rest)
}

/// The values of an enum: every word after the name but `{`, without commas.
pub open spec fn enum_values(tokens: Seq<Seq<char>>) -> Seq<Seq<char>>
    decreases tokens.len(),
{
    if tokens.len() == 0 {
        Seq::empty()
    } else if tokens[0] == "{"@ {
        enum_values(tokens.drop_first())
    } else {
        seq![without_commas(tokens[0])] + enum_values(tokens.drop_first())
    }
}

/// `enum Name { A, B }` read after `enum`: the enum and the input after `}`.
pub open spec fn enum_s(input: Seq<char>, comments: Seq<Seq<char>>) -> (EnumV, Seq<char>) {
    let (raw, rest) = read_until_s(input, seq!['}']);
    let tokens = split_seq(raw, " "@);
    (EnumV { name: piece(tokens, 0), values: enum_values(tokens.drop_first()), comments }, rest)
}

/// Reads a struct field (`parse_struct_field`).
pub fn parse_struct_field(line: &Vec<char>, imports: &mut Vec<String>) -> (r: StructField)
    ensures
        no_duplicates(strings_view(old(imports)@)) ==> no_duplicates(strings_view(final(imports)@)),
        (struct_field_v(r), strings_view(final(imports)@)) == struct_field_s(line@, strings_view(old(imports)@)),
{
    let tokens = split_chars(line, " ");
    let field_type = convert_variable_type(&piece_at(&tokens, 0), imports);
    proof {
        reveal_strlit(";");
        reveal_strlit("");
        assert(";"@ =~= seq![';']);
        assert(""@ =~= Seq::<char>::empty());
    }
    let name = replace_str(&piece_at(&tokens, 1), ";", "");
    StructField { name: text(&name), field_type: text(&field_type) }
}

/// Reads a struct after the keyword `struct` (`parse_struct`).
pub fn parse_struct(imports: &mut Vec<String>, chars: &mut CharStream, comments: &Vec<String>) -> (r: Struct)
    ensures
        no_duplicates(strings_view(old(imports)@)) ==> no_duplicates(strings_view(final(imports)@)),
        (struct_view(r), strings_view(final(imports)@), final(chars)@) == struct_s(
            old(chars)@,
            strings_view(old(imports)@),
            strings_view(comments@),
        ),
        final(chars)@.len() <= old(chars)@.len(),
{
    let mut brace: Vec<char> = Vec::new();
    brace.push('}');
    let raw = read_until(chars, &brace);
    proof {
        assert(brace@ == seq!['}']);
        reveal_strlit(" => ");
    }
    let replaced = replace_str(&raw, " => ", "=>");
    let parts = split_chars(&replaced, "{");
    let body = trim_chars(&piece_at(&parts, 1));
    let pieces = split_chars(&body, ";");
    let ghost pv = strings_view(pieces@);
    let ghost total = struct_fields_loop(pv, Seq::empty(), strings_view(imports@));
    let mut fields: Vec<StructField> = Vec::new();
    assert(fields@.map_values(|f: StructField| struct_field_v(f)) =~= Seq::<StructFieldV>::empty());
    assert(pv.subrange(0, pv.len() as int) =~= pv);
    let mut i: usize = 0;
    while i < pieces.len()
        invariant
            no_duplicates(strings_view(old(imports)@)) ==> no_duplicates(strings_view(imports@)),
            i <= pieces.len(),
            pv == strings_view(pieces@),
            struct_fields_loop(
                pv.subrange(i as int, pv.len() as int),
                fields@.map_values(|f: StructField| struct_field_v(f)),
                strings_view(imports@),
            ) == total,
        decreases pieces.len() - i,
    {
        let ghost rest = pv.subrange(i as int, pv.len() as int);
        assert(rest[0] == pv[i as int]);
        assert(rest.drop_first() =~= pv.subrange(i + 1, pv.len() as int));
        let p = chars_of_string(&pieces[i]);
        if p.len() > 0 {
            let f = parse_struct_field(&trim_chars(&p), imports);
            let ghost before = fields@;
            fields.push(f);
            assert(fields@.map_values(|f: StructField| struct_field_v(f)) =~= before.map_values(
                |f: StructField| struct_field_v(f),
            ).push(struct_field_v(f)));
        }
        i = i + 1;
    }
    assert(pv.subrange(i as int, pv.len() as int) =~= Seq::<Seq<char>>::empty());
    Struct { name: text(&trim_chars(&piece_at(&parts, 0))), fields, comments: copy_strings(comments) }
}

/// Reads an enum after the keyword `enum` (`parse_enum`).
pub fn parse_enum(chars: &mut CharStream, comments: &Vec<String>) -> (r: Enum)
    ensures
        (enum_view(r), final(chars)@) == enum_s(old(chars)@, strings_view(comments@)),
        final(chars)@.len() <= old(chars)@.len(),
{
    let mut brace: Vec<char> = Vec::new();
    brace.push('}');
    let raw = read_until(chars, &brace);
    assert(brace@ == seq!['}']);
    let tokens = split_chars(&raw, " ");
    let ghost tv = strings_view(tokens@);
    proof {
        lemma_split_nonempty(raw@, " "@);
        reveal_strlit(",");
        reveal_strlit("");
        assert(","@ =~= seq![',']);
        assert(""@ =~= Seq::<char>::empty());
    }
    let mut values: Vec<String> = Vec::new();
    let mut i: usize = 1;
    assert(tv.drop_first() =~= tv.subrange(1, tv.len() as int));
    while i < tokens.len()
        invariant
            1 <= i <= tokens.len(),
            tv == strings_view(tokens@),
            strings_view(values@) + enum_values(tv.subrange(i as int, tv.len() as int)) == enum_values(
                tv.drop_first(),
            ),
        decreases tokens.len() - i,
    {
        let ghost rest = tv.subrange(i as int, tv.len() as int);
        assert(rest[0] == tv[i as int]);
        assert(rest.drop_first() =~= tv.subrange(i + 1, tv.len() as int));
        let token = chars_of_string(&tokens[i]);
        if !chars_eq_str(&token, "{") {
            proof {
                reveal_strlit(",");
                reveal_strlit("");
                assert(","@ =~= seq![',']);
                assert(""@ =~= Seq::<char>::empty());
            }
            let v = replace_str(&token, ",", "");
            let ghost before = strings_view(values@);
            values.push(text(&v));
            assert(strings_view(values@) =~= before.push(v@));
            assert(enum_values(rest) == seq![without_commas(rest[0])] + enum_values(rest.drop_first()));
            assert(before.push(v@) + enum_values(rest.drop_first()) =~= before + enum_values(rest));
        }
        i = i + 1;
    }
    assert(tv.subrange(i as int, tv.len() as int) =~= Seq::<Seq<char>>::empty());
    assert(strings_view(values@) + Seq::<Seq<char>>::empty() =~= strings_view(values@));
    Enum { name: text(&piece_at(&tokens, 0)), values, comments: copy_strings(comments) }
}

/// The scan over the words of a parameter list after the first type.
pub struct ParamScan {
    pub params: Seq<ParamV>,
    pub param_type: Seq<char>,
    pub expect_type: bool,
    pub imports: Imports,
}

pub open spec fn params_loop(tokens: Seq<Seq<char>>, st: ParamScan) -> ParamScan
    decreases tokens.len(),
{
    if tokens.len() == 0 {
        st
    } else {
        let next = if st.expect_type {
            let (t, imp) = convert_variable_type_spec(tokens[0], st.imports);
            ParamScan { param_type: t, expect_type: false, imports: imp, ..st }
        } else {
            ParamScan {
                params: st.params.push(ParamV { name: tokens[0], param_type: st.param_type }),
                expect_type: true,
                ..st
            }
        };
        params_loop(tokens.drop_first(), next)
    }
}

/// The words of a parameter list, each without commas.
pub open spec fn param_words(parameters: Seq<char>) -> Seq<Seq<char>> {
    split_seq(parameters, " "@).map_values(|p: Seq<char>| without_commas(p))
}

/// `type name, type name` as parameters with converted types
/// (`parse_function_parameters`).
pub open spec fn params_s(parameters: Seq<char>, imports: Imports) -> (Seq<ParamV>, Imports) {
    if parameters.len() == 0 {
        (Seq::empty(), imports)
    } else {
        let tokens = param_words(parameters);
        let (t0, imp1) = convert_variable_type_spec(piece(tokens, 0), imports);
        let st = params_loop(
            tokens.drop_first(),
            ParamScan { params: Seq::empty(), param_type: t0, expect_type: false, imports: imp1 },
        );
        (st.params, st.imports)
    }
}

/// The number of times `c` occurs in `s`.
pub open spec fn count_char(s: Seq<char>, c: char) -> nat
    decreases s.len(),
{
    if s.len() == 0 {
        0
    } else {
        (if s[0] == c {
            1nat
        } else {
            0nat
        }) + count_char(s.drop_first(), c)
    }
}

/// The return parameters from their words: each type followed by its name
/// where the list names them, else named `_`.
pub open spec fn return_loop(tokens: Seq<Seq<char>>, named: bool, acc: Seq<ParamV>, imports: Imports) -> (
    Seq<ParamV>,
    Imports,
)
    decreases tokens.len(),
{
    if tokens.len() == 0 {
        (acc, imports)
    } else {
        let (t, imp) = convert_variable_type_spec(without_commas(tokens[0]), imports);
        if named {
            let rest = if tokens.len() > 1 {
                tokens.subrange(2, tokens.len() as int)
            } else {
                Seq::empty()
            };
            return_loop(rest, named, acc.push(ParamV { name: without_commas(piece(tokens, 1)), param_type: t }), imp)
        } else {
            return_loop(tokens.drop_first(), named, acc.push(ParamV { name: "_"@, param_type: t }), imp)
        }
    }
}

/// The list names its parameters when it has at least two words for each.
pub open spec fn return_params_s(parameters: Seq<char>, imports: Imports) -> (Seq<ParamV>, Imports) {
    let tokens = split_seq(parameters, " "@);
    return_loop(tokens, tokens.len() >= (count_char(parameters, ',') + 1) * 2, Seq::empty(), imports)
}

/// `(external, view, payable)` of a function's attributes: `external` or
/// `public`; `view` or `pure`; `payable`.
pub open spec fn attributes_s(attributes: Seq<char>) -> (bool, bool, bool) {
    (
        has_infix(attributes, "external"@) || has_infix(attributes, "public"@),
        has_infix(attributes, "view"@) || has_infix(attributes, "pure"@),
        has_infix(attributes, "payable"@),
    )
}

/// The attributes without the visibility and mutability keywords.
pub open spec fn strip_keywords(a: Seq<char>) -> Seq<char> {
    let a1 = replace_seq(a, "payable"@, Seq::empty());
    let a2 = replace_seq(a1, "external"@, Seq::empty());
    let a3 = replace_seq(a2, "internal"@, Seq::empty());
    let a4 = replace_seq(a3, "virtual"@, Seq::empty());
    let a5 = replace_seq(a4, "override"@, Seq::empty());
    let a6 = replace_seq(a5, "public"@, Seq::empty());
    let a7 = replace_seq(a6, "private"@, Seq::empty());
    let a8 = replace_seq(a7, "view"@, Seq::empty());
    replace_seq(a8, "pure"@, Seq::empty())
}

/// The modifier invocations among a function's attributes, each a word of
/// what is left once the keywords are taken out (`parse_modifiers`).
pub open spec fn modifiers_s(attributes: Seq<char>) -> Seq<ExprV> {
    let adjusted = replace_seq(trim_spec(strip_keywords(attributes)), ", "@, ","@);
    if adjusted.len() == 0 {
        Seq::empty()
    } else {
        split_seq(adjusted, " "@).map_values(|m: Seq<char>| ExprV::Modifier(m))
    }
}

/// Reads the parameters of a function (`parse_function_parameters`).
pub fn parse_function_parameters(parameters: &Vec<char>, imports: &mut Vec<String>) -> (r: Vec<FunctionParam>)
    ensures
        no_duplicates(strings_view(old(imports)@)) ==> no_duplicates(strings_view(final(imports)@)),
        (params_v(r@), strings_view(final(imports)@)) == params_s(parameters@, strings_view(old(imports)@)),
{
    let mut out: Vec<FunctionParam> = Vec::new();
    assert(params_v(out@) =~= Seq::<ParamV>::empty());
    if parameters.len() == 0 {
        return out;
    }
    let st = text(parameters);
    let no_commas = remove_commas();
    let ghost f = no_commas;
    let map_maybe = Some(no_commas);
    assert(map_maybe matches Some(g) && g == f);
    let tokens = split(st.as_str(), " ", map_maybe);
    let ghost tv = strings_view(tokens@);
    assert(tv =~= param_words(parameters@)) by {
        let ps = split_seq(parameters@, " "@);
        assert(st@ == parameters@);
        assert forall|i: int| 0 <= i < tv.len() implies tv[i] == without_commas(ps[i]) by {
            assert(0 <= i < tokens@.len());
            assert(maps_to(f, split_seq(st@, " "@)[i], tokens@[i]));
            let t = choose|t: &str| t@ == ps[i] && #[trigger] call_ensures(f, (t,), tokens@[i]);
        }
    }
    proof {
        lemma_split_nonempty(parameters@, " "@);
    }
    let mut param_type = convert_variable_type(&piece_at(&tokens, 0), imports);
    let mut expect_type = false;
    let ghost total = params_loop(
        tv.drop_first(),
        ParamScan { params: Seq::empty(), param_type: param_type@, expect_type: false, imports: strings_view(imports@) },
    );
    let mut i: usize = 1;
    assert(tv.drop_first() =~= tv.subrange(1, tv.len() as int));
    while i < tokens.len()
        invariant
            no_duplicates(strings_view(old(imports)@)) ==> no_duplicates(strings_view(imports@)),
            1 <= i <= tokens.len(),
            tv == strings_view(tokens@),
            params_loop(
                tv.subrange(i as int, tv.len() as int),
                ParamScan { params: params_v(out@), param_type: param_type@, expect_type, imports: strings_view(imports@) },
            ) == total,
        decreases tokens.len() - i,
    {
        let ghost rest = tv.subrange(i as int, tv.len() as int);
        assert(rest[0] == tv[i as int]);
        assert(rest.drop_first() =~= tv.subrange(i + 1, tv.len() as int));
        let token = chars_of_string(&tokens[i]);
        if expect_type {
            param_type = convert_variable_type(&token, imports);
            expect_type = false;
        } else {
            let p = FunctionParam { name: text(&token), param_type: text(&param_type) };
            let ghost before = out@;
            out.push(p);
            assert(params_v(out@) =~= params_v(before).push(param_v(p)));
            expect_type = true;
        }
        i = i + 1;
    }
    assert(tv.subrange(i as int, tv.len() as int) =~= Seq::<Seq<char>>::empty());
    out
}

fn count_commas(s: &Vec<char>) -> (r: usize)
    ensures
        r == count_char(s@, ','),
{
    let mut n: usize = 0;
    let mut i: usize = s.len();
    assert(s@.subrange(s@.len() as int, s@.len() as int) =~= Seq::<char>::empty());
    while i > 0
        invariant
            i <= s.len(),
            n <= s.len() - i,
            n == count_char(s@.subrange(i as int, s@.len() as int), ','),
        decreases i,
    {
        let ghost tail = s@.subrange(i as int, s@.len() as int);
        i = i - 1;
        assert(s@.subrange(i as int, s@.len() as int).drop_first() =~= tail);
        if s[i] == ',' {
            n = n + 1;
        }
    }
    assert(s@.subrange(0, s@.len() as int) =~= s@);
    n
}

/// Reads the return parameters of a function (`parse_return_parameters`).
pub fn parse_return_parameters(parameters: &Vec<char>, imports: &mut Vec<String>) -> (r: Vec<FunctionParam>)
    ensures
        no_duplicates(strings_view(old(imports)@)) ==> no_duplicates(strings_view(final(imports)@)),
        (params_v(r@), strings_view(final(imports)@)) == return_params_s(parameters@, strings_view(old(imports)@)),
{
    let tokens = split_chars(parameters, " ");
    let ghost tv = strings_view(tokens@);
    let commas = count_commas(parameters);
    let named: bool = if commas < usize::MAX / 2 {
        tokens.len() >= (commas + 1) * 2
    } else {
        false
    };
    proof {
        if commas >= usize::MAX / 2 {
            assert(tokens.len() < (count_char(parameters@, ',') + 1) * 2);
        }
    }
    let mut out: Vec<FunctionParam> = Vec::new();
    assert(params_v(out@) =~= Seq::<ParamV>::empty());
    let ghost total = return_loop(tv, named, Seq::empty(), strings_view(imports@));
    assert(tv.subrange(0, tv.len() as int) =~= tv);
    let mut i: usize = 0;
    while i < tokens.len()
        invariant
            no_duplicates(strings_view(old(imports)@)) ==> no_duplicates(strings_view(imports@)),
            i <= tokens.len(),
            tv == strings_view(tokens@),
            return_loop(tv.subrange(i as int, tv.len() as int), named, params_v(out@), strings_view(imports@)) == total,
        decreases tokens.len() - i,
    {
        let ghost rest = tv.subrange(i as int, tv.len() as int);
        assert(rest[0] == tv[i as int]);
        proof {
            reveal_strlit(",");
            reveal_strlit("");
            reveal_strlit("_");
            assert(","@ =~= seq![',']);
            assert(""@ =~= Seq::<char>::empty());
        }
        let raw = replace_str(&chars_of_string(&tokens[i]), ",", "");
        let param_type = convert_variable_type(&raw, imports);
        let name = if named {
            let n = replace_str(&piece_at(&tokens, i + 1), ",", "");
            assert(piece(rest, 1) == piece(tv, i + 1));
            if i + 1 < tokens.len() {
                assert(rest.subrange(2, rest.len() as int) =~= tv.subrange(i + 2, tv.len() as int));
                i = i + 2;
            } else {
                assert(tv.subrange(i + 1, tv.len() as int) =~= Seq::<Seq<char>>::empty());
                i = i + 1;
            }
            n
        } else {
            assert(rest.drop_first() =~= tv.subrange(i + 1, tv.len() as int));
            i = i + 1;
            lit("_")
        };
        let p = FunctionParam { name: text(&name), param_type: text(&param_type) };
        let ghost before = out@;
        out.push(p);
        assert(params_v(out@) =~= params_v(before).push(param_v(p)));
    }
    assert(tv.subrange(i as int, tv.len() as int) =~= Seq::<Seq<char>>::empty());
    out
}

/// Whether a function is external, view and payable (`parse_function_attributes`).
pub fn parse_function_attributes(attributes: &Vec<char>) -> (r: (bool, bool, bool))
    ensures
        r == attributes_s(attributes@),
{
    let external = contains_str(attributes, "external") || contains_str(attributes, "public");
    let view = contains_str(attributes, "view") || contains_str(attributes, "pure");
    let payable = contains_str(attributes, "payable");
    (external, view, payable)
}

fn strip_word(s: &Vec<char>, word: &str) -> (r: Vec<char>)
    requires
        word@.len() > 0,
    ensures
        r@ == replace_seq(s@, word@, Seq::empty()),
{
    proof {
        reveal_strlit("");
        assert(""@ =~= Seq::<char>::empty());
    }
    replace_str(s, word, "")
}

/// The modifier invocations among a function's attributes (`parse_modifiers`).
pub fn parse_modifiers(attributes: &Vec<char>) -> (r: Vec<Expression>)
    ensures
        exprs_v(r@) == modifiers_s(attributes@),
{
    proof {
        reveal_strlit("payable");
        reveal_strlit("external");
        reveal_strlit("internal");
        reveal_strlit("virtual");
        reveal_strlit("override");
        reveal_strlit("public");
        reveal_strlit("private");
        reveal_strlit("view");
        reveal_strlit("pure");
        reveal_strlit(", ");
    }
    let a1 = strip_word(attributes, "payable");
    let a2 = strip_word(&a1, "external");
    let a3 = strip_word(&a2, "internal");
    let a4 = strip_word(&a3, "virtual");
    let a5 = strip_word(&a4, "override");
    let a6 = strip_word(&a5, "public");
    let a7 = strip_word(&a6, "private");
    let a8 = strip_word(&a7, "view");
    let a9 = strip_word(&a8, "pure");
    let trimmed = collapse_and_trim(&a9);
    let adjusted = replace_str(&trimmed, ", ", ",");
    let mut out: Vec<Expression> = Vec::new();
    assert(exprs_v(out@) =~= Seq::<ExprV>::empty());
    if adjusted.len() == 0 {
        return out;
    }
    let words = split_chars(&adjusted, " ");
    let ghost wv = strings_view(words@);
    let mut i: usize = 0;
    while i < words.len()
        invariant
            i <= words.len(),
            wv == strings_view(words@),
            exprs_v(out@) == wv.subrange(0, i as int).map_values(|m: Seq<char>| ExprV::Modifier(m)),
        decreases words.len() - i,
    {
        let e = Expression::Modifier(words[i].clone());
        let ghost before = out@;
        out.push(e);
        proof {
            crate::model::lemma_exprs_v_push(before, e);
            assert(wv.subrange(0, i + 1).map_values(|m: Seq<char>| ExprV::Modifier(m)) =~= wv.subrange(
                0,
                i as int,
            ).map_values(|m: Seq<char>| ExprV::Modifier(m)).push(ExprV::Modifier(wv[i as int])));
        }
        i = i + 1;
    }
    assert(wv.subrange(0, wv.len() as int) =~= wv);
    out
}

pub struct HeaderV {
    pub name: Seq<char>,
    pub params: Seq<ParamV>,
    pub external: bool,
    pub view: bool,
    pub payable: bool,
    pub return_params: Seq<ParamV>,
    pub comments: Seq<Seq<char>>,
    pub modifiers: Seq<ExprV>,
}

pub open spec fn header_view(h: FunctionHeader) -> HeaderV {
    HeaderV {
        name: h.name@,
        params: params_v(h.params@),
        external: h.external,
        view: h.view,
        payable: h.payable,
        return_params: params_v(h.return_params@),
        comments: strings_view(h.comments@),
        modifiers: exprs_v(h.modifiers@),
    }
}

/// The header text without the data locations.
pub open spec fn header_text(raw: Seq<char>) -> Seq<char> {
    replace_seq(
        replace_seq(replace_seq(raw, " memory"@, Seq::empty()), " storage"@, Seq::empty()),
        " calldata"@,
        Seq::empty(),
    )
}

/// A function header read after `function` up to its `;` or `{`: name,
/// parameters, attributes, return parameters and modifier invocations, the
/// imports, and the input after the `;` or `{` (`parse_function_header`).
pub open spec fn header_s(input: Seq<char>, imports: Imports, comments: Seq<Seq<char>>) -> (
    HeaderV,
    Imports,
    Seq<char>,
) {
    let (raw0, rest) = read_until_s(input, seq![';', '{']);
    let raw = header_text(raw0);
    let (external, view, payable) = attributes_s(raw);
    match regex_group(FUNCTION_WITH_RETURN@, raw, "return_parameters"@) {
        Some(rp) => {
            let (params, imp1) = params_s(group_or_empty(FUNCTION_WITH_RETURN@, raw, "parameters"@), imports);
            let (outputs, imp2) = return_params_s(rp, imp1);
            (
                HeaderV {
                    name: group_or_empty(FUNCTION_WITH_RETURN@, raw, "function_name"@),
                    params,
                    external,
                    view,
                    payable,
                    return_params: outputs,
                    comments,
                    modifiers: modifiers_s(group_or_empty(FUNCTION_WITH_RETURN@, raw, "attributes"@)),
                },
                imp2,
                rest,
            )
        },
        None => {
            let (params, imp1) = params_s(group_or_empty(FUNCTION_NO_RETURN@, raw, "parameters"@), imports);
            (
                HeaderV {
                    name: group_or_empty(FUNCTION_NO_RETURN@, raw, "function_name"@),
                    params,
                    external,
                    view,
                    payable,
                    return_params: Seq::empty(),
                    comments,
                    modifiers: modifiers_s(group_or_empty(FUNCTION_NO_RETURN@, raw, "attributes"@)),
                },
                imp1,
                rest,
            )
        },
    }
}

/// Reads a function header (`parse_function_header`).
pub fn parse_function_header(chars: &mut CharStream, imports: &mut Vec<String>, comments: &Vec<String>) -> (r: FunctionHeader)
    ensures
        no_duplicates(strings_view(old(imports)@)) ==> no_duplicates(strings_view(final(imports)@)),
        (header_view(r), strings_view(final(imports)@), final(chars)@) == header_s(
            old(chars)@,
            strings_view(old(imports)@),
            strings_view(comments@),
        ),
        final(chars)@.len() <= old(chars)@.len(),
{
    let mut ends: Vec<char> = Vec::new();
    ends.push(';');
    ends.push('{');
    assert(ends@ =~= seq![';', '{']);
    let raw0 = read_until(chars, &ends);
    proof {
        reveal_strlit(" memory");
        reveal_strlit(" storage");
        reveal_strlit(" calldata");
    }
    let raw = strip_word(&strip_word(&strip_word(&raw0, " memory"), " storage"), " calldata");
    let (external, view, payable) = parse_function_attributes(&raw);
    match capture(FUNCTION_WITH_RETURN, &raw, "return_parameters") {
        Some(rp) => {
            let name = capture_or_empty(FUNCTION_WITH_RETURN, &raw, "function_name");
            let params_raw = capture_or_empty(FUNCTION_WITH_RETURN, &raw, "parameters");
            let params = parse_function_parameters(&params_raw, imports);
            let return_params = parse_return_parameters(&rp, imports);
            let attributes = capture_or_empty(FUNCTION_WITH_RETURN, &raw, "attributes");
            FunctionHeader {
                name: text(&name),
                params,
                external,
                view,
                payable,
                return_params,
                comments: copy_strings(comments),
                modifiers: parse_modifiers(&attributes),
            }
        },
        None => {
            let name = capture_or_empty(FUNCTION_NO_RETURN, &raw, "function_name");
            let params_raw = capture_or_empty(FUNCTION_NO_RETURN, &raw, "parameters");
            let attributes = capture_or_empty(FUNCTION_NO_RETURN, &raw, "attributes");
            let params = parse_function_parameters(&params_raw, imports);
            let return_params: Vec<FunctionParam> = Vec::new();
            assert(params_v(return_params@) =~= Seq::<ParamV>::empty());
            FunctionHeader {
                name: text(&name),
                params,
                external,
                view,
                payable,
                return_params,
                comments: copy_strings(comments),
                modifiers: parse_modifiers(&attributes),
            }
        },
    }
}

/// A function as read from the source: its header and the raw statements of
/// its body.
pub struct RawFunctionV {
    pub header: HeaderV,
    pub lines: Lines,
}

/// A function read after its keyword: the header, then the body after the
/// header's `{` (`parse_function`).
pub open spec fn function_s(input: Seq<char>, imports: Imports, comments: Seq<Seq<char>>) -> (
    RawFunctionV,
    Imports,
    Seq<char>,
) {
    let (h, imp, rest1) = header_s(input, imports, comments);
    let (body, rest2) = body_loop(rest1, body_start());
    (RawFunctionV { header: h, lines: raw_lines(body) }, imp, rest2)
}

/// Reads a function after its keyword (`parse_function`).
pub fn parse_function(imports: &mut Vec<String>, chars: &mut CharStream, comments: &Vec<String>) -> (r: Function)
    ensures
        no_duplicates(strings_view(old(imports)@)) ==> no_duplicates(strings_view(final(imports)@)),
        ({
            let (f, imp, rest) = function_s(old(chars)@, strings_view(old(imports)@), strings_view(comments@));
            &&& header_view(r.header) == f.header
            &&& lines_v(r.body@) == f.lines
            &&& strings_view(final(imports)@) == imp
            &&& final(chars)@ == rest
        }),
        final(chars)@.len() <= old(chars)@.len(),
{
    let header = parse_function_header(chars, imports, comments);
    let body = parse_body(chars);
    Function { header, body }
}

/// The imports that a modifier needs.
pub open spec fn modifier_imports(imports: Imports) -> Imports {
    add_import(add_import(imports, "use brush::modifier_definition;"@), "use brush::modifiers;"@)
}

/// Reads a modifier after the keyword `modifier` (`parse_modifier`).
pub fn parse_modifier(imports: &mut Vec<String>, chars: &mut CharStream, comments: &Vec<String>) -> (r: Modifier)
    ensures
        no_duplicates(strings_view(old(imports)@)) ==> no_duplicates(strings_view(final(imports)@)),
        ({
            let (f, imp, rest) = function_s(
                old(chars)@,
                modifier_imports(strings_view(old(imports)@)),
                strings_view(comments@),
            );
            &&& header_view(r.header) == f.header
            &&& lines_v(r.statements@) == f.lines
            &&& strings_view(r.comments@) == strings_view(comments@)
            &&& strings_view(final(imports)@) == imp
            &&& final(chars)@ == rest
        }),
        final(chars)@.len() <= old(chars)@.len(),
{
    insert_import(imports, "use brush::modifier_definition;");
    insert_import(imports, "use brush::modifiers;");
    let header = parse_function_header(chars, imports, comments);
    let statements = parse_body(chars);
    Modifier { header, statements, comments: copy_strings(comments) }
}

pub struct FieldV {
    pub field_type: Seq<char>,
    pub name: Seq<char>,
    pub comments: Seq<Seq<char>>,
    pub initial_value: Option<ExprV>,
    pub constant: bool,
}

pub open spec fn field_view(f: ContractField) -> FieldV {
    FieldV {
        field_type: f.field_type@,
        name: f.name@,
        comments: strings_view(f.comments@),
        initial_value: match f.initial_value {
            Some(e) => Some(expr_v(e)),
            None => None,
        },
        constant: f.constant,
    }
}

/// The declaration text with the spaces around `=>` and lone parentheses
/// taken out.
pub open spec fn field_text(raw: Seq<char>) -> Seq<char> {
    replace_seq(replace_seq(replace_seq(raw, " => "@, "=>"@), " ( "@, "("@), " ) "@, ")"@)
}

/// A state variable `type [attributes] name [= value];`: the converted type,
/// the name, the initial value parsed with nothing known of the contract,
/// and whether it is `constant` (`parse_contract_field`).
pub open spec fn contract_field_s(line_raw: Seq<char>, imports: Imports, comments: Seq<Seq<char>>) -> (
    FieldV,
    Imports,
) {
    let line = field_text(line_raw);
    let attributes = group_or_empty(CONTRACT_FIELD@, line, "attributes"@);
    let initial_value = match regex_group(CONTRACT_FIELD@, line, "initial_value"@) {
        Some(v) => Some(member_s(v, false, empty_scope_v(), Seq::empty(), Seq::empty(), usize::MAX as nat).0),
        None => None,
    };
    let (field_type, imp) = convert_variable_type_spec(group_or_empty(CONTRACT_FIELD@, line, "field_type"@), imports);
    (
        FieldV {
            field_type,
            name: group_or_empty(CONTRACT_FIELD@, line, "field_name"@),
            comments,
            initial_value,
            constant: has_infix(attributes, "constant"@),
        },
        imp,
    )
}

/// Reads a state variable declaration (`parse_contract_field`).
pub fn parse_contract_field(line_raw: &Vec<char>, imports: &mut Vec<String>, comments: &Vec<String>) -> (r: ContractField)
    ensures
        no_duplicates(strings_view(old(imports)@)) ==> no_duplicates(strings_view(final(imports)@)),
        (field_view(r), strings_view(final(imports)@)) == contract_field_s(
            line_raw@,
            strings_view(old(imports)@),
            strings_view(comments@),
        ),
{
    proof {
        reveal_strlit(" => ");
        reveal_strlit(" ( ");
        reveal_strlit(" ) ");
    }
    let line = replace_str(&replace_str(&replace_str(line_raw, " => ", "=>"), " ( ", "("), " ) ", ")");
    let field_type_raw = capture_or_empty(CONTRACT_FIELD, &line, "field_type");
    let attributes = capture_or_empty(CONTRACT_FIELD, &line, "attributes");
    let field_name = capture_or_empty(CONTRACT_FIELD, &line, "field_name");
    let initial_value = match capture(CONTRACT_FIELD, &line, "initial_value") {
        Some(v) => {
            let scope = empty_scope();
            let mut discarded: Vec<String> = Vec::new();
            let no_enclosed: Vec<(String, Expression)> = Vec::new();
            assert(enc_v(no_enclosed@) =~= Seq::<(Seq<char>, ExprV)>::empty());
            assert(strings_view(discarded@) =~= Seq::<Seq<char>>::empty());
            Some(parse_member_fuel(&v, false, &scope, &mut discarded, &no_enclosed, usize::MAX))
        },
        None => None,
    };
    let constant = contains_str(&attributes, "constant");
    let field_type = convert_variable_type(&field_type_raw, imports);
    ContractField {
        field_type: text(&field_type),
        name: text(&field_name),
        comments: copy_strings(comments),
        initial_value,
        constant,
    }
}

} // verus!

verus! {

/// A function is read-only exactly when its attributes say `view` or
/// `pure`; it is external exactly when they say `external` or `public`, and
/// payable exactly when they say `payable`.
pub proof fn lemma_attribute_flags(a: Seq<char>)
    ensures
        attributes_s(a).0 <==> (has_infix(a, "external"@) || has_infix(a, "public"@)),
        attributes_s(a).1 <==> (has_infix(a, "view"@) || has_infix(a, "pure"@)),
        has_infix(a, "pure"@) ==> attributes_s(a).1,
        attributes_s(a).2 <==> has_infix(a, "payable"@),
{
}

/// A parsed header is read-only exactly when its text, up to the body or the
/// `;`, contains `view` or `pure`.
pub proof fn lemma_header_view(input: Seq<char>, imports: Imports, comments: Seq<Seq<char>>)
    ensures
        ({
            let raw = header_text(read_until_s(input, seq![';', '{']).0);
            header_s(input, imports, comments).0.view <==> (has_infix(raw, "view"@) || has_infix(raw, "pure"@))
        }),
{
}

/// A state variable keeps its initial value whatever its attributes: it has
/// one exactly when the declaration has `= value`, and it is that value
/// parsed with nothing known of the contract.
pub proof fn lemma_field_initial_value(line_raw: Seq<char>, imports: Imports, comments: Seq<Seq<char>>)
    ensures
        ({
            let line = field_text(line_raw);
            let f = contract_field_s(line_raw, imports, comments).0;
            &&& (f.initial_value is Some <==> regex_group(CONTRACT_FIELD@, line, "initial_value"@) is Some)
            &&& (regex_group(CONTRACT_FIELD@, line, "initial_value"@) matches Some(v) ==> f.initial_value == Some(
                member_s(v, false, empty_scope_v(), Seq::empty(), Seq::empty(), usize::MAX as nat).0,
            ))
        }),
{
}

} // verus!
