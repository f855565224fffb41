use sol2ink::cursor::CharStream;
use sol2ink::formatter::{remove_commas, split, trim};
use sol2ink::expressions::parse_member;
use sol2ink::parser::{parse_file, parse_interface, ParserError};
use sol2ink::scope::Scope;
use sol2ink::shape::{function_shape, header_shape};
use sol2ink::statement_parser::parse_statements;
use sol2ink::structures::{
    Condition, Event, EventField, Expression, FunctionHeader, FunctionParam, Operation, Statement,
};

fn no_map() -> Option<fn(&str) -> String> {
    None
}

fn raw(lines: &[&str]) -> Vec<Statement> {
    lines.iter().map(|l| Statement::Raw(l.to_string())).collect()
}

fn empty_scope() -> Scope {
    Scope {
        storage: Vec::new(),
        functions: Vec::new(),
        events: Vec::new(),
        structs: Vec::new(),
    }
}

#[test]
fn negate_pairs() {
    assert_eq!(Operation::Equal.negate(), Operation::NotEqual);
    assert_eq!(Operation::NotEqual.negate(), Operation::Equal);
    assert_eq!(Operation::LessThan.negate(), Operation::GreaterThanEqual);
    assert_eq!(Operation::GreaterThan.negate(), Operation::LessThanEqual);
    assert_eq!(Operation::LogicalAnd.negate(), Operation::LogicalOr);
    assert_eq!(Operation::BitwiseOr.negate(), Operation::BitwiseAnd);
    assert_eq!(Operation::Not.negate(), Operation::True);
    assert_eq!(Operation::True.negate(), Operation::Not);
    assert_eq!(Operation::Add.negate(), Operation::Not);
}

#[test]
fn negate_twice_gives_back_pairs() {
    for op in [
        Operation::Equal,
        Operation::NotEqual,
        Operation::LessThan,
        Operation::LessThanEqual,
        Operation::GreaterThan,
        Operation::GreaterThanEqual,
        Operation::LogicalAnd,
        Operation::LogicalOr,
        Operation::BitwiseAnd,
        Operation::BitwiseOr,
    ] {
        assert_eq!(op.negate().negate(), op);
    }
}

#[test]
fn split_by_space() {
    assert_eq!(split("a b c", " ", no_map()), vec!["a", "b", "c"]);
    assert_eq!(split("a  b", " ", no_map()), vec!["a", "", "b"]);
    assert_eq!(split("", " ", no_map()), vec![""]);
    assert_eq!(split("ab", "", no_map()), vec!["", "a", "b", ""]);
}

#[test]
fn split_removing_commas() {
    assert_eq!(
        split("uint a, address b", " ", Some(remove_commas())),
        vec!["uint", "a", "address", "b"]
    );
    assert_eq!(split("a,,b c", " ", Some(remove_commas())), vec!["ab", "c"]);
}

#[test]
fn trim_collapses_whitespace() {
    assert_eq!(trim("  hello   world \n "), "hello world");
    assert_eq!(trim("a\t\tb"), "a b");
    assert_eq!(trim("   "), "");
}

#[test]
fn empty_file_holds_nothing() {
    assert_eq!(parse_file(String::new()), Ok((None, None)));
    assert_eq!(
        parse_file(String::from("// SPDX-License-Identifier: MIT\npragma solidity ^0.8.0;\n")),
        Ok((None, None))
    );
}

#[test]
fn library_is_refused() {
    assert_eq!(
        parse_file(String::from("pragma solidity ^0.8.0;\nlibrary SafeMath {\n}\n")),
        Err(ParserError::LibraryParsingNotImplemented)
    );
}

#[test]
fn interface_header() {
    let source = "interface IToken {\n    function totalSupply() external view returns (uint256);\n}\n";
    let (contract, interface) = parse_file(String::from(source)).unwrap();
    assert!(contract.is_none());
    let interface = interface.unwrap();
    assert_eq!(interface.name, "Token");
    assert_eq!(interface.function_headers.len(), 1);
    let header = &interface.function_headers[0];
    assert_eq!(header.name, "totalSupply");
    assert!(header.params.is_empty());
    assert!(header.external);
    assert!(header.view);
    assert!(!header.payable);
    assert_eq!(
        header.return_params,
        vec![FunctionParam {
            name: String::from("_"),
            param_type: String::from("u128"),
        }]
    );
    assert!(header.modifiers.is_empty());
}

#[test]
fn interface_from_stream() {
    let mut chars = CharStream::new(" IOwned {\n    function owner() external view returns (address);\n}\n");
    let interface = parse_interface(&mut chars, vec![String::from("doc")]).unwrap();
    assert_eq!(interface.name, "Owned");
    assert_eq!(interface.comments, vec![String::from("doc")]);
    assert_eq!(interface.function_headers[0].return_params[0].param_type, "AccountId");
}

#[test]
fn contract_fields_and_event() {
    let source = "contract Counter {\n    uint256 public count;\n    event Incremented(address indexed by, uint8 value);\n}\n";
    let (contract, interface) = parse_file(String::from(source)).unwrap();
    assert!(interface.is_none());
    let contract = contract.unwrap();
    assert_eq!(contract.name, "Counter");
    assert_eq!(contract.fields.len(), 1);
    assert_eq!(contract.fields[0].name, "count");
    assert_eq!(contract.fields[0].field_type, "u128");
    assert!(!contract.fields[0].constant);
    assert_eq!(contract.fields[0].initial_value, None);
    assert_eq!(
        contract.events,
        vec![Event {
            name: String::from("Incremented"),
            fields: vec![
                EventField {
                    indexed: true,
                    field_type: String::from("AccountId"),
                    name: String::from("by"),
                },
                EventField {
                    indexed: false,
                    field_type: String::from("u8"),
                    name: String::from("value"),
                },
            ],
            comments: Vec::new(),
        }]
    );
}

#[test]
fn return_statement_reads_storage() {
    let mut scope = empty_scope();
    scope.storage.push(String::from("count"));
    let mut imports = Vec::new();
    let out = parse_statements(&raw(&["return count;", "return other;"]), &scope, &mut imports, false);
    assert_eq!(
        out,
        vec![
            Statement::Return(Expression::Member(String::from("count"), Some(String::from("self")))),
            Statement::Return(Expression::Member(String::from("other"), None)),
        ]
    );
    assert!(imports.is_empty());
}

#[test]
fn require_is_inverted() {
    let scope = empty_scope();
    let mut imports = Vec::new();
    let out = parse_statements(&raw(&["require(a == b, \"bad\");"]), &scope, &mut imports, false);
    assert_eq!(
        out,
        vec![Statement::Require(
            Condition {
                left: Expression::Member(String::from("a"), None),
                operation: Operation::NotEqual,
                right: Some(Expression::Member(String::from("b"), None)),
            },
            String::from("return Err(Error::Custom(String::from(\"bad\")))"),
        )]
    );
    assert_eq!(imports, vec![String::from("use ink::prelude::string::String;")]);
}

#[test]
fn require_in_constructor_panics() {
    let scope = empty_scope();
    let mut imports = Vec::new();
    let out = parse_statements(&raw(&["require(ready);"]), &scope, &mut imports, true);
    assert_eq!(
        out,
        vec![Statement::Require(
            Condition {
                left: Expression::Member(String::from("ready"), None),
                operation: Operation::Not,
                right: None,
            },
            String::from("panic!(\"SMART CONTRACTZ MAKE PANIC BEEP BEEP BEEP\")"),
        )]
    );
}

#[test]
fn if_block_collects_statements() {
    let scope = empty_scope();
    let mut imports = Vec::new();
    let out = parse_statements(
        &raw(&["if (a > b) {", "return a;", "}", "return b;"]),
        &scope,
        &mut imports,
        false,
    );
    assert_eq!(
        out,
        vec![
            Statement::If(
                Condition {
                    left: Expression::Member(String::from("a"), None),
                    operation: Operation::GreaterThan,
                    right: Some(Expression::Member(String::from("b"), None)),
                },
                vec![Statement::Return(Expression::Member(String::from("a"), None))],
            ),
            Statement::Return(Expression::Member(String::from("b"), None)),
        ]
    );
}

#[test]
fn unknown_statement_is_kept_as_comment() {
    let scope = empty_scope();
    let mut imports = Vec::new();
    let out = parse_statements(&raw(&["}"]), &scope, &mut imports, false);
    assert_eq!(
        out,
        vec![Statement::Comment(String::from("Sol2Ink Not Implemented yet End Block here"))]
    );
}

#[test]
fn modifier_body_marker() {
    let scope = empty_scope();
    let mut imports = Vec::new();
    let out = parse_statements(&raw(&["_;"]), &scope, &mut imports, false);
    assert_eq!(out, vec![Statement::ModifierBody]);
}

#[test]
fn split_then_join_gives_back_the_text() {
    for (text, sep) in [("a b  c", " "), ("x=>y=>z", "=>"), ("", ";"), (";;", ";")] {
        assert_eq!(split(text, sep, no_map()).join(sep), text);
    }
}

#[test]
fn commas_removed_once_for_all() {
    let once = split("a,b, c,,d", " ", Some(remove_commas()));
    assert_eq!(once, vec!["ab", "cd"]);
    for piece in once.iter() {
        assert!(!piece.contains(','));
        assert_eq!(split(piece, " ", Some(remove_commas())), vec![piece.clone()]);
    }
}

#[test]
fn integer_widths_round_up() {
    let source = "contract Widths {\n    uint8 a;\n    uint24 b;\n    int64 c;\n    uint d;\n    int200 e;\n}\n";
    let contract = parse_file(String::from(source)).unwrap().0.unwrap();
    let types: Vec<String> = contract.fields.iter().map(|f| f.field_type.clone()).collect();
    assert_eq!(types, vec!["u8", "u32", "i64", "u128", "i128"]);
}

#[test]
fn mapping_field_and_imports_once() {
    let source = "contract Token {\n    mapping(address => uint256) public balances;\n    address owner;\n    address admin;\n}\n";
    let contract = parse_file(String::from(source)).unwrap().0.unwrap();
    assert_eq!(contract.fields[0].name, "balances");
    assert_eq!(contract.fields[0].field_type, "Mapping<AccountId, u128>");
    assert_eq!(contract.fields[1].field_type, "AccountId");
    assert_eq!(contract.fields[2].field_type, "AccountId");
    assert_eq!(
        contract.imports,
        vec![
            String::from("use ink_storage::Mapping;\n"),
            String::from("use brush::traits::AccountId;\n"),
        ]
    );
}

#[test]
fn constant_field_with_value() {
    let source = "contract C {\n    uint256 public constant LIMIT = 10;\n}\n";
    let contract = parse_file(String::from(source)).unwrap().0.unwrap();
    assert_eq!(contract.fields[0].name, "LIMIT");
    assert!(contract.fields[0].constant);
    assert_eq!(contract.fields[0].initial_value, Some(Expression::Literal(String::from("10"))));
}

#[test]
fn contract_function_and_modifier() {
    let source = "// the counter\ncontract Counter {\n    uint256 public count;\n    modifier onlyOwner() {\n        require(msg.sender == owner);\n        _;\n    }\n    function increment(uint256 amount) public onlyOwner() {\n        count += amount;\n    }\n}\n";
    let contract = parse_file(String::from(source)).unwrap().0.unwrap();
    assert_eq!(contract.contract_doc, vec![String::from("the counter")]);
    assert_eq!(contract.functions.len(), 1);
    let function = &contract.functions[0];
    assert_eq!(function.header.name, "increment");
    assert_eq!(
        function.header.params,
        vec![FunctionParam {
            name: String::from("amount"),
            param_type: String::from("u128"),
        }]
    );
    assert!(function.header.external);
    assert!(!function.header.view);
    assert_eq!(function.header.modifiers.len(), 1);
    assert_eq!(
        function.body,
        vec![Statement::Assign(
            Expression::Member(String::from("count"), Some(String::from("self"))),
            Expression::Member(String::from("amount"), None),
            Operation::AddAssign,
        )]
    );
    assert_eq!(contract.modifiers.len(), 1);
    assert_eq!(contract.modifiers[0].header.name, "onlyOwner");
    assert_eq!(
        contract.modifiers[0].statements,
        vec![
            Statement::Require(
                Condition {
                    left: Expression::EnvCaller(Some(String::from("self"))),
                    operation: Operation::NotEqual,
                    right: Some(Expression::Member(String::from("owner"), None)),
                },
                String::from("return Err(Error::Custom(String::from(\"SMART CONTRACTZ MAKE PANIC BEEP BEEP BEEP\")))"),
            ),
            Statement::ModifierBody,
        ]
    );
    for import in [
        "use brush::modifier_definition;",
        "use brush::modifiers;",
        "use ink::prelude::string::String;",
        "use ink_lang::codegen::Env;",
    ] {
        assert_eq!(contract.imports.iter().filter(|i| i.as_str() == import).count(), 1);
    }
}

#[test]
fn assignments_and_increments() {
    let mut scope = empty_scope();
    scope.storage.push(String::from("count"));
    let mut imports = Vec::new();
    let out = parse_statements(&raw(&["x = 5;", "count += 1;", "i++;"]), &scope, &mut imports, false);
    assert_eq!(
        out,
        vec![
            Statement::Assign(
                Expression::Member(String::from("x"), None),
                Expression::Literal(String::from("5")),
                Operation::Assign,
            ),
            Statement::Assign(
                Expression::Member(String::from("count"), Some(String::from("self"))),
                Expression::Literal(String::from("1")),
                Operation::AddAssign,
            ),
            Statement::Assign(
                Expression::Member(String::from("i"), None),
                Expression::Literal(String::from("1")),
                Operation::AddAssign,
            ),
        ]
    );
}

#[test]
fn emit_names_the_event_fields() {
    let mut scope = empty_scope();
    scope.events.push(Event {
        name: String::from("Ping"),
        fields: vec![
            EventField {
                indexed: false,
                field_type: String::from("u8"),
                name: String::from("first"),
            },
            EventField {
                indexed: false,
                field_type: String::from("u8"),
                name: String::from("second"),
            },
        ],
        comments: Vec::new(),
    });
    let mut imports = Vec::new();
    let out = parse_statements(&raw(&["emit Ping(1, 2);"]), &scope, &mut imports, false);
    assert_eq!(
        out,
        vec![Statement::Emit(
            String::from("Ping"),
            vec![
                Expression::StructArg(String::from("first"), Box::new(Expression::Literal(String::from("1")))),
                Expression::StructArg(String::from("second"), Box::new(Expression::Literal(String::from("2")))),
            ],
        )]
    );
    assert_eq!(imports, vec![String::from("use ink_lang::codegen::EmitEvent;")]);
}

#[test]
fn block_end_is_not_kept_in_the_block() {
    let scope = empty_scope();
    let mut imports = Vec::new();
    let out = parse_statements(
        &raw(&["while (i < n) {", "i++;", "}"]),
        &scope,
        &mut imports,
        false,
    );
    assert_eq!(out.len(), 1);
    match &out[0] {
        Statement::While(None, _, None, statements) => {
            assert_eq!(statements.len(), 1);
            assert!(!statements.contains(&Statement::WhileEnd));
        }
        other => panic!("unexpected {:?}", other),
    }
}

#[test]
fn assembly_lines_become_comments() {
    let scope = empty_scope();
    let mut imports = Vec::new();
    let out = parse_statements(
        &raw(&["assembly {", "  let x := 1  ", "}"]),
        &scope,
        &mut imports,
        false,
    );
    assert_eq!(
        out,
        vec![Statement::Assembly(vec![
            Statement::Comment(String::from("Please handle assembly blocks manually >>>")),
            Statement::Comment(String::from("let x := 1")),
            Statement::AssemblyEnd,
            Statement::Comment(String::from("<<< Please handle assembly blocks manually")),
        ])]
    );
}

#[test]
fn interface_enum_and_struct() {
    let source = "/* the token */\ninterface IShop {\n    enum Kind { Small, Large }\n    struct Item { uint8 price; address seller; }\n}\n";
    let interface = parse_file(String::from(source)).unwrap().1.unwrap();
    assert_eq!(interface.name, "Shop");
    assert_eq!(interface.comments, vec![String::from(" the token *")]);
    assert_eq!(interface.enums.len(), 1);
    assert_eq!(interface.enums[0].name, "Kind");
    assert_eq!(interface.enums[0].values, vec![String::from("Small"), String::from("Large")]);
    assert_eq!(interface.structs.len(), 1);
    assert_eq!(interface.structs[0].name, "Item");
    assert_eq!(interface.structs[0].fields.len(), 2);
    assert_eq!(interface.structs[0].fields[0].name, "price");
    assert_eq!(interface.structs[0].fields[0].field_type, "u8");
    assert_eq!(interface.structs[0].fields[1].name, "seller");
    assert_eq!(interface.structs[0].fields[1].field_type, "AccountId");
    assert_eq!(interface.imports, vec![String::from("use brush::traits::AccountId;\n")]);
}

#[test]
fn keyword_decides_how_the_rest_is_read() {
    let rest = " IVault {\n    function lock(uint256 amount) external;\n}\n";
    let from_file = parse_file(format!("interface{rest}")).unwrap().1.unwrap();
    let mut chars = CharStream::new(rest);
    let direct = parse_interface(&mut chars, Vec::new()).unwrap();
    assert_eq!(from_file, direct);
    assert_eq!(direct.name, "Vault");
    assert_eq!(
        parse_file(format!("library{rest}")),
        Err(ParserError::LibraryParsingNotImplemented)
    );
}

#[test]
fn directives_are_skipped() {
    let rest = "contract Box {\n    uint8 size;\n}\n";
    let plain = parse_file(String::from(rest));
    assert_eq!(parse_file(format!("pragma solidity ^0.8.0;{rest}")), plain);
    assert_eq!(parse_file(format!("import \"./Other.sol\";{rest}")), plain);
    assert!(plain.unwrap().0.is_some());
}

#[test]
fn abstract_contract_is_a_contract() {
    let contract = parse_file(String::from("abstract contract Base {\n    bool flag;\n}\n"))
        .unwrap()
        .0
        .unwrap();
    assert_eq!(contract.name, "Base");
    assert_eq!(contract.fields[0].field_type, "bool");
}

#[test]
fn for_loop_in_a_function_body() {
    let source = "contract Loop {\n    function run(uint256 n) public {\n        for (uint256 i = 0; i < n; i++) {\n            total += i;\n        }\n    }\n}\n";
    let contract = parse_file(String::from(source)).unwrap().0.unwrap();
    let body = &contract.functions[0].body;
    assert_eq!(body.len(), 1);
    match &body[0] {
        Statement::While(Some(assignment), _, Some(modification), statements) => {
            assert_eq!(
                **assignment,
                Statement::Declaration(
                    String::from("i"),
                    String::from("u128"),
                    Some(Expression::Literal(String::from("0"))),
                )
            );
            assert_eq!(
                **modification,
                Statement::Assign(
                    Expression::Member(String::from("i"), None),
                    Expression::Literal(String::from("1")),
                    Operation::AddAssign,
                )
            );
            assert_eq!(
                statements,
                &vec![Statement::Assign(
                    Expression::Member(String::from("total"), None),
                    Expression::Member(String::from("i"), None),
                    Operation::AddAssign,
                )]
            );
        }
        other => panic!("unexpected {:?}", other),
    }
}

#[test]
fn comment_lines_in_a_body() {
    let source = "contract Notes {\n    function f() public {\n        // first\n        /* second\n         * third */\n        return;\n    }\n}\n";
    let contract = parse_file(String::from(source)).unwrap().0.unwrap();
    let body = &contract.functions[0].body;
    assert_eq!(body[0], Statement::Comment(String::from("first")));
    assert_eq!(body[1], Statement::Comment(String::from("second")));
}

#[test]
fn trim_leaves_no_outer_whitespace() {
    for text in ["  a b  ", "\tx\n", "plain", " \u{2003}wide\u{2003} "] {
        let t = trim(text);
        assert!(!t.starts_with(char::is_whitespace));
        assert!(!t.ends_with(char::is_whitespace));
    }
}

#[test]
fn call_arguments_are_trimmed() {
    let mut scope = empty_scope();
    scope.storage.push(String::from("count"));
    let mut imports = Vec::new();
    let out = parse_statements(&raw(&["f(a, count);"]), &scope, &mut imports, false);
    assert_eq!(
        out,
        vec![Statement::FunctionCall(Expression::FunctionCall(
            String::from("f"),
            vec![
                Expression::Member(String::from("a"), None),
                Expression::Member(String::from("count"), Some(String::from("self"))),
            ],
            None,
            true,
        ))]
    );
}

#[test]
fn bare_and_called_modifiers_are_kept() {
    let source = "contract Guarded {\n    modifier onlyOwner() {\n        _;\n    }\n    modifier onlyRole(uint8 role) {\n        _;\n    }\n    function f() public onlyOwner onlyRole(ADMIN) other(x) {\n        return;\n    }\n}\n";
    let contract = parse_file(String::from(source)).unwrap().0.unwrap();
    assert_eq!(
        contract.functions[0].header.modifiers,
        vec![
            Expression::FunctionCall(String::from("onlyOwner"), Vec::new(), None, true),
            Expression::FunctionCall(
                String::from("onlyRole"),
                vec![Expression::Member(String::from("ADMIN"), None)],
                None,
                true,
            ),
        ]
    );
}

#[test]
fn user_types_pass_through() {
    let source = "contract Votes {\n    Checkpoint last;\n    uint32 height;\n}\n";
    let contract = parse_file(String::from(source)).unwrap().0.unwrap();
    assert_eq!(contract.fields[0].field_type, "Checkpoint");
    assert_eq!(contract.fields[1].field_type, "u32");
    assert!(contract.imports.is_empty());
}

#[test]
fn struct_name_is_trimmed() {
    let source = "contract Shapes {\n    struct Point {\n        uint256 x;\n        uint256 y;\n    }\n}\n";
    let contract = parse_file(String::from(source)).unwrap().0.unwrap();
    assert_eq!(contract.structs[0].name, "Point");
    assert_eq!(contract.structs[0].fields.len(), 2);
    assert_eq!(contract.structs[0].fields[1].name, "y");
}

#[test]
fn function_shapes() {
    let header = FunctionHeader {
        name: String::from("balanceOf"),
        params: vec![FunctionParam {
            name: String::from("accountId"),
            param_type: String::from("AccountId"),
        }],
        external: false,
        view: true,
        payable: true,
        return_params: vec![
            FunctionParam {
                name: String::from("totalBalance"),
                param_type: String::from("u128"),
            },
            FunctionParam {
                name: String::from("_"),
                param_type: String::from("bool"),
            },
        ],
        comments: Vec::new(),
        modifiers: Vec::new(),
    };
    let shape = function_shape(&header);
    assert!(!shape.public);
    assert!(!shape.message);
    assert!(!shape.payable);
    assert_eq!(shape.name, "_balance_of");
    assert!(!shape.self_mut);
    assert_eq!(shape.params, vec![(String::from("account_id"), String::from("AccountId"))]);
    assert_eq!(shape.returns, vec![String::from("u128"), String::from("bool")]);
    assert_eq!(shape.declared, vec![String::from("total_balance")]);
    assert_eq!(
        shape.outputs,
        Some(vec![String::from("totalBalance"), String::from("_")])
    );
    let trait_shape = header_shape(&header);
    assert_eq!(trait_shape.name, "balance_of");
    assert!(!trait_shape.message);
}

#[test]
fn emitting_an_undeclared_event_is_refused() {
    let source = "contract Pausable {\n    function pause() public {\n        emit Paused(account);\n    }\n}\n";
    assert_eq!(
        parse_file(String::from(source)),
        Err(ParserError::EventNotDefined(String::from("Paused")))
    );
}

#[test]
fn emitting_more_arguments_than_fields_is_refused() {
    let source = "contract Pausable {\n    event Paused(address account);\n    function pause() public {\n        emit Paused(a, b);\n    }\n}\n";
    assert_eq!(
        parse_file(String::from(source)),
        Err(ParserError::EventNotDefined(String::from("Paused")))
    );
}

#[test]
fn positional_init_of_an_undeclared_struct_is_refused() {
    let source = "contract Shapes {\n    function make() public {\n        p = Point({1, 2});\n    }\n}\n";
    assert_eq!(
        parse_file(String::from(source)),
        Err(ParserError::StructNotDefined(String::from("Point")))
    );
}

#[test]
fn declared_event_and_struct_are_accepted() {
    let source = "contract Shapes {\n    struct Point {\n        uint256 x;\n        uint256 y;\n    }\n    event Paused(address account);\n    function make() public {\n        p = Point({1, 2});\n        emit Paused(a);\n    }\n}\n";
    let contract = parse_file(String::from(source)).unwrap().0.unwrap();
    let body = &contract.functions[0].body;
    assert_eq!(body.len(), 2);
    match &body[1] {
        Statement::Emit(name, args) => {
            assert_eq!(name, "Paused");
            assert_eq!(args.len(), 1);
            assert!(matches!(&args[0], Expression::StructArg(field, _) if field == "account"));
        }
        _ => panic!("expected an emit"),
    }
}

#[test]
fn split_gives_one_more_piece_than_separators() {
    let text = "a,b,,c";
    let pieces = split(text, ",", no_map());
    assert_eq!(pieces.len(), text.matches(",").count() + 1);
    assert_eq!(pieces, vec!["a", "b", "", "c"]);
    let spaced = "one -- two -- three";
    assert_eq!(split(spaced, " -- ", no_map()).len(), spaced.matches(" -- ").count() + 1);
}

#[test]
fn member_with_a_call_and_a_state_variable() {
    let mut scope = empty_scope();
    scope.storage.push(String::from("count"));
    let mut imports = Vec::new();
    let raw: Vec<char> = "f(a, count)".chars().collect();
    let out = parse_member(&raw, true, &scope, &mut imports, &Vec::new());
    assert_eq!(
        out,
        Expression::FunctionCall(
            String::from("f"),
            vec![
                Expression::Member(String::from("a"), None),
                Expression::Member(String::from("count"), Some(String::from("instance"))),
            ],
            None,
            true,
        )
    );
}

#[test]
fn interface_keeps_declaration_order_and_comments() {
    let source = "interface IPair {\n    // first\n    event Swap(address to);\n    // second\n    function a() external;\n    event Sync(uint112 r);\n    function b() external;\n}\n";
    let interface = parse_file(String::from(source)).unwrap().1.unwrap();
    let events: Vec<&str> = interface.events.iter().map(|e| e.name.as_str()).collect();
    assert_eq!(events, vec!["Swap", "Sync"]);
    let headers: Vec<&str> = interface.function_headers.iter().map(|h| h.name.as_str()).collect();
    assert_eq!(headers, vec!["a", "b"]);
    assert_eq!(interface.events[0].comments, vec![String::from("first")]);
    assert_eq!(interface.function_headers[0].comments, vec![String::from("second")]);
    assert!(interface.events[1].comments.is_empty());
    assert!(interface.function_headers[1].comments.is_empty());
}

#[test]
fn comments_before_the_keyword_document_the_contract() {
    let source = "// first\npragma solidity ^0.8.0;\n// second\ncontract C {\n}\n";
    let contract = parse_file(String::from(source)).unwrap().0.unwrap();
    assert_eq!(contract.contract_doc, vec![String::from("first"), String::from("second")]);
    let source = "// only\ninterface IC {\n}\n";
    let interface = parse_file(String::from(source)).unwrap().1.unwrap();
    assert_eq!(interface.comments, vec![String::from("only")]);
}

#[test]
fn split_applies_any_mapping_to_each_piece() {
    let upper = |p: &str| p.to_uppercase();
    let mapped = split("a b,c", " ", Some(upper));
    let plain: Vec<String> = split("a b,c", " ", no_map()).iter().map(|p| upper(p)).collect();
    assert_eq!(mapped, plain);
    assert_eq!(mapped, vec!["A", "B,C"]);
}

#[test]
fn emit_of_an_undeclared_event_has_unnamed_arguments() {
    let scope = empty_scope();
    let mut imports = Vec::new();
    let out = parse_statements(&raw(&["emit Paused(account);"]), &scope, &mut imports, false);
    assert_eq!(
        out,
        vec![Statement::Emit(
            String::from("Paused"),
            vec![Expression::StructArg(
                String::new(),
                Box::new(Expression::Member(String::from("account"), None)),
            )],
        )]
    );
}
