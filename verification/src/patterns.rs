//! The regular expressions that describe the Solidity constructs the parser
//! recognises.

use vstd::prelude::*;

verus! {

pub const RETURN: &'static str = r#"(?x)^\s*return\s+(?P<output>.+?);*\s*$"#;

pub const DECLARE: &'static str = r#"(?x)^\s*
        (?P<field_type>[a-zA-Z0-9\[\]]+)\s+
        (?P<field_name>[_a-zA-Z0-9]+)\s*
        (=\s*(?P<value>.+))*;\s*$"#;

pub const REQUIRE: &'static str = r#"(?x)
        ^\s*require\s*\((?P<condition>.+?)\s*
        (,\s*["|'](?P<error>.*)["|']\s*)*\);\s*$"#;

pub const COMMENT: &'static str = r#"(?x)^\s*///*\s*(?P<comment>.*)\s*$"#;

pub const CONDITION_ONE_LINE: &'static str = r#"(?x)
        ^\s*(?P<keyword>(else|if)(\s*if)*)\s*
        (\(\s*(?P<condition>.+)\s*\))*
        (?P<then>.+)\s*;\s*
        $"#;

pub const DO: &'static str = r#"(?x)^\s*do\s*\{\s*"#;

pub const IF: &'static str = r#"(?x)^\s*if\s*\((?P<condition>.+)\s*\)\s*\{\s*"#;

pub const ELSE: &'static str = r#"^\s*else\s*\{\s*"#;

pub const ELSE_IF: &'static str = r#"(?x)^\s*else\s+if\s*\((?P<condition>.+)\s*\)\s*\{\s*"#;

pub const UNCHECKED: &'static str = r#"(?x)^\s*unchecked\s*\{\s*"#;

pub const END_BLOCK: &'static str = r#"^\s*\}\s*"#;

pub const TRY: &'static str = r#"(?x)^\s*try\s*.*$"#;

pub const ASSEMBLY: &'static str = r#"(?x)^\s*assembly\s*\{\s*"#;

pub const CATCH: &'static str = r#"(?x)^\s*catch\s*.*$"#;

pub const EMIT: &'static str = r#"(?x)
        ^\s*emit\s+(?P<event_name>.+?)\s*\(\s*
        (?P<args>.+)+?\);\s*$"#;

pub const ASSIGN: &'static str = r#"(?x)
        ^\s*(?P<left>[0-9a-zA-Z_\[\].]+?)\s*
        (?P<operation>[+\-*/&|]*=)\s*
        (?P<right>[^=][^;]*)+?;*\s*$"#;

pub const FUNCTION_CALL: &'static str = r#"(?x)
        ^\s*(?P<function_name>[a-zA-Z0-9_]+?)\s*\(
        \s*(?P<args>.*)\s*
        \);*\s*$"#;

pub const BOOLEAN: &'static str = r#"(?x)
        ^\s*(?P<left>.+?)
        \s*(?P<operation>[!=><^]+)\s*
        (?P<right>.+)
        \s*$"#;

pub const DOUBLE_SIGN_RIGHT: &'static str = r#"(?x)
        ^\s*(?P<value>.+?)
        \s*(?P<operation>[+-]{2});*
        \s*$"#;

pub const DOUBLE_SIGN_LEFT: &'static str = r#"(?x)
        ^\s*(?P<operation>[+-]{2})
        \s*(?P<value>.+?);*
        \s*$"#;

pub const FOR: &'static str = r#"(?x)
        ^\s*for\s*\(\s*
        (?P<assignment>.+?;)\s*
        (?P<condition>.+?)\s*;
        (?P<modification>.+)\s*
        \)\s*\{$"#;

pub const WHILE: &'static str = r#"(?x)
        ^\s*while\s*\(\s*
        (?P<condition>.+?)\s*
        \);*\s*\{*$"#;

pub const TERNARY: &'static str = r#"(?x)
        ^\s*(?P<condition>.+?)\s*\?
        \s*(?P<if_true>.+?)\s*:
        \s*(?P<if_false>.+?)\s*$"#;

pub const CONTRACT_FIELD: &'static str = r#"(?x)^\s*
        (?P<field_type>.+?)\s
        (?P<attributes>(\s*constant\s*|\s*private\s*|\s*public\s*|\s*immutable\s*|\s*override\s*)*)*
        (?P<field_name>.+?)\s*
        (=\s*(?P<initial_value>.+)\s*)*
        ;\s*$"#;

pub const FUNCTION_WITH_RETURN: &'static str = r#"(?x)
        ^\s*(?P<function_name>[a-zA-Z0-9_]*?)\s*
        \(\s*(?P<parameters>[a-zA-Z0-9_,\s\[\]]*?)\s*\)\s*
        (?P<attributes>.*)\s+returns\s*\(\s*(?P<return_parameters>[a-zA-Z0-9_,\s\[\]]*?)\s*\)
        .*$"#;

pub const FUNCTION_NO_RETURN: &'static str = r#"(?x)
            ^\s*(?P<function_name>[a-zA-Z0-9_]*?)\s*
            \(\s*(?P<parameters>[a-zA-Z0-9_,\s\[\]]*?)\s*\)
            \s*(?P<attributes>.*)\s*$"#;

pub const STRUCT_INITIALIZER: &'static str = r#"(?x)^\s*(?P<code>.+)\s*\(\{$"#;

pub const MODIFIER_NAME: &'static str = r#"(?x)^\s*(?P<name>[^\s(]+)\s*(\(.*\))?\s*$"#;

pub const HEX_STRING: &'static str = r#"(?x)^\s*hex"(?P<value>.+?)"\s*$"#;

pub const HEX: &'static str = r#"(?x)^\s*(?P<value>0x[0-9A-Fa-f]*?)\s*$"#;

pub const STRUCT_INIT: &'static str = r#"(?x)^\s*
        (?P<struct_name>.+)\s*\(\{\s*
        (?P<args>.+)\s*\}\)\s*$"#;

pub const NAMED_PARAM: &'static str = r#"(?x)^\s*
                (?P<param_name>.+)\s*:\s*
                (?P<value>.+)\s*$"#;

pub const NEW_ARRAY: &'static str = r#"(?x)^\s*new\s+(?P<array_type>.+?)\s*
        \[\s*\]\s*\((?P<array_size>.+?)\s*\)\s*$"#;

pub const TYPE: &'static str = r#"(?x)
        ^\s*type\s*\(\s*(?P<selector>.+?)
        \)\.(?P<member>.+?)\s*$"#;

pub const ARITHMETIC: &'static str = r#"(?x)
        ^\s*(?P<left>[^+\-]*?)
        \s*(?P<operation>[/+\-*%][*]*)
        \s*(?P<right>[^+\-=].*)
        \s*$"#;

pub const LOGICAL: &'static str = r#"(?x)
        ^\s*(?P<left>.+?)
        \s*(?P<operation>[|&]+)\s*
        (?P<right>.+)
        \s*$"#;

pub const WITH_SELECTOR: &'static str = r#"(?x)^\s*(?P<left>.+?)\.(?P<right>.+?);*\s*$"#;

pub const MAPPING_ACCESS: &'static str = r#"(?x)
        ^\s*(?P<mapping_name>.+?)\s*
        (?P<index>(\[\s*.+\s*\]))+?
        \s*$"#;

pub const NEGATIVE: &'static str = r#"(?x)^\s*!(?P<value>.+?)\s*$"#;

pub const STRING_LITERAL: &'static str = r#"^\s*".*"\s*$"#;

pub const CHAR_LITERAL: &'static str = r#"^\s*'.*'\s*$"#;

pub const MAPPING_TYPE: &'static str = r#"(?x)^\s*mapping\(
                (?P<type_from>.+?)=>
                (?P<type_to>.+)
                \)\s*$"#;

pub const INT: &'static str = r#"(?x)^\s*
        (?P<int_type>u*int)
        (?P<int_size>[0-9]*)
        \s*$"#;


} // verus!
