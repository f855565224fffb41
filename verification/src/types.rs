//! The Solidity type table, the operator table, and the conversion of
//! Solidity types into ink! types.

use vstd::prelude::*;
use crate::structures::Operation;
use crate::text::chars_eq_str;
use crate::text::{chars_of, concat, parse_i32, parse_i32_spec, decimal, decimal_chars, has_infix,
    contains_str, replace_seq, replace_str, utf8_len, byte_len, join_seqs, join_chars};
use crate::pattern::{capture, is_match, regex_group, regex_match, substring, substring_spec};
use crate::patterns::{INT, MAPPING_TYPE};
use crate::imports::{add_import, insert_import, insert_import_chars};
use crate::formatter::strings_view;

use crate::imports::no_duplicates;
verus! {

/// An entry of the type table: the ink! type, the function that initialises
/// a value of it where one is needed, and the import it needs.
pub struct TypeEntry {
    pub ink_type: Vec<char>,
    pub initializer: Option<Vec<char>>,
    pub import: Option<Vec<char>>,
}

pub open spec fn opt_chars_view(o: Option<Vec<char>>) -> Option<Seq<char>> {
    match o {
        Some(v) => Some(v@),
        None => None,
    }
}

pub open spec fn opt_str_view(o: Option<&str>) -> Option<Seq<char>> {
    match o {
        Some(v) => Some(v@),
        None => None,
    }
}

impl TypeEntry {
    pub open spec fn view_entry(&self) -> (Seq<char>, Option<Seq<char>>, Option<Seq<char>>) {
        (self.ink_type@, opt_chars_view(self.initializer), opt_chars_view(self.import))
    }
}

fn opt_chars(o: Option<&str>) -> (r: Option<Vec<char>>)
    ensures
        opt_chars_view(r) == opt_str_view(o),
{
    match o {
        Some(s) => Some(chars_of(s)),
        None => None,
    }
}

fn type_entry(ink: &str, init: Option<&str>, import: Option<&str>) -> (r: TypeEntry)
    ensures
        r.view_entry() == (ink@, opt_str_view(init), opt_str_view(import)),
{
    TypeEntry { ink_type: chars_of(ink), initializer: opt_chars(init), import: opt_chars(import) }
}

/// The type table: Solidity type name to (ink! type, initialiser, import).
pub open spec fn solidity_type(name: Seq<char>) -> Option<(Seq<char>, Option<Seq<char>>, Option<Seq<char>>)> {
    if name == "address"@ {
        Some(("AccountId"@, None, Some("brush::traits::AccountId"@)))
    } else if name == "hex"@ {
        Some(("[u8]"@, Some("&hex::decode"@), None))
    } else if name == "bool"@ {
        Some(("bool"@, None, None))
    } else if name == "bytes1"@ {
        Some(("[u8; 1]"@, None, None))
    } else if name == "bytes2"@ {
        Some(("[u8; 2]"@, None, None))
    } else if name == "bytes3"@ {
        Some(("[u8; 3]"@, None, None))
    } else if name == "bytes4"@ {
        Some(("[u8; 4]"@, None, None))
    } else if name == "bytes5"@ {
        Some(("[u8; 5]"@, None, None))
    } else if name == "bytes6"@ {
        Some(("[u8; 6]"@, None, None))
    } else if name == "bytes7"@ {
        Some(("[u8; 7]"@, None, None))
    } else if name == "bytes8"@ {
        Some(("[u8; 8]"@, None, None))
    } else if name == "bytes9"@ {
        Some(("[u8; 9]"@, None, None))
    } else if name == "bytes10"@ {
        Some(("[u8; 10]"@, None, None))
    } else if name == "bytes11"@ {
        Some(("[u8; 11]"@, None, None))
    } else if name == "bytes12"@ {
        Some(("[u8; 12]"@, None, None))
    } else if name == "bytes13"@ {
        Some(("[u8; 13]"@, None, None))
    } else if name == "bytes14"@ {
        Some(("[u8; 14]"@, None, None))
    } else if name == "bytes15"@ {
        Some(("[u8; 15]"@, None, None))
    } else if name == "bytes16"@ {
        Some(("[u8; 16]"@, None, None))
    } else if name == "bytes17"@ {
        Some(("[u8; 17]"@, None, None))
    } else if name == "bytes18"@ {
        Some(("[u8; 18]"@, None, None))
    } else if name == "bytes19"@ {
        Some(("[u8; 19]"@, None, None))
    } else if name == "bytes20"@ {
        Some(("[u8; 20]"@, None, None))
    } else if name == "bytes21"@ {
        Some(("[u8; 21]"@, None, None))
    } else if name == "bytes22"@ {
        Some(("[u8; 22]"@, None, None))
    } else if name == "bytes23"@ {
        Some(("[u8; 23]"@, None, None))
    } else if name == "bytes24"@ {
        Some(("[u8; 24]"@, None, None))
    } else if name == "bytes25"@ {
        Some(("[u8; 25]"@, None, None))
    } else if name == "bytes26"@ {
        Some(("[u8; 26]"@, None, None))
    } else if name == "bytes27"@ {
        Some(("[u8; 27]"@, None, None))
    } else if name == "bytes28"@ {
        Some(("[u8; 28]"@, None, None))
    } else if name == "bytes29"@ {
        Some(("[u8; 29]"@, None, None))
    } else if name == "bytes30"@ {
        Some(("[u8; 30]"@, None, None))
    } else if name == "bytes31"@ {
        Some(("[u8; 31]"@, None, None))
    } else if name == "bytes32"@ {
        Some(("[u8; 32]"@, None, None))
    } else if name == "bytes"@ {
        Some(("Vec<u8>"@, Some("Vec::<u8>::from"@), Some("ink::prelude::vec::Vec"@)))
    } else if name == "byte"@ {
        Some(("u8"@, None, None))
    } else if name == "int8"@ {
        Some(("i8"@, None, None))
    } else if name == "int16"@ {
        Some(("i16"@, None, None))
    } else if name == "int24"@ {
        Some(("i32"@, None, None))
    } else if name == "int32"@ {
        Some(("i32"@, None, None))
    } else if name == "int40"@ {
        Some(("i64"@, None, None))
    } else if name == "int48"@ {
        Some(("i64"@, None, None))
    } else if name == "int56"@ {
        Some(("i64"@, None, None))
    } else if name == "int64"@ {
        Some(("i64"@, None, None))
    } else if name == "int72"@ {
        Some(("i128"@, None, None))
    } else if name == "int80"@ {
        Some(("i128"@, None, None))
    } else if name == "int88"@ {
        Some(("i128"@, None, None))
    } else if name == "int96"@ {
        Some(("i128"@, None, None))
    } else if name == "int104"@ {
        Some(("i128"@, None, None))
    } else if name == "int112"@ {
        Some(("i128"@, None, None))
    } else if name == "int120"@ {
        Some(("i128"@, None, None))
    } else if name == "int128"@ {
        Some(("i128"@, None, None))
    } else if name == "int136"@ {
        Some(("i128"@, None, None))
    } else if name == "int144"@ {
        Some(("i128"@, None, None))
    } else if name == "int152"@ {
        Some(("i128"@, None, None))
    } else if name == "int160"@ {
        Some(("i128"@, None, None))
    } else if name == "int168"@ {
        Some(("i128"@, None, None))
    } else if name == "int176"@ {
        Some(("i128"@, None, None))
    } else if name == "int184"@ {
        Some(("i128"@, None, None))
    } else if name == "int192"@ {
        Some(("i128"@, None, None))
    } else if name == "int200"@ {
        Some(("i128"@, None, None))
    } else if name == "int208"@ {
        Some(("i128"@, None, None))
    } else if name == "int216"@ {
        Some(("i128"@, None, None))
    } else if name == "int224"@ {
        Some(("i128"@, None, None))
    } else if name == "int232"@ {
        Some(("i128"@, None, None))
    } else if name == "int240"@ {
        Some(("i128"@, None, None))
    } else if name == "int248"@ {
        Some(("i128"@, None, None))
    } else if name == "int256"@ {
        Some(("i128"@, None, None))
    } else if name == "int"@ {
        Some(("i128"@, None, None))
    } else if name == "mapping"@ {
        Some(("Mapping"@, None, None))
    } else if name == "string"@ {
        Some(("String"@, None, Some("ink::prelude::string::String"@)))
    } else if name == "uint8"@ {
        Some(("u8"@, None, None))
    } else if name == "uint16"@ {
        Some(("u16"@, None, None))
    } else if name == "uint24"@ {
        Some(("u32"@, None, None))
    } else if name == "uint32"@ {
        Some(("u32"@, None, None))
    } else if name == "uint40"@ {
        Some(("u64"@, None, None))
    } else if name == "uint48"@ {
        Some(("u64"@, None, None))
    } else if name == "uint56"@ {
        Some(("u64"@, None, None))
    } else if name == "uint64"@ {
        Some(("u64"@, None, None))
    } else if name == "uint72"@ {
        Some(("u128"@, None, None))
    } else if name == "uint80"@ {
        Some(("u128"@, None, None))
    } else if name == "uint88"@ {
        Some(("u128"@, None, None))
    } else if name == "uint96"@ {
        Some(("u128"@, None, None))
    } else if name == "uint104"@ {
        Some(("u128"@, None, None))
    } else if name == "uint112"@ {
        Some(("u128"@, None, None))
    } else if name == "uint120"@ {
        Some(("u128"@, None, None))
    } else if name == "uint128"@ {
        Some(("u128"@, None, None))
    } else if name == "uint136"@ {
        Some(("u128"@, None, None))
    } else if name == "uint144"@ {
        Some(("u128"@, None, None))
    } else if name == "uint152"@ {
        Some(("u128"@, None, None))
    } else if name == "uint160"@ {
        Some(("u128"@, None, None))
    } else if name == "uint168"@ {
        Some(("u128"@, None, None))
    } else if name == "uint176"@ {
        Some(("u128"@, None, None))
    } else if name == "uint184"@ {
        Some(("u128"@, None, None))
    } else if name == "uint192"@ {
        Some(("u128"@, None, None))
    } else if name == "uint200"@ {
        Some(("u128"@, None, None))
    } else if name == "uint208"@ {
        Some(("u128"@, None, None))
    } else if name == "uint216"@ {
        Some(("u128"@, None, None))
    } else if name == "uint224"@ {
        Some(("u128"@, None, None))
    } else if name == "uint232"@ {
        Some(("u128"@, None, None))
    } else if name == "uint240"@ {
        Some(("u128"@, None, None))
    } else if name == "uint248"@ {
        Some(("u128"@, None, None))
    } else if name == "uint256"@ {
        Some(("u128"@, None, None))
    } else if name == "uint"@ {
        Some(("u128"@, None, None))
    } else {
        None
    }
}

/// Looks `name` up in the type table.
#[verifier::rlimit(50)]
pub fn lookup_type(name: &Vec<char>) -> (r: Option<TypeEntry>)
    ensures
        match r {
            Some(e) => solidity_type(name@) == Some(e.view_entry()),
            None => solidity_type(name@) is None,
        },
{
    if chars_eq_str(name, "address") {
        return Some(type_entry("AccountId", None, Some("brush::traits::AccountId")));
    }
    if chars_eq_str(name, "hex") {
        return Some(type_entry("[u8]", Some("&hex::decode"), None));
    }
    if chars_eq_str(name, "bool") {
        return Some(type_entry("bool", None, None));
    }
    if chars_eq_str(name, "bytes1") {
        return Some(type_entry("[u8; 1]", None, None));
    }
    if chars_eq_str(name, "bytes2") {
        return Some(type_entry("[u8; 2]", None, None));
    }
    if chars_eq_str(name, "bytes3") {
        return Some(type_entry("[u8; 3]", None, None));
    }
    if chars_eq_str(name, "bytes4") {
        return Some(type_entry("[u8; 4]", None, None));
    }
    if chars_eq_str(name, "bytes5") {
        return Some(type_entry("[u8; 5]", None, None));
    }
    if chars_eq_str(name, "bytes6") {
        return Some(type_entry("[u8; 6]", None, None));
    }
    if chars_eq_str(name, "bytes7") {
        return Some(type_entry("[u8; 7]", None, None));
    }
    if chars_eq_str(name, "bytes8") {
        return Some(type_entry("[u8; 8]", None, None));
    }
    if chars_eq_str(name, "bytes9") {
        return Some(type_entry("[u8; 9]", None, None));
    }
    if chars_eq_str(name, "bytes10") {
        return Some(type_entry("[u8; 10]", None, None));
    }
    if chars_eq_str(name, "bytes11") {
        return Some(type_entry("[u8; 11]", None, None));
    }
    if chars_eq_str(name, "bytes12") {
        return Some(type_entry("[u8; 12]", None, None));
    }
    if chars_eq_str(name, "bytes13") {
        return Some(type_entry("[u8; 13]", None, None));
    }
    if chars_eq_str(name, "bytes14") {
        return Some(type_entry("[u8; 14]", None, None));
    }
    if chars_eq_str(name, "bytes15") {
        return Some(type_entry("[u8; 15]", None, None));
    }
    if chars_eq_str(name, "bytes16") {
        return Some(type_entry("[u8; 16]", None, None));
    }
    if chars_eq_str(name, "bytes17") {
        return Some(type_entry("[u8; 17]", None, None));
    }
    if chars_eq_str(name, "bytes18") {
        return Some(type_entry("[u8; 18]", None, None));
    }
    if chars_eq_str(name, "bytes19") {
        return Some(type_entry("[u8; 19]", None, None));
    }
    if chars_eq_str(name, "bytes20") {
        return Some(type_entry("[u8; 20]", None, None));
    }
    if chars_eq_str(name, "bytes21") {
        return Some(type_entry("[u8; 21]", None, None));
    }
    if chars_eq_str(name, "bytes22") {
        return Some(type_entry("[u8; 22]", None, None));
    }
    if chars_eq_str(name, "bytes23") {
        return Some(type_entry("[u8; 23]", None, None));
    }
    if chars_eq_str(name, "bytes24") {
        return Some(type_entry("[u8; 24]", None, None));
    }
    if chars_eq_str(name, "bytes25") {
        return Some(type_entry("[u8; 25]", None, None));
    }
    if chars_eq_str(name, "bytes26") {
        return Some(type_entry("[u8; 26]", None, None));
    }
    if chars_eq_str(name, "bytes27") {
        return Some(type_entry("[u8; 27]", None, None));
    }
    if chars_eq_str(name, "bytes28") {
        return Some(type_entry("[u8; 28]", None, None));
    }
    if chars_eq_str(name, "bytes29") {
        return Some(type_entry("[u8; 29]", None, None));
    }
    if chars_eq_str(name, "bytes30") {
        return Some(type_entry("[u8; 30]", None, None));
    }
    if chars_eq_str(name, "bytes31") {
        return Some(type_entry("[u8; 31]", None, None));
    }
    if chars_eq_str(name, "bytes32") {
        return Some(type_entry("[u8; 32]", None, None));
    }
    if chars_eq_str(name, "bytes") {
        return Some(type_entry("Vec<u8>", Some("Vec::<u8>::from"), Some("ink::prelude::vec::Vec")));
    }
    if chars_eq_str(name, "byte") {
        return Some(type_entry("u8", None, None));
    }
    if chars_eq_str(name, "int8") {
        return Some(type_entry("i8", None, None));
    }
    if chars_eq_str(name, "int16") {
        return Some(type_entry("i16", None, None));
    }
    if chars_eq_str(name, "int24") {
        return Some(type_entry("i32", None, None));
    }
    if chars_eq_str(name, "int32") {
        return Some(type_entry("i32", None, None));
    }
    if chars_eq_str(name, "int40") {
        return Some(type_entry("i64", None, None));
    }
    if chars_eq_str(name, "int48") {
        return Some(type_entry("i64", None, None));
    }
    if chars_eq_str(name, "int56") {
        return Some(type_entry("i64", None, None));
    }
    if chars_eq_str(name, "int64") {
        return Some(type_entry("i64", None, None));
    }
    if chars_eq_str(name, "int72") {
        return Some(type_entry("i128", None, None));
    }
    if chars_eq_str(name, "int80") {
        return Some(type_entry("i128", None, None));
    }
    if chars_eq_str(name, "int88") {
        return Some(type_entry("i128", None, None));
    }
    if chars_eq_str(name, "int96") {
        return Some(type_entry("i128", None, None));
    }
    if chars_eq_str(name, "int104") {
        return Some(type_entry("i128", None, None));
    }
    if chars_eq_str(name, "int112") {
        return Some(type_entry("i128", None, None));
    }
    if chars_eq_str(name, "int120") {
        return Some(type_entry("i128", None, None));
    }
    if chars_eq_str(name, "int128") {
        return Some(type_entry("i128", None, None));
    }
    if chars_eq_str(name, "int136") {
        return Some(type_entry("i128", None, None));
    }
    if chars_eq_str(name, "int144") {
        return Some(type_entry("i128", None, None));
    }
    if chars_eq_str(name, "int152") {
        return Some(type_entry("i128", None, None));
    }
    if chars_eq_str(name, "int160") {
        return Some(type_entry("i128", None, None));
    }
    if chars_eq_str(name, "int168") {
        return Some(type_entry("i128", None, None));
    }
    if chars_eq_str(name, "int176") {
        return Some(type_entry("i128", None, None));
    }
    if chars_eq_str(name, "int184") {
        return Some(type_entry("i128", None, None));
    }
    if chars_eq_str(name, "int192") {
        return Some(type_entry("i128", None, None));
    }
    if chars_eq_str(name, "int200") {
        return Some(type_entry("i128", None, None));
    }
    if chars_eq_str(name, "int208") {
        return Some(type_entry("i128", None, None));
    }
    if chars_eq_str(name, "int216") {
        return Some(type_entry("i128", None, None));
    }
    if chars_eq_str(name, "int224") {
        return Some(type_entry("i128", None, None));
    }
    if chars_eq_str(name, "int232") {
        return Some(type_entry("i128", None, None));
    }
    if chars_eq_str(name, "int240") {
        return Some(type_entry("i128", None, None));
    }
    if chars_eq_str(name, "int248") {
        return Some(type_entry("i128", None, None));
    }
    if chars_eq_str(name, "int256") {
        return Some(type_entry("i128", None, None));
    }
    if chars_eq_str(name, "int") {
        return Some(type_entry("i128", None, None));
    }
    if chars_eq_str(name, "mapping") {
        return Some(type_entry("Mapping", None, None));
    }
    if chars_eq_str(name, "string") {
        return Some(type_entry("String", None, Some("ink::prelude::string::String")));
    }
    if chars_eq_str(name, "uint8") {
        return Some(type_entry("u8", None, None));
    }
    if chars_eq_str(name, "uint16") {
        return Some(type_entry("u16", None, None));
    }
    if chars_eq_str(name, "uint24") {
        return Some(type_entry("u32", None, None));
    }
    if chars_eq_str(name, "uint32") {
        return Some(type_entry("u32", None, None));
    }
    if chars_eq_str(name, "uint40") {
        return Some(type_entry("u64", None, None));
    }
    if chars_eq_str(name, "uint48") {
        return Some(type_entry("u64", None, None));
    }
    if chars_eq_str(name, "uint56") {
        return Some(type_entry("u64", None, None));
    }
    if chars_eq_str(name, "uint64") {
        return Some(type_entry("u64", None, None));
    }
    if chars_eq_str(name, "uint72") {
        return Some(type_entry("u128", None, None));
    }
    if chars_eq_str(name, "uint80") {
        return Some(type_entry("u128", None, None));
    }
    if chars_eq_str(name, "uint88") {
        return Some(type_entry("u128", None, None));
    }
    if chars_eq_str(name, "uint96") {
        return Some(type_entry("u128", None, None));
    }
    if chars_eq_str(name, "uint104") {
        return Some(type_entry("u128", None, None));
    }
    if chars_eq_str(name, "uint112") {
        return Some(type_entry("u128", None, None));
    }
    if chars_eq_str(name, "uint120") {
        return Some(type_entry("u128", None, None));
    }
    if chars_eq_str(name, "uint128") {
        return Some(type_entry("u128", None, None));
    }
    if chars_eq_str(name, "uint136") {
        return Some(type_entry("u128", None, None));
    }
    if chars_eq_str(name, "uint144") {
        return Some(type_entry("u128", None, None));
    }
    if chars_eq_str(name, "uint152") {
        return Some(type_entry("u128", None, None));
    }
    if chars_eq_str(name, "uint160") {
        return Some(type_entry("u128", None, None));
    }
    if chars_eq_str(name, "uint168") {
        return Some(type_entry("u128", None, None));
    }
    if chars_eq_str(name, "uint176") {
        return Some(type_entry("u128", None, None));
    }
    if chars_eq_str(name, "uint184") {
        return Some(type_entry("u128", None, None));
    }
    if chars_eq_str(name, "uint192") {
        return Some(type_entry("u128", None, None));
    }
    if chars_eq_str(name, "uint200") {
        return Some(type_entry("u128", None, None));
    }
    if chars_eq_str(name, "uint208") {
        return Some(type_entry("u128", None, None));
    }
    if chars_eq_str(name, "uint216") {
        return Some(type_entry("u128", None, None));
    }
    if chars_eq_str(name, "uint224") {
        return Some(type_entry("u128", None, None));
    }
    if chars_eq_str(name, "uint232") {
        return Some(type_entry("u128", None, None));
    }
    if chars_eq_str(name, "uint240") {
        return Some(type_entry("u128", None, None));
    }
    if chars_eq_str(name, "uint248") {
        return Some(type_entry("u128", None, None));
    }
    if chars_eq_str(name, "uint256") {
        return Some(type_entry("u128", None, None));
    }
    if chars_eq_str(name, "uint") {
        return Some(type_entry("u128", None, None));
    }
    None
}

/// The operator table: Solidity operator to operation.
pub open spec fn operation_of(raw: Seq<char>) -> Option<Operation> {
    if raw == "!"@ {
        Some(Operation::Not)
    } else if raw == ">="@ {
        Some(Operation::GreaterThanEqual)
    } else if raw == "<="@ {
        Some(Operation::LessThanEqual)
    } else if raw == ">"@ {
        Some(Operation::GreaterThan)
    } else if raw == "<"@ {
        Some(Operation::LessThan)
    } else if raw == "=="@ {
        Some(Operation::Equal)
    } else if raw == "!="@ {
        Some(Operation::NotEqual)
    } else if raw == "&&"@ {
        Some(Operation::LogicalAnd)
    } else if raw == "||"@ {
        Some(Operation::LogicalOr)
    } else if raw == "+"@ {
        Some(Operation::Add)
    } else if raw == "-"@ {
        Some(Operation::Subtract)
    } else if raw == "="@ {
        Some(Operation::Assign)
    } else if raw == ">>"@ {
        Some(Operation::ShiftRight)
    } else if raw == "<<"@ {
        Some(Operation::ShiftLeft)
    } else if raw == "+="@ {
        Some(Operation::AddAssign)
    } else if raw == "-="@ {
        Some(Operation::SubtractAssign)
    } else if raw == "*"@ {
        Some(Operation::Mul)
    } else if raw == "*="@ {
        Some(Operation::MulAssign)
    } else if raw == "/"@ {
        Some(Operation::Div)
    } else if raw == "/="@ {
        Some(Operation::DivAssign)
    } else if raw == "&"@ {
        Some(Operation::BitwiseAnd)
    } else if raw == "|"@ {
        Some(Operation::BitwiseOr)
    } else if raw == "&="@ {
        Some(Operation::AndAssign)
    } else if raw == "|="@ {
        Some(Operation::OrAssign)
    } else if raw == "**"@ {
        Some(Operation::Pow)
    } else if raw == "%"@ {
        Some(Operation::Modulo)
    } else if raw == "++"@ {
        Some(Operation::AddOne)
    } else if raw == "--"@ {
        Some(Operation::SubtractOne)
    } else if raw == "^"@ {
        Some(Operation::Xor)
    } else {
        None
    }
}

/// Looks `raw` up in the operator table.
pub fn lookup_operation(raw: &Vec<char>) -> (r: Option<Operation>)
    ensures
        r == operation_of(raw@),
{
    if chars_eq_str(raw, "!") {
        return Some(Operation::Not);
    }
    if chars_eq_str(raw, ">=") {
        return Some(Operation::GreaterThanEqual);
    }
    if chars_eq_str(raw, "<=") {
        return Some(Operation::LessThanEqual);
    }
    if chars_eq_str(raw, ">") {
        return Some(Operation::GreaterThan);
    }
    if chars_eq_str(raw, "<") {
        return Some(Operation::LessThan);
    }
    if chars_eq_str(raw, "==") {
        return Some(Operation::Equal);
    }
    if chars_eq_str(raw, "!=") {
        return Some(Operation::NotEqual);
    }
    if chars_eq_str(raw, "&&") {
        return Some(Operation::LogicalAnd);
    }
    if chars_eq_str(raw, "||") {
        return Some(Operation::LogicalOr);
    }
    if chars_eq_str(raw, "+") {
        return Some(Operation::Add);
    }
    if chars_eq_str(raw, "-") {
        return Some(Operation::Subtract);
    }
    if chars_eq_str(raw, "=") {
        return Some(Operation::Assign);
    }
    if chars_eq_str(raw, ">>") {
        return Some(Operation::ShiftRight);
    }
    if chars_eq_str(raw, "<<") {
        return Some(Operation::ShiftLeft);
    }
    if chars_eq_str(raw, "+=") {
        return Some(Operation::AddAssign);
    }
    if chars_eq_str(raw, "-=") {
        return Some(Operation::SubtractAssign);
    }
    if chars_eq_str(raw, "*") {
        return Some(Operation::Mul);
    }
    if chars_eq_str(raw, "*=") {
        return Some(Operation::MulAssign);
    }
    if chars_eq_str(raw, "/") {
        return Some(Operation::Div);
    }
    if chars_eq_str(raw, "/=") {
        return Some(Operation::DivAssign);
    }
    if chars_eq_str(raw, "&") {
        return Some(Operation::BitwiseAnd);
    }
    if chars_eq_str(raw, "|") {
        return Some(Operation::BitwiseOr);
    }
    if chars_eq_str(raw, "&=") {
        return Some(Operation::AndAssign);
    }
    if chars_eq_str(raw, "|=") {
        return Some(Operation::OrAssign);
    }
    if chars_eq_str(raw, "**") {
        return Some(Operation::Pow);
    }
    if chars_eq_str(raw, "%") {
        return Some(Operation::Modulo);
    }
    if chars_eq_str(raw, "++") {
        return Some(Operation::AddOne);
    }
    if chars_eq_str(raw, "--") {
        return Some(Operation::SubtractOne);
    }
    if chars_eq_str(raw, "^") {
        return Some(Operation::Xor);
    }
    None
}

/// The capture `group` of `pattern` in `text`, or nothing.
pub open spec fn group_or_empty(pattern: Seq<char>, text: Seq<char>, group: Seq<char>) -> Seq<char> {
    match regex_group(pattern, text, group) {
        Some(g) => g,
        None => Seq::empty(),
    }
}

pub fn capture_or_empty(pattern: &str, text: &Vec<char>, group: &str) -> (r: Vec<char>)
    ensures
        r@ == group_or_empty(pattern@, text@, group@),
{
    match capture(pattern, text, group) {
        Some(g) => g,
        None => Vec::new(),
    }
}

/// The width an integer of `n` bits is stored in.
pub open spec fn int_bucket(n: int) -> nat {
    if n <= 8 {
        8
    } else if n <= 16 {
        16
    } else if n <= 32 {
        32
    } else if n <= 64 {
        64
    } else {
        128
    }
}

/// The declared size of an integer type: 128 when no size is written, and
/// above 64 when the size is not a number that fits `i32`.
pub open spec fn int_size_of(size_raw: Seq<char>) -> int {
    if size_raw.len() == 0 {
        128
    } else {
        match parse_i32_spec(size_raw) {
            Some(v) => v,
            None => 128,
        }
    }
}

/// `intN`/`uintN` rounded up to the next Rust integer width; any other type
/// unchanged.
pub open spec fn convert_int_spec(arg: Seq<char>) -> Seq<char> {
    match regex_group(INT@, arg, "int_type"@) {
        Some(int_type) => int_type + decimal(int_bucket(int_size_of(group_or_empty(INT@, arg, "int_size"@)))),
        None => arg,
    }
}

/// Rounds the width of a Solidity integer type up to a Rust integer width.
pub fn convert_int(arg_type: &Vec<char>) -> (r: Vec<char>)
    ensures
        r@ == convert_int_spec(arg_type@),
{
    match capture(INT, arg_type, "int_type") {
        Some(int_type) => {
            let size_raw = capture_or_empty(INT, arg_type, "int_size");
            let size: i32 = if size_raw.len() == 0 {
                128
            } else {
                match parse_i32(&size_raw) {
                    Some(v) => v,
                    None => 128,
                }
            };
            let bucket: usize = if size <= 8 {
                8
            } else if size <= 16 {
                16
            } else if size <= 32 {
                32
            } else if size <= 64 {
                64
            } else {
                128
            };
            let digits = decimal_chars(bucket);
            concat(&int_type, &digits)
        },
        None => crate::text::copy_chars(arg_type),
    }
}

/// `str::len` of `s`, saturating at `usize::MAX`.
pub open spec fn sat_byte_len(s: Seq<char>) -> int {
    if utf8_len(s) <= usize::MAX {
        utf8_len(s) as int
    } else {
        usize::MAX as int
    }
}

/// The element type of an array type `T[]`, if `arg` is one.
pub open spec fn array_element(arg: Seq<char>) -> Option<Seq<char>> {
    let n = sat_byte_len(arg);
    if n >= 2 && substring_spec(arg, n - 2, n) == "[]"@ {
        Some(substring_spec(arg, 0, n - 2))
    } else {
        None
    }
}

/// The key types met while unfolding `mapping(K => V)` value types, and the
/// innermost value type; `budget` bounds the unfolding.
pub open spec fn mapping_chain(to_raw: Seq<char>, budget: nat) -> (Seq<Seq<char>>, Seq<char>)
    decreases budget,
{
    if budget > 0 && regex_match(MAPPING_TYPE@, to_raw) {
        let from = group_or_empty(MAPPING_TYPE@, to_raw, "type_from"@);
        let to = group_or_empty(MAPPING_TYPE@, to_raw, "type_to"@);
        let (rest, last) = mapping_chain(to, (budget - 1) as nat);
        (seq![from] + rest, last)
    } else {
        (Seq::empty(), to_raw)
    }
}

/// The ink! type for a Solidity type that is not a mapping, and the imports:
/// integer types by width, the types of the type table, and any other name
/// unchanged.
pub open spec fn convert_scalar(base: Seq<char>, imports: Seq<Seq<char>>) -> (Seq<char>, Seq<Seq<char>>) {
    let converted = convert_int_spec(base);
    if regex_group(INT@, base, "int_type"@) is Some {
        if has_infix(converted, "uint"@) {
            (replace_seq(converted, "uint"@, "u"@), imports)
        } else {
            (replace_seq(converted, "int"@, "i"@), imports)
        }
    } else {
        match solidity_type(converted) {
            Some((ink, _init, import)) => (ink, match import {
                Some(i) => add_import(imports, "use "@ + i + ";\n"@),
                None => imports,
            }),
            None => (base, imports),
        }
    }
}

/// Converts a Solidity type into an ink! type and records the imports it
/// needs; `fuel` bounds the depth of nested conversions.
pub open spec fn convert_type(arg: Seq<char>, imports: Seq<Seq<char>>, fuel: nat) -> (Seq<char>, Seq<Seq<char>>)
    decreases fuel, 0nat,
{
    if fuel == 0 {
        (arg, imports)
    } else if regex_match(MAPPING_TYPE@, arg) {
        let imports1 = add_import(imports, "use ink_storage::Mapping;\n"@);
        let from_raw = group_or_empty(MAPPING_TYPE@, arg, "type_from"@);
        let to_raw = group_or_empty(MAPPING_TYPE@, arg, "type_to"@);
        let (raws, last_to) = mapping_chain(to_raw, to_raw.len());
        let (froms, imports2) = convert_all(seq![from_raw] + raws, imports1, (fuel - 1) as nat);
        let (to, imports3) = convert_type(last_to, imports2, (fuel - 1) as nat);
        let from = if froms.len() > 1 {
            "("@ + join_seqs(froms, ", "@) + ")"@
        } else {
            froms[0]
        };
        ("Mapping<"@ + from + ", "@ + to + ">"@, imports3)
    } else {
        let element = array_element(arg);
        let base = match element {
            Some(b) => b,
            None => arg,
        };
        let (out, imports1) = convert_scalar(base, imports);
        if element is Some {
            ("Vec<"@ + out + ">"@, add_import(imports1, "use ink::prelude::vec::Vec;\n"@))
        } else {
            (out, imports1)
        }
    }
}

/// Converts each type of `list` in turn.
pub open spec fn convert_all(list: Seq<Seq<char>>, imports: Seq<Seq<char>>, fuel: nat) -> (Seq<Seq<char>>, Seq<Seq<char>>)
    decreases fuel, list.len() + 1,
{
    if list.len() == 0 {
        (Seq::empty(), imports)
    } else {
        let (head, imports1) = convert_type(list[0], imports, fuel);
        let (tail, imports2) = convert_all(list.drop_first(), imports1, fuel);
        (seq![head] + tail, imports2)
    }
}

/// The conversion of `arg`, with enough fuel for every nesting it can hold.
#[verifier::opaque]
pub open spec fn convert_variable_type_spec(arg: Seq<char>, imports: Seq<Seq<char>>) -> (Seq<char>, Seq<Seq<char>>) {
    convert_type(arg, imports, type_fuel(arg))
}

/// One level of conversion per character of the type, and one more.
pub open spec fn type_fuel(arg: Seq<char>) -> nat {
    if arg.len() < usize::MAX {
        arg.len() + 1
    } else {
        usize::MAX as nat
    }
}

fn literal(s: &str) -> (r: Vec<char>)
    ensures
        r@ == s@,
{
    chars_of(s)
}

fn convert_scalar_exec(base: &Vec<char>, imports: &mut Vec<String>) -> (r: Vec<char>)
    ensures
        no_duplicates(strings_view(old(imports)@)) ==> no_duplicates(strings_view(final(imports)@)),
        (r@, strings_view(final(imports)@)) == convert_scalar(base@, strings_view(old(imports)@)),
{
    let converted = convert_int(base);
    proof {
        reveal_strlit("uint");
        reveal_strlit("int");
    }
    if capture(INT, base, "int_type").is_some() {
        if contains_str(&converted, "uint") {
            replace_str(&converted, "uint", "u")
        } else {
            replace_str(&converted, "int", "i")
        }
    } else {
        match lookup_type(&converted) {
            Some(entry) => {
                match entry.import {
                    Some(i) => {
                        let line = concat(&concat(&literal("use "), &i), &literal(";\n"));
                        insert_import_chars(imports, &line);
                    },
                    None => {},
                }
                entry.ink_type
            },
            None => crate::text::copy_chars(base),
        }
    }
}

fn convert_type_fuel(arg: &Vec<char>, imports: &mut Vec<String>, fuel: usize) -> (r: Vec<char>)
    ensures
        no_duplicates(strings_view(old(imports)@)) ==> no_duplicates(strings_view(final(imports)@)),
        (r@, strings_view(final(imports)@)) == convert_type(arg@, strings_view(old(imports)@), fuel as nat),
    decreases fuel,
{
    if fuel == 0 {
        return crate::text::copy_chars(arg);
    }
    if is_match(MAPPING_TYPE, arg) {
        insert_import(imports, "use ink_storage::Mapping;\n");
        let from_raw = capture_or_empty(MAPPING_TYPE, arg, "type_from");
        let mut to_raw = capture_or_empty(MAPPING_TYPE, arg, "type_to");
        let ghost from0 = from_raw@;
        let mut raws: Vec<Vec<char>> = Vec::new();
        raws.push(from_raw);
        let mut budget: usize = to_raw.len();
        let ghost chain = mapping_chain(to_raw@, to_raw@.len());
        while budget > 0 && is_match(MAPPING_TYPE, &to_raw)
            invariant
                no_duplicates(strings_view(old(imports)@)) ==> no_duplicates(strings_view(imports@)),
                raws@.len() >= 1,
                raws@[0]@ == from0,
                raws@.map_values(|v: Vec<char>| v@) + mapping_chain(to_raw@, budget as nat).0
                    == seq![raws@[0]@] + chain.0,
                mapping_chain(to_raw@, budget as nat).1 == chain.1,
            decreases budget,
        {
            let ghost before = raws@.map_values(|v: Vec<char>| v@);
            let next_from = capture_or_empty(MAPPING_TYPE, &to_raw, "type_from");
            let next_to = capture_or_empty(MAPPING_TYPE, &to_raw, "type_to");
            raws.push(next_from);
            to_raw = next_to;
            budget = budget - 1;
            assert(raws@.map_values(|v: Vec<char>| v@) =~= before.push(next_from@));
            assert(before.push(next_from@) + mapping_chain(to_raw@, budget as nat).0 =~= before + (
            seq![next_from@] + mapping_chain(to_raw@, budget as nat).0));
        }
        assert(mapping_chain(to_raw@, budget as nat) == (Seq::<Seq<char>>::empty(), to_raw@));
        let ghost all_raws = raws@.map_values(|v: Vec<char>| v@);
        assert(all_raws =~= seq![raws@[0]@] + chain.0);
        let mut froms: Vec<Vec<char>> = Vec::new();
        let mut i: usize = 0;
        let ghost imports1 = strings_view(imports@);
        let ghost total = convert_all(all_raws, imports1, (fuel - 1) as nat);
        assert(all_raws.subrange(0, all_raws.len() as int) == all_raws);
        while i < raws.len()
            invariant
                no_duplicates(strings_view(old(imports)@)) ==> no_duplicates(strings_view(imports@)),
                fuel > 0,
                i <= raws.len(),
                all_raws == raws@.map_values(|v: Vec<char>| v@),
                froms@.map_values(|v: Vec<char>| v@) + convert_all(
                    all_raws.subrange(i as int, all_raws.len() as int),
                    strings_view(imports@),
                    (fuel - 1) as nat,
                ).0 == total.0,
                convert_all(
                    all_raws.subrange(i as int, all_raws.len() as int),
                    strings_view(imports@),
                    (fuel - 1) as nat,
                ).1 == total.1,
            decreases raws.len() - i,
        {
            let ghost rest = all_raws.subrange(i as int, all_raws.len() as int);
            let ghost before = froms@.map_values(|v: Vec<char>| v@);
            assert(rest[0] == raws@[i as int]@);
            assert(rest.drop_first() == all_raws.subrange(i + 1, all_raws.len() as int));
            let converted = convert_type_fuel(&raws[i], imports, fuel - 1);
            froms.push(converted);
            assert(froms@.map_values(|v: Vec<char>| v@) =~= before.push(converted@));
            i = i + 1;
            let ghost tail = convert_all(
                all_raws.subrange(i as int, all_raws.len() as int),
                strings_view(imports@),
                (fuel - 1) as nat,
            );
            assert(before.push(converted@) + tail.0 =~= before + (seq![converted@] + tail.0));
        }
        assert(all_raws.subrange(i as int, all_raws.len() as int).len() == 0);
        let ghost froms_view = froms@.map_values(|v: Vec<char>| v@);
        assert(froms_view =~= total.0);
        let to = convert_type_fuel(&to_raw, imports, fuel - 1);
        let from = if froms.len() > 1 {
            concat(&concat(&literal("("), &join_chars(&froms, ", ")), &literal(")"))
        } else {
            assert(froms_view.len() >= 1) by {
                assert(total.0.len() == all_raws.len()) by {
                    lemma_convert_all_len(all_raws, imports1, (fuel - 1) as nat);
                }
            }
            assert(froms_view[0] == froms@[0]@);
            crate::text::copy_chars(&froms[0])
        };
        let out = concat(
            &concat(&concat(&concat(&literal("Mapping<"), &from), &literal(", ")), &to),
            &literal(">"),
        );
        proof {
            let imports0 = strings_view(old(imports)@);
            assert(imports1 == add_import(imports0, "use ink_storage::Mapping;\n"@));
            assert(from0 == group_or_empty(MAPPING_TYPE@, arg@, "type_from"@));
            assert(chain == mapping_chain(group_or_empty(MAPPING_TYPE@, arg@, "type_to"@), group_or_empty(MAPPING_TYPE@, arg@, "type_to"@).len()));
            assert(to_raw@ == chain.1);
            let spec_to = convert_type(chain.1, total.1, (fuel - 1) as nat);
            assert(to@ == spec_to.0);
            assert(strings_view(imports@) == spec_to.1);
            let spec_from = if total.0.len() > 1 {
                "("@ + join_seqs(total.0, ", "@) + ")"@
            } else {
                total.0[0]
            };
            assert(from@ == spec_from);
            assert(out@ == "Mapping<"@ + spec_from + ", "@ + spec_to.0 + ">"@);
        }
        return out;
    }
    let n = byte_len(arg);
    let is_vec = n >= 2 && {
        let tail = substring(arg, n - 2, n);
        crate::text::chars_eq_str(&tail, "[]")
    };
    if is_vec {
        let base = substring(arg, 0, n - 2);
        let out = convert_scalar_exec(&base, imports);
        insert_import(imports, "use ink::prelude::vec::Vec;\n");
        concat(&concat(&literal("Vec<"), &out), &literal(">"))
    } else {
        convert_scalar_exec(arg, imports)
    }
}

proof fn lemma_convert_all_len(list: Seq<Seq<char>>, imports: Seq<Seq<char>>, fuel: nat)
    ensures
        convert_all(list, imports, fuel).0.len() == list.len(),
    decreases list.len(),
{
    if list.len() > 0 {
        let (head, imports1) = convert_type(list[0], imports, fuel);
        lemma_convert_all_len(list.drop_first(), imports1, fuel);
    }
}

/// Converts a Solidity type into an ink! type (`address` to `AccountId`,
/// `uint` to `u128`, `T[]` to `Vec<T>`, `mapping(K => V)` to
/// `Mapping<K, V>`, ...) and records the imports the type needs.
pub fn convert_variable_type(arg_type: &Vec<char>, imports: &mut Vec<String>) -> (r: Vec<char>)
    ensures
        no_duplicates(strings_view(old(imports)@)) ==> no_duplicates(strings_view(final(imports)@)),
        (r@, strings_view(final(imports)@)) == convert_variable_type_spec(
            arg_type@,
            strings_view(old(imports)@),
        ),
{
    reveal(convert_variable_type_spec);
    let fuel: usize = if arg_type.len() < usize::MAX {
        arg_type.len() + 1
    } else {
        usize::MAX
    };
    convert_type_fuel(arg_type, imports, fuel)
}


/// The width chosen for `uintN` and `intN` is the smallest of 8, 16, 32, 64
/// and 128 bits that holds N bits, and 128 for anything wider.
pub proof fn lemma_int_bucket(n: int)
    ensures
        int_bucket(n) == 8 || int_bucket(n) == 16 || int_bucket(n) == 32 || int_bucket(n) == 64
            || int_bucket(n) == 128,
        n <= 128 ==> n <= int_bucket(n),
        int_bucket(n) > 8 ==> n > int_bucket(n) / 2,
{
}

} // verus!

verus! {

/// An array type `T[]` (not a mapping) converts to `Vec<` the conversion of
/// `T` `>`, never to the bare element type. The array suffix is found by
/// the text's byte length, so `T` is taken in one byte per character.
pub proof fn lemma_array_is_vec(t: Seq<char>, imports: Seq<Seq<char>>)
    requires
        utf8_len(t) == t.len(),
        t.len() + 2 <= usize::MAX,
        !regex_match(MAPPING_TYPE@, t + "[]"@),
    ensures
        convert_variable_type_spec(t + "[]"@, imports).0 == "Vec<"@ + convert_scalar(t, imports).0 + ">"@,
{
    reveal(convert_variable_type_spec);
    reveal_strlit("[]");
    let arg = t + "[]"@;
    assert(arg.len() == t.len() + 2);
    assert(arg.drop_last() =~= t.push('['));
    assert(t.push('[').drop_last() =~= t);
    assert(arg.last() == ']');
    assert(t.push('[').last() == '[');
    assert((']' as u32) == 93 && ('[' as u32) == 91);
    assert(crate::text::utf8_width(']') == 1 && crate::text::utf8_width('[') == 1);
    assert(utf8_len(t.push('[')) == utf8_len(t) + 1);
    assert(utf8_len(arg) == utf8_len(t.push('[')) + 1);
    assert(sat_byte_len(arg) == t.len() + 2);
    assert(substring_spec(arg, t.len() as int, (t.len() + 2) as int) =~= "[]"@);
    assert(substring_spec(arg, 0, t.len() as int) =~= t);
    assert(array_element(arg) == Some(t));
    assert(type_fuel(arg) > 0);
}

} // verus!
