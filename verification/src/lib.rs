//! Sol2Ink: turns Solidity contracts and interfaces into a structured
//! representation from which ink! code is generated.

pub mod text;
pub mod structures;
pub mod pattern;
pub mod formatter;
pub mod cursor;
pub mod imports;
pub mod types;
pub mod patterns;
pub mod model;
pub mod scope;
pub mod expressions;
pub mod statements;
pub mod statement_parser;
pub mod scanner;
pub mod declarations;
pub mod parser;
pub mod shape;
pub mod declared;
