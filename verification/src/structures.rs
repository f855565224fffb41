//! The data model that the parser produces: contracts, interfaces, their
//! members, statements and expressions.

use vstd::prelude::*;

verus! {

#[derive(Debug, Clone, Copy, PartialEq, Eq, Structural, Default)]
pub enum ContractType {
    #[default]
    INTERFACE,
    CONTRACT,
}

/// A parsed Solidity contract.
/// `imports` holds each import line once, in the order they were first needed.
#[derive(Debug, PartialEq, Eq)]
pub struct Contract {
    pub name: String,
    pub fields: Vec<ContractField>,
    pub constructor: Function,
    pub events: Vec<Event>,
    pub enums: Vec<Enum>,
    pub structs: Vec<Struct>,
    pub functions: Vec<Function>,
    pub imports: Vec<String>,
    pub contract_doc: Vec<String>,
    pub modifiers: Vec<Modifier>,
}

/// A parsed Solidity interface.
#[derive(Debug, PartialEq, Eq)]
pub struct Interface {
    pub name: String,
    pub events: Vec<Event>,
    pub enums: Vec<Enum>,
    pub structs: Vec<Struct>,
    pub function_headers: Vec<FunctionHeader>,
    pub imports: Vec<String>,
    pub comments: Vec<String>,
}

#[derive(Debug, PartialEq, Eq)]
pub struct ContractField {
    pub field_type: String,
    pub name: String,
    pub comments: Vec<String>,
    pub initial_value: Option<Expression>,
    pub constant: bool,
}

#[derive(Debug, PartialEq, Eq)]
pub struct Modifier {
    pub header: FunctionHeader,
    pub statements: Vec<Statement>,
    pub comments: Vec<String>,
}

#[derive(Debug, Clone, PartialEq, Eq)]
pub struct Event {
    pub name: String,
    pub fields: Vec<EventField>,
    pub comments: Vec<String>,
}

#[derive(Debug, Clone, PartialEq, Eq)]
pub struct EventField {
    pub indexed: bool,
    pub field_type: String,
    pub name: String,
}

#[derive(Debug, Clone, PartialEq, Eq)]
pub struct Enum {
    pub name: String,
    pub values: Vec<String>,
    pub comments: Vec<String>,
}

#[derive(Debug, Clone, PartialEq, Eq)]
pub struct Struct {
    pub name: String,
    pub fields: Vec<StructField>,
    pub comments: Vec<String>,
}

#[derive(Debug, Default, Clone, PartialEq, Eq)]
pub struct StructField {
    pub name: String,
    pub field_type: String,
}

#[derive(Debug, Default, PartialEq, Eq)]
pub struct Function {
    pub header: FunctionHeader,
    pub body: Vec<Statement>,
}

#[derive(Debug, Default, PartialEq, Eq)]
pub struct FunctionHeader {
    pub name: String,
    pub params: Vec<FunctionParam>,
    pub external: bool,
    pub view: bool,
    pub payable: bool,
    pub return_params: Vec<FunctionParam>,
    pub comments: Vec<String>,
    pub modifiers: Vec<Expression>,
}

#[derive(Clone, Debug, PartialEq, Eq)]
pub struct FunctionParam {
    pub name: String,
    pub param_type: String,
}

#[derive(Debug, Eq, PartialEq)]
pub enum Statement {
    Assembly(Vec<Statement>),
    AssemblyEnd,
    Assign(Expression, Expression, Operation),
    Catch(Vec<Statement>),
    CatchEnd,
    Comment(String),
    Declaration(String, String, Option<Expression>),
    Do(Option<Box<Statement>>, Expression, Option<Box<Statement>>, Vec<Statement>),
    Loop(Option<Box<Statement>>, Expression, Option<Box<Statement>>, Vec<Statement>),
    Else(Vec<Statement>),
    ElseIf(Condition, Vec<Statement>),
    Emit(String, Vec<Expression>),
    FunctionCall(Expression),
    Group(Vec<Statement>),
    If(Condition, Vec<Statement>),
    IfEnd,
    ModifierBody,
    Raw(String),
    Require(Condition, String),
    Return(Expression),
    Ternary(Condition, Box<Statement>, Box<Statement>),
    Try(Vec<Statement>),
    TryEnd,
    While(Option<Box<Statement>>, Expression, Option<Box<Statement>>, Vec<Statement>),
    WhileEnd,
}

#[derive(Debug, Eq, PartialEq)]
pub struct Condition {
    pub left: Expression,
    pub operation: Operation,
    pub right: Option<Expression>,
}

#[derive(Debug, Copy, Clone, Eq, PartialEq, Structural)]
pub enum Operation {
    Add,
    AddAssign,
    AddOne,
    AndAssign,
    Assign,
    BitwiseAnd,
    BitwiseOr,
    Div,
    DivAssign,
    Equal,
    GreaterThanEqual,
    GreaterThan,
    LessThanEqual,
    LessThan,
    LogicalAnd,
    LogicalOr,
    Modulo,
    Mul,
    MulAssign,
    Not,
    NotEqual,
    OrAssign,
    Pow,
    Subtract,
    SubtractOne,
    SubtractAssign,
    ShiftLeft,
    ShiftRight,
    True,
    Xor,
}

/// The operation that holds exactly when `op` does not, for the comparisons,
/// the logical and the bitwise connectives; `Not` becomes `True`, and every
/// other operation becomes `Not`.
pub open spec fn negation_of(op: Operation) -> Operation {
    match op {
        Operation::BitwiseAnd => Operation::BitwiseOr,
        Operation::BitwiseOr => Operation::BitwiseAnd,
        Operation::Equal => Operation::NotEqual,
        Operation::GreaterThanEqual => Operation::LessThan,
        Operation::GreaterThan => Operation::LessThanEqual,
        Operation::LessThanEqual => Operation::GreaterThan,
        Operation::LessThan => Operation::GreaterThanEqual,
        Operation::LogicalAnd => Operation::LogicalOr,
        Operation::LogicalOr => Operation::LogicalAnd,
        Operation::Not => Operation::True,
        Operation::NotEqual => Operation::Equal,
        _ => Operation::Not,
    }
}

/// The operations that come in negated pairs.
pub open spec fn has_negated_pair(op: Operation) -> bool {
    match op {
        Operation::BitwiseAnd | Operation::BitwiseOr | Operation::Equal | Operation::NotEqual
        | Operation::GreaterThanEqual | Operation::GreaterThan | Operation::LessThanEqual
        | Operation::LessThan | Operation::LogicalAnd | Operation::LogicalOr => true,
        _ => false,
    }
}

impl Operation {
    pub fn negate(&self) -> (r: Operation)
        ensures
            r == negation_of(*self),
    {
        match self {
            Operation::BitwiseAnd => Operation::BitwiseOr,
            Operation::BitwiseOr => Operation::BitwiseAnd,
            Operation::Equal => Operation::NotEqual,
            Operation::GreaterThanEqual => Operation::LessThan,
            Operation::GreaterThan => Operation::LessThanEqual,
            Operation::LessThanEqual => Operation::GreaterThan,
            Operation::LessThan => Operation::GreaterThanEqual,
            Operation::LogicalAnd => Operation::LogicalOr,
            Operation::LogicalOr => Operation::LogicalAnd,
            Operation::Not => Operation::True,
            Operation::NotEqual => Operation::Equal,
            _ => Operation::Not,
        }
    }
}

/// Negating twice gives back every comparison, logical and bitwise connective.
pub proof fn lemma_negate_involutive(op: Operation)
    requires
        has_negated_pair(op),
    ensures
        negation_of(negation_of(op)) == op,
        has_negated_pair(negation_of(op)),
        negation_of(op) != op,
{
}

/// `Not` and `True` negate each other; every operation without a negated
/// pair other than `Not` negates to `Not`.
pub proof fn lemma_negate_unpaired(op: Operation)
    requires
        !has_negated_pair(op),
    ensures
        op == Operation::Not ==> negation_of(op) == Operation::True,
        op != Operation::Not ==> negation_of(op) == Operation::Not,
        negation_of(negation_of(op)) == (if op == Operation::Not {
            Operation::Not
        } else {
            Operation::True
        }),
{
}

#[derive(Debug, Eq, PartialEq)]
pub enum Expression {
    Arithmetic(Box<Expression>, Box<Expression>, Operation),
    Cast(bool, String, Box<Expression>),
    Condition(Box<Condition>),
    Constant(String),
    Enclosed(Box<Expression>),
    EnvCaller(Option<String>),
    FunctionCall(String, Vec<Expression>, Option<String>, bool),
    IsZero(Box<Expression>),
    Literal(String),
    Logical(Box<Expression>, Operation, Box<Expression>),
    Member(String, Option<String>),
    Mapping(Box<Expression>, Vec<Expression>, Option<Box<Expression>>),
    Modifier(String),
    NewArray(String, Box<Expression>),
    StructArg(String, Box<Expression>),
    StructInit(String, Vec<Expression>),
    Ternary(Box<Condition>, Box<Expression>, Box<Expression>),
    TransferredValue(Option<String>),
    WithSelector(Box<Expression>, Box<Expression>),
    ZeroAddressInto,
}

/// A nested block whose end the statement parser is waiting for.
#[derive(Debug, Clone, Copy, PartialEq, Eq, Structural)]
pub enum Block {
    Assembly,
    Catch,
    Else,
    ElseIf,
    If,
    Try,
    Unchecked,
    While,
}

} // verus!
