//! The untyped syntax tree and the parser that builds it from tokens.

pub use self::{
    common::{DocString, Ident, Pragma, TypeParam, Universe},
    constants::{ConstantDecl, ConstantDef},
    expressions::{
        ArithExpr, AtomicExpr, CastExpr, CmpExpr, CompoundExpr, Expression, FnCallArgs, FnCallExpr,
        IntrinExpr, LogicExpr, NamedArg, PathExpr, PathSegment, SelectExpr,
    },
    functions::{FunctionDecl, FunctionDef, MethodDecl, MethodDef, Param},
    grammar::ParseError,
    imports::{ImportStmt, ImportedSymbol},
    instances::{InstanceDecl, InstanceDef},
    literals::{literal_bool, literal_char, literal_f64, literal_nil, literal_str, literal_u64},
    modules::{parse_module, Module, ModuleDecl, ModuleDeclItem, ModuleDef, ModuleDefItem},
    records::{RecordDecl, Slot},
    statements::{
        AssignStmt, Binding, BorrowMode, BorrowMutMode, BorrowStmt, CaseStmt, CaseWhen, ForStmt,
        IfStmt, LetStmt, LetStmtTarget, Statement, WhileStmt,
    },
    type_classes::{TypeClassDecl, TypeClassDef},
    types::{TypeDecl, TypeSpec},
    unions::{Case, UnionDecl},
};

pub mod common;
pub mod constants;
pub mod copies;
pub mod expressions;
pub mod functions;
pub mod grammar;
pub mod imports;
pub mod instances;
pub mod literals;
pub mod modules;
pub mod printer;
pub mod records;
pub mod statements;
pub mod type_classes;
pub mod types;
pub mod unions;
