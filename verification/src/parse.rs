//! Trusted boundary to the external source parser.
//!
//! The parser that turns source text into an abstract syntax tree is an
//! external collaborator: only the statement shapes the analyzer reads are
//! carried over, everything else is folded into opaque statements. Parsing
//! is deterministic in the source text, so its outcome is named rather than
//! described.

use vstd::prelude::*;
use crate::ast::{ParseOutcome, PyStmt};
use rustpython_parser::ast::{Stmt, Expr, Constant, Mod};
use rustpython_parser::text_size::TextRange;

verus! {

#[verifier::external_type_specification]
#[verifier::external_body]
pub struct ExTextRange(TextRange);

#[verifier::external_type_specification]
#[verifier::external_body]
#[verifier::reject_recursive_types(R)]
pub struct ExStmt<R>(Stmt<R>);

/// What parsing the primary supported language yields for a given source
/// text: a function of the text alone.
pub uninterp spec fn python_parse(s: Seq<char>) -> ParseOutcome;

/// Relies on `rustpython_parser::parse` in module mode: the outcome depends
/// on the source text alone; on failure `e.error` carries the diagnostic
/// text and `e.offset` the reported position.
#[verifier::external_body]
pub fn parse_python(code: &String) -> (r: ParseOutcome)
    ensures
        r == python_parse(code@),
{
    match rustpython_parser::parse(code, rustpython_parser::Mode::Module, "<embedded>") {
        Ok(Mod::Module(m)) => ParseOutcome::Parsed(convert_stmts(&m.body)),
        Ok(_) => ParseOutcome::Parsed(Vec::new()),
        Err(e) => ParseOutcome::Failed {
            message: format!("{}", e.error),
            offset: u32::from(e.offset),
        },
    }
}

/// Relies on the shape of `rustpython_parser::ast::Stmt` lists: converts
/// each statement in order.
#[verifier::external_body]
fn convert_stmts(stmts: &[Stmt]) -> (r: Vec<PyStmt>) {
    stmts.iter().map(convert_stmt).collect()
}

/// Relies on the shape of `rustpython_parser::ast::Stmt`: keeps the three
/// definition kinds with their names and bodies, marks a bare
/// string-constant expression statement, and folds the rest together.
#[verifier::external_body]
fn convert_stmt(s: &Stmt) -> (r: PyStmt) {
    match s {
        Stmt::FunctionDef(f) => PyStmt::FunctionDef { name: f.name.as_str().to_owned(), body: convert_stmts(&f.body) },
        Stmt::AsyncFunctionDef(f) => PyStmt::AsyncFunctionDef { name: f.name.as_str().to_owned(), body: convert_stmts(&f.body) },
        Stmt::ClassDef(c) => PyStmt::ClassDef { name: c.name.as_str().to_owned(), body: convert_stmts(&c.body) },
        Stmt::Expr(e) => match &*e.value {
            Expr::Constant(c) if matches!(c.value, Constant::Str(_)) => PyStmt::StringConstExpr,
            _ => PyStmt::Other,
        },
        _ => PyStmt::Other,
    }
}

} // verus!
