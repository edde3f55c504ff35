//! The statement model that the documentation analyzer works on.
//!
//! Statements are a tagged union over the closed set of kinds the analyzer
//! distinguishes: the three definition kinds (function, async function,
//! class), a bare expression statement whose value is a string literal
//! constant (the docstring shape), and everything else.

use vstd::prelude::*;

verus! {

/// One statement of the analyzed source, reduced to what documentation
/// analysis reads: definitions keep their name and body; a bare
/// string-literal expression statement is kept apart because it is the
/// docstring shape; all other statements are opaque.
pub enum PyStmt {
    FunctionDef { name: String, body: Vec<PyStmt> },
    AsyncFunctionDef { name: String, body: Vec<PyStmt> },
    ClassDef { name: String, body: Vec<PyStmt> },
    StringConstExpr,
    Other,
}

/// What parsing produced: either the top-level statements of the module,
/// or the parser's diagnostic text together with its reported offset.
pub enum ParseOutcome {
    Parsed(Vec<PyStmt>),
    Failed { message: String, offset: u32 },
}

/// One definition met during traversal: its name and whether its body's
/// first statement is a bare string-literal expression.
pub struct DefRecord {
    pub name: Seq<char>,
    pub documented: bool,
}

/// Whether a definition body starts with a docstring: its first statement
/// is a bare expression whose value is a string literal constant.
pub open spec fn body_documented(body: Seq<PyStmt>) -> bool {
    body.len() > 0 && body[0] is StringConstExpr
}

/// The definitions under one statement, in AST pre-order: the statement's
/// own definition first (if it is one), then those of its body.
pub open spec fn stmt_defs(s: PyStmt) -> Seq<DefRecord>
    decreases s,
{
    match s {
        PyStmt::FunctionDef { name, body } => seq![
            DefRecord { name: name@, documented: body_documented(body@) },
        ] + stmts_defs(body@),
        PyStmt::AsyncFunctionDef { name, body } => seq![
            DefRecord { name: name@, documented: body_documented(body@) },
        ] + stmts_defs(body@),
        PyStmt::ClassDef { name, body } => seq![
            DefRecord { name: name@, documented: body_documented(body@) },
        ] + stmts_defs(body@),
        PyStmt::StringConstExpr => seq![],
        PyStmt::Other => seq![],
    }
}

/// The definitions under a statement sequence, in AST pre-order.
pub open spec fn stmts_defs(l: Seq<PyStmt>) -> Seq<DefRecord>
    decreases l,
{
    if l.len() == 0 {
        seq![]
    } else {
        stmt_defs(l[0]) + stmts_defs(l.drop_first())
    }
}

/// How many of the definitions are documented.
pub open spec fn num_documented(defs: Seq<DefRecord>) -> nat
    decreases defs,
{
    if defs.len() == 0 {
        0
    } else {
        num_documented(defs.drop_last()) + if defs.last().documented {
            1nat
        } else {
            0nat
        }
    }
}

/// The names of the undocumented definitions, in traversal order.
pub open spec fn missing_names(defs: Seq<DefRecord>) -> Seq<Seq<char>>
    decreases defs,
{
    if defs.len() == 0 {
        seq![]
    } else {
        missing_names(defs.drop_last()) + if defs.last().documented {
            seq![]
        } else {
            seq![defs.last().name]
        }
    }
}

/// Definition records distribute over concatenation of statement lists.
pub proof fn lemma_stmts_defs_concat(a: Seq<PyStmt>, b: Seq<PyStmt>)
    ensures
        stmts_defs(a + b) == stmts_defs(a) + stmts_defs(b),
    decreases a,
{
    if a.len() == 0 {
        assert(a + b =~= b);
        assert(stmts_defs(a) + stmts_defs(b) =~= stmts_defs(b));
    } else {
        lemma_stmts_defs_concat(a.drop_first(), b);
        assert((a + b).drop_first() =~= a.drop_first() + b);
        assert((a + b)[0] == a[0]);
        assert(stmt_defs(a[0]) + (stmts_defs(a.drop_first()) + stmts_defs(b)) =~= (stmt_defs(a[0])
            + stmts_defs(a.drop_first())) + stmts_defs(b));
    }
}

/// At most `documented` of `defs.len()` definitions count as documented.
pub proof fn lemma_num_documented_le_len(defs: Seq<DefRecord>)
    ensures
        num_documented(defs) <= defs.len(),
    decreases defs,
{
    if defs.len() > 0 {
        lemma_num_documented_le_len(defs.drop_last());
    }
}

} // verus!
