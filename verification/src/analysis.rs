//! Syntax and documentation analyzer.
//!
//! Given the outcome of parsing, this tier reports a syntax error as one
//! `SYNTAX_ERROR` issue, or, when the `docstrings` check was requested,
//! computes documentation coverage over every top-level and nested
//! definition in AST pre-order. A coverage ratio below one half yields one
//! summary warning plus up to five per-definition warnings, in traversal
//! order; the cap is a deliberate noise-reduction policy.

use vstd::prelude::*;
use crate::ast::{
    PyStmt,
    DefRecord,
    ParseOutcome,
    stmt_defs,
    stmts_defs,
    num_documented,
    missing_names,
    lemma_stmts_defs_concat,
    lemma_num_documented_le_len,
};
use crate::model::{Issue, IssueView, Severity, issue_views};
use crate::text::{spec_dec, spec_percent, dec_u64, percent, string_views};

verus! {

/// One definition found during traversal.
pub struct FoundDef {
    pub name: String,
    pub documented: bool,
}

/// The mathematical records behind a sequence of found definitions.
pub open spec fn def_views(s: Seq<FoundDef>) -> Seq<DefRecord> {
    s.map_values(|f: FoundDef| DefRecord { name: f.name@, documented: f.documented })
}

/// Walks one statement, appending a record per definition in pre-order.
pub fn visit_stmt(records: &mut Vec<FoundDef>, stmt: &PyStmt)
    ensures
        def_views(final(records)@) == def_views(old(records)@) + stmt_defs(*stmt),
    decreases *stmt, 1int,
{
    match stmt {
        PyStmt::FunctionDef { name, body } => visit_def(records, name, body),
        PyStmt::AsyncFunctionDef { name, body } => visit_def(records, name, body),
        PyStmt::ClassDef { name, body } => visit_def(records, name, body),
        PyStmt::StringConstExpr => {
            assert(def_views(records@) =~= def_views(records@) + stmt_defs(*stmt));
        },
        PyStmt::Other => {
            assert(def_views(records@) =~= def_views(records@) + stmt_defs(*stmt));
        },
    }
}

/// Records one definition, then walks its body for nested definitions.
fn visit_def(records: &mut Vec<FoundDef>, name: &String, body: &Vec<PyStmt>)
    ensures
        def_views(final(records)@) == def_views(old(records)@) + (seq![
            DefRecord { name: name@, documented: crate::ast::body_documented(body@) },
        ] + stmts_defs(body@)),
    decreases body@, 1int,
{
    let documented = if body.len() > 0 {
        match &body[0] {
            PyStmt::StringConstExpr => true,
            _ => false,
        }
    } else {
        false
    };
    let rec = FoundDef { name: name.clone(), documented };
    records.push(rec);
    assert(def_views(records@) =~= def_views(old(records)@) + seq![
        DefRecord { name: name@, documented: crate::ast::body_documented(body@) },
    ]);
    visit_body(records, body);
    proof {
        assert(def_views(records@) =~= def_views(old(records)@) + (seq![
            DefRecord { name: name@, documented: crate::ast::body_documented(body@) },
        ] + stmts_defs(body@)));
    }
}

/// Walks a statement sequence in order.
pub fn visit_body(records: &mut Vec<FoundDef>, stmts: &Vec<PyStmt>)
    ensures
        def_views(final(records)@) == def_views(old(records)@) + stmts_defs(stmts@),
    decreases stmts@, 0int,
{
    let mut i: usize = 0;
    while i < stmts.len()
        invariant
            i <= stmts@.len(),
            def_views(records@) == def_views(old(records)@) + stmts_defs(stmts@.take(i as int)),
        decreases stmts@.len() - i,
    {
        proof {
            assert(stmts@.take(i + 1) =~= stmts@.take(i as int) + seq![stmts@[i as int]]);
            lemma_stmts_defs_concat(stmts@.take(i as int), seq![stmts@[i as int]]);
            let single = seq![stmts@[i as int]];
            assert(single.drop_first() =~= Seq::<PyStmt>::empty());
            assert(stmts_defs(single) == stmt_defs(single[0]) + stmts_defs(single.drop_first()));
            assert(stmts_defs(single) =~= stmt_defs(stmts@[i as int]));
            assert(decreases_to!(stmts@ => stmts@[i as int]));
        }
        visit_stmt(records, &stmts[i]);
        proof {
            assert(def_views(records@) =~= def_views(old(records)@) + stmts_defs(
                stmts@.take(i + 1),
            ));
        }
        i = i + 1;
    }
    proof {
        assert(stmts@.take(stmts@.len() as int) =~= stmts@);
    }
}

/// Documentation-coverage state over one source tree: how many definitions
/// were seen, how many carry a docstring, and the undocumented names in
/// traversal order.
pub struct DocstringChecker {
    pub total_definitions: usize,
    pub documented: usize,
    pub missing_docs: Vec<String>,
}

impl DocstringChecker {
    /// A fresh checker with nothing seen yet.
    pub fn new() -> (r: Self)
        ensures
            r.total_definitions == 0,
            r.documented == 0,
            r.missing_docs@.len() == 0,
    {
        DocstringChecker { total_definitions: 0, documented: 0, missing_docs: Vec::new() }
    }

    /// Analyzes one statement sequence: afterwards the checker holds the
    /// definition count, the documented count and the undocumented names of
    /// the whole tree, in AST pre-order.
    pub fn check(&mut self, stmts: &Vec<PyStmt>)
        ensures
            final(self).total_definitions == stmts_defs(stmts@).len(),
            final(self).documented == num_documented(stmts_defs(stmts@)),
            string_views(final(self).missing_docs@) == missing_names(stmts_defs(stmts@)),
    {
        let mut records: Vec<FoundDef> = Vec::new();
        visit_body(&mut records, stmts);
        let ghost defs = stmts_defs(stmts@);
        proof {
            assert(def_views(records@) =~= defs);
        }
        let mut documented: usize = 0;
        let mut missing: Vec<String> = Vec::new();
        let mut i: usize = 0;
        while i < records.len()
            invariant
                i <= records@.len(),
                defs == def_views(records@),
                documented == num_documented(defs.take(i as int)),
                documented <= i,
                string_views(missing@) == missing_names(defs.take(i as int)),
            decreases records@.len() - i,
        {
            proof {
                assert(defs.take(i + 1).drop_last() =~= defs.take(i as int));
                assert(defs.take(i + 1).last() == defs[i as int]);
            }
            if records[i].documented {
                documented = documented + 1;
            } else {
                missing.push(records[i].name.clone());
                proof {
                    assert(string_views(missing@) =~= missing_names(defs.take(i + 1)));
                }
            }
            i = i + 1;
        }
        proof {
            assert(defs.take(records@.len() as int) =~= defs);
        }
        self.total_definitions = records.len();
        self.documented = documented;
        self.missing_docs = missing;
    }
}

/// The `SYNTAX_ERROR` finding for a parse failure: the message carries the
/// parser's diagnostic text and the column its reported offset; the line is
/// left unlocated.
pub open spec fn syntax_issue_view(msg: Seq<char>, offset: u32) -> IssueView {
    IssueView {
        code: "SYNTAX_ERROR"@,
        message: msg,
        severity: Severity::Error,
        line: 0,
        column: offset,
    }
}

/// The text of the coverage summary warning.
pub open spec fn summary_message(d: nat, t: nat) -> Seq<char> {
    "Low docstring coverage: "@ + spec_dec(d) + "/"@ + spec_dec(t) + " ("@ + spec_dec(
        spec_percent(d, t),
    ) + "%)"@
}

/// The coverage summary warning.
pub open spec fn summary_issue_view(d: nat, t: nat) -> IssueView {
    IssueView {
        code: "DOCSTRING_MISSING"@,
        message: summary_message(d, t),
        severity: Severity::Warning,
        line: 0,
        column: 0,
    }
}

/// The text of one per-definition warning.
pub open spec fn missing_message(name: Seq<char>) -> Seq<char> {
    "'"@ + name + "' lacks a docstring"@
}

/// One per-definition warning.
pub open spec fn missing_issue_view(name: Seq<char>) -> IssueView {
    IssueView {
        code: "DOCSTRING_MISSING"@,
        message: missing_message(name),
        severity: Severity::Warning,
        line: 0,
        column: 0,
    }
}

/// How many per-definition warnings are emitted for `n` undocumented
/// definitions: all of them, truncated after five.
pub open spec fn capped(n: nat) -> nat {
    if n <= 5 {
        n
    } else {
        5
    }
}

/// The findings of the documentation-coverage check. With no definitions,
/// or with a ratio of at least one half, nothing is emitted; otherwise one
/// summary warning plus up to five per-definition warnings, in traversal
/// order.
pub open spec fn doc_issue_views(defs: Seq<DefRecord>) -> Seq<IssueView> {
    let t = defs.len();
    let d = num_documented(defs);
    if t == 0 || 2 * d >= t {
        seq![]
    } else {
        seq![summary_issue_view(d, t)] + missing_names(defs).take(capped(missing_names(defs).len()) as int).map_values(
            |name: Seq<char>| missing_issue_view(name),
        )
    }
}

/// The findings of the whole static tier: a parse failure yields exactly
/// one syntax-error issue and suppresses documentation analysis; a parsed
/// tree yields the coverage findings when `docstrings` was requested.
pub open spec fn static_issue_views(po: ParseOutcome, want_docstrings: bool) -> Seq<IssueView> {
    match po {
        ParseOutcome::Failed { message, offset } => seq![syntax_issue_view(message@, offset)],
        ParseOutcome::Parsed(stmts) => if want_docstrings {
            doc_issue_views(stmts_defs(stmts@))
        } else {
            seq![]
        },
    }
}

/// Builds the coverage summary message.
fn build_summary_message(d: usize, t: usize) -> (r: String)
    requires
        d <= t,
        t >= 1,
    ensures
        r@ == summary_message(d as nat, t as nat),
{
    let p = percent(d, t);
    let mut s: String = "Low docstring coverage: ".to_owned();
    s.append(dec_u64(d as u64).as_str());
    s.append("/");
    s.append(dec_u64(t as u64).as_str());
    s.append(" (");
    s.append(dec_u64(p).as_str());
    s.append("%)");
    s
}

/// Builds one per-definition warning message.
fn build_missing_message(name: &String) -> (r: String)
    ensures
        r@ == missing_message(name@),
{
    let mut s: String = "'".to_owned();
    s.append(name.as_str());
    s.append("' lacks a docstring");
    s
}

/// Runs the static tier on a parse outcome and returns its findings.
pub fn analyze(po: &ParseOutcome, want_docstrings: bool) -> (issues: Vec<Issue>)
    ensures
        issue_views(issues@) == static_issue_views(*po, want_docstrings),
{
    let mut issues: Vec<Issue> = Vec::new();
    match po {
        ParseOutcome::Failed { message, offset } => {
            issues.push(
                Issue {
                    code: "SYNTAX_ERROR".to_owned(),
                    message: message.clone(),
                    severity: Severity::Error,
                    line: 0,
                    column: *offset,
                },
            );
            assert(issue_views(issues@) =~= static_issue_views(*po, want_docstrings));
        },
        ParseOutcome::Parsed(stmts) => {
            if want_docstrings {
                let mut checker = DocstringChecker::new();
                checker.check(stmts);
                let ghost defs = stmts_defs(stmts@);
                let t = checker.total_definitions;
                let d = checker.documented;
                proof {
                    lemma_num_documented_le_len(defs);
                }
                if t > 0 && (2 as u128) * (d as u128) < (t as u128) {
                    issues.push(
                        Issue {
                            code: "DOCSTRING_MISSING".to_owned(),
                            message: build_summary_message(d, t),
                            severity: Severity::Warning,
                            line: 0,
                            column: 0,
                        },
                    );
                    let cap: usize = if checker.missing_docs.len() <= 5 {
                        checker.missing_docs.len()
                    } else {
                        5
                    };
                    let ghost target = missing_names(defs).take(
                        capped(missing_names(defs).len()) as int,
                    ).map_values(|name: Seq<char>| missing_issue_view(name));
                    let mut i: usize = 0;
                    while i < cap
                        invariant
                            cap == capped(missing_names(defs).len()),
                            cap <= checker.missing_docs@.len(),
                            string_views(checker.missing_docs@) == missing_names(defs),
                            i <= cap,
                            d == num_documented(defs),
                            t == defs.len(),
                            t >= 1,
                            2 * d < t,
                            target == missing_names(defs).take(cap as int).map_values(
                                |name: Seq<char>| missing_issue_view(name),
                            ),
                            issue_views(issues@) == seq![
                                summary_issue_view(d as nat, t as nat),
                            ] + target.take(i as int),
                        decreases cap - i,
                    {
                        let msg = build_missing_message(&checker.missing_docs[i]);
                        let next = Issue {
                            code: "DOCSTRING_MISSING".to_owned(),
                            message: msg,
                            severity: Severity::Warning,
                            line: 0,
                            column: 0,
                        };
                        let ghost nv = next@;
                        let ghost prev = issues@;
                        issues.push(next);
                        proof {
                            assert(string_views(checker.missing_docs@)[i as int] == checker
                                .missing_docs@[i as int]@);
                            assert(missing_names(defs).take(cap as int)[i as int] == missing_names(
                                defs,
                            )[i as int]);
                            assert(nv == target[i as int]);
                            assert(issue_views(prev.push(next)) =~= issue_views(prev).push(nv));
                            assert(target.take(i + 1) =~= target.take(i as int).push(
                                target[i as int],
                            ));
                            assert(issue_views(issues@) =~= seq![
                                summary_issue_view(d as nat, t as nat),
                            ] + target.take(i + 1));
                        }
                        i = i + 1;
                    }
                    proof {
                        assert(target.take(cap as int) =~= target);
                        assert(issue_views(issues@) =~= static_issue_views(*po, want_docstrings));
                    }
                } else {
                    assert(issue_views(issues@) =~= static_issue_views(*po, want_docstrings));
                }
            } else {
                assert(issue_views(issues@) =~= static_issue_views(*po, want_docstrings));
            }
        },
    }
    issues
}

/// A parse failure yields exactly one finding: a `SYNTAX_ERROR` of
/// severity error, and never a `DOCSTRING_MISSING` one, whatever checks
/// were requested.
pub proof fn lemma_parse_failure_issues(po: ParseOutcome, want_docstrings: bool)
    requires
        po is Failed,
    ensures
        static_issue_views(po, want_docstrings).len() == 1,
        static_issue_views(po, want_docstrings)[0].code == "SYNTAX_ERROR"@,
        static_issue_views(po, want_docstrings)[0].severity == Severity::Error,
        forall|i: int|
            0 <= i < static_issue_views(po, want_docstrings).len() ==> static_issue_views(
                po,
                want_docstrings,
            )[i].code != "DOCSTRING_MISSING"@,
{
    reveal_strlit("SYNTAX_ERROR");
    reveal_strlit("DOCSTRING_MISSING");
    assert forall|i: int|
        0 <= i < static_issue_views(po, want_docstrings).len() implies static_issue_views(
        po,
        want_docstrings,
    )[i].code != "DOCSTRING_MISSING"@ by {
        assert("SYNTAX_ERROR"@.len() == 12);
        assert("DOCSTRING_MISSING"@.len() == 17);
        assert(static_issue_views(po, want_docstrings)[i].code == "SYNTAX_ERROR"@);
    }
}

/// With zero definitions in the tree, no `DOCSTRING_MISSING` finding is
/// emitted, even when the `docstrings` check was requested.
pub proof fn lemma_no_definitions_no_coverage_issue(stmts: Seq<PyStmt>, want_docstrings: bool)
    requires
        stmts_defs(stmts).len() == 0,
    ensures
        doc_issue_views(stmts_defs(stmts)).len() == 0,
{
}

/// The coverage policy: a ratio of at least one half emits nothing; a lower
/// ratio emits exactly one summary warning plus one warning per
/// undocumented definition in traversal order, truncated after five.
pub proof fn lemma_coverage_policy(defs: Seq<DefRecord>)
    ensures
        2 * num_documented(defs) >= defs.len() ==> doc_issue_views(defs).len() == 0,
        defs.len() > 0 && 2 * num_documented(defs) < defs.len() ==> {
            let issues = doc_issue_views(defs);
            let names = missing_names(defs);
            &&& issues.len() == 1 + capped(names.len())
            &&& issues[0] == summary_issue_view(num_documented(defs), defs.len())
            &&& forall|i: int|
                0 <= i < capped(names.len()) ==> issues[i + 1] == missing_issue_view(names[i])
        },
{
    if defs.len() > 0 && 2 * num_documented(defs) < defs.len() {
        let names = missing_names(defs);
        let mapped = names.take(capped(names.len()) as int).map_values(
            |name: Seq<char>| missing_issue_view(name),
        );
        assert forall|i: int| 0 <= i < capped(names.len()) implies doc_issue_views(defs)[i + 1]
            == missing_issue_view(names[i]) by {
            assert(mapped[i] == missing_issue_view(names.take(capped(names.len()) as int)[i]));
        }
    }
}

} // verus!
