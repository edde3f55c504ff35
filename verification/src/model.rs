//! Request, response and finding types shared by all verification tiers.
//!
//! Scores are carried as integers in per-mille (`1000` stands for a full
//! score of `1.0`); the transport layer converts them to floats at the edge.

use vstd::prelude::*;

verus! {

/// Full score, in per-mille.
pub const SCORE_FULL: u32 = 1000;

/// Severity of a finding.
#[derive(Clone, Copy, Debug, PartialEq, Eq, Structural)]
pub enum Severity {
    Error,
    Warning,
}

/// Outcome of one named check.
#[derive(Clone, Copy, Debug, PartialEq, Eq, Structural)]
pub enum CheckStatus {
    Passed,
    Failed,
}

/// A finding with a stable machine-readable code, a human-readable message,
/// a severity and an optional source location (`0` means "unlocated").
pub struct Issue {
    pub code: String,
    pub message: String,
    pub severity: Severity,
    pub line: u32,
    pub column: u32,
}

/// Mathematical model of an [`Issue`].
pub struct IssueView {
    pub code: Seq<char>,
    pub message: Seq<char>,
    pub severity: Severity,
    pub line: u32,
    pub column: u32,
}

impl View for Issue {
    type V = IssueView;

    open spec fn view(&self) -> IssueView {
        IssueView {
            code: self.code@,
            message: self.message@,
            severity: self.severity,
            line: self.line,
            column: self.column,
        }
    }
}

/// Outcome of one verification tier: name, status, message, per-check score
/// in per-mille, and the tier number (1 = static, 2 = dynamic, 3 = formal)
/// used only for ordering and display.
pub struct VerificationResult {
    pub check_name: String,
    pub status: CheckStatus,
    pub message: String,
    pub score: u32,
    pub tier: u32,
}

/// Mathematical model of a [`VerificationResult`].
pub struct ResultView {
    pub check_name: Seq<char>,
    pub status: CheckStatus,
    pub message: Seq<char>,
    pub score: u32,
    pub tier: u32,
}

impl View for VerificationResult {
    type V = ResultView;

    open spec fn view(&self) -> ResultView {
        ResultView {
            check_name: self.check_name@,
            status: self.status,
            message: self.message@,
            score: self.score,
            tier: self.tier,
        }
    }
}

/// A caller-supplied behavioral assertion about the code, expressed as a
/// constraint expression to be checked for satisfiability.
pub struct Contract {
    pub id: String,
    pub expression: String,
}

/// A verification request: source text, a case-insensitive language
/// identifier (empty means the primary supported language), the set of
/// requested check names, and an ordered sequence of contracts.
pub struct VerifyRequest {
    pub code: String,
    pub language: String,
    pub checks: Vec<String>,
    pub contracts: Vec<Contract>,
}

/// The overall outcome: validity, aggregate score in per-mille, the
/// ordered findings, and the ordered per-tier results.
pub struct VerifyResponse {
    pub valid: bool,
    pub score: u32,
    pub issues: Vec<Issue>,
    pub results: Vec<VerificationResult>,
}

/// The views of a sequence of issues.
pub open spec fn issue_views(s: Seq<Issue>) -> Seq<IssueView> {
    s.map_values(|i: Issue| i@)
}

/// The views of a sequence of per-tier results.
pub open spec fn result_views(s: Seq<VerificationResult>) -> Seq<ResultView> {
    s.map_values(|r: VerificationResult| r@)
}

/// The expression texts of a sequence of contracts, in order.
pub open spec fn contract_expressions(s: Seq<Contract>) -> Seq<Seq<char>> {
    s.map_values(|c: Contract| c.expression@)
}

} // verus!
