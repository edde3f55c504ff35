//! Verification orchestrator.
//!
//! Per request it drives the three tiers in fixed order, static before
//! dynamic before formal, each independently: no tier's failure prevents a
//! later tier from running. The static tier runs when the language matches
//! the primary supported language or is unspecified; the dynamic tier when
//! the `execution` check was requested; the formal tier when the request
//! carries contracts. Findings and per-tier results are folded into one
//! decision: any finding invalidates the request, and an unsatisfiable
//! contract set additionally halves the aggregate score.

use vstd::prelude::*;
use crate::model::{
    Issue,
    IssueView,
    VerificationResult,
    ResultView,
    CheckStatus,
    VerifyRequest,
    VerifyResponse,
    issue_views,
    result_views,
    contract_expressions,
    SCORE_FULL,
};
use crate::ast::ParseOutcome;
use crate::analysis::{analyze, static_issue_views};
use crate::parse::{parse_python, python_parse};
use crate::sandbox::{
    ExecutionResult,
    SandboxFailure,
    SandboxFailureV,
    WasmSandbox,
    execution_issue,
    execution_issue_view,
};
use crate::formal::{SmtVerifier, spec_satisfiable};
use crate::text::{lang_matches, is_supported_language, seq_has_string, vec_has_string,
    string_views};

verus! {

/// The wall-clock budget handed to the sandboxed execution, in
/// milliseconds.
pub const DEFAULT_TIMEOUT_MS: u64 = 1000;

/// The view of a dynamic-tier outcome: the captured output on success, or
/// the failure kind.
pub open spec fn exec_outcome_views(exec: Option<Result<ExecutionResult, SandboxFailure>>) -> Option<
    Result<Seq<char>, SandboxFailureV>,
> {
    match exec {
        Some(outcome) => match outcome {
            Ok(res) => Some(Ok(res.output@)),
            Err(f) => Some(Err(f@)),
        },
        None => None,
    }
}

/// The findings the dynamic tier contributes: exactly one per failure.
pub open spec fn exec_issue_views(execv: Option<Result<Seq<char>, SandboxFailureV>>) -> Seq<
    IssueView,
> {
    match execv {
        Some(outcome) => match outcome {
            Ok(_) => seq![],
            Err(f) => seq![execution_issue_view(f)],
        },
        None => seq![],
    }
}

/// The dynamic tier's entry in the result list.
pub open spec fn exec_result_view(outcome: Result<Seq<char>, SandboxFailureV>) -> ResultView {
    match outcome {
        Ok(output) => ResultView {
            check_name: "execution"@,
            status: CheckStatus::Passed,
            message: output,
            score: SCORE_FULL,
            tier: 2,
        },
        Err(_) => ResultView {
            check_name: "execution"@,
            status: CheckStatus::Failed,
            message: "execution failed"@,
            score: 0,
            tier: 2,
        },
    }
}

/// The formal tier's entry in the result list.
pub open spec fn formal_result_view(sat: bool) -> ResultView {
    if sat {
        ResultView {
            check_name: "constraint_solver"@,
            status: CheckStatus::Passed,
            message: "constraints satisfiable"@,
            score: SCORE_FULL,
            tier: 3,
        }
    } else {
        ResultView {
            check_name: "constraint_solver"@,
            status: CheckStatus::Failed,
            message: "constraints unsatisfiable"@,
            score: 0,
            tier: 3,
        }
    }
}

/// All findings of a request, static tier first, then dynamic.
pub open spec fn spec_issue_views(
    req: VerifyRequest,
    parsed: Option<ParseOutcome>,
    execv: Option<Result<Seq<char>, SandboxFailureV>>,
) -> Seq<IssueView> {
    (match parsed {
        Some(po) => static_issue_views(po, seq_has_string(req.checks@, "docstrings"@)),
        None => seq![],
    }) + exec_issue_views(execv)
}

/// All per-tier results of a request, in tier order.
pub open spec fn spec_result_views(
    execv: Option<Result<Seq<char>, SandboxFailureV>>,
    has_contracts: bool,
    sat: bool,
) -> Seq<ResultView> {
    (match execv {
        Some(outcome) => seq![exec_result_view(outcome)],
        None => seq![],
    }) + if has_contracts {
        seq![formal_result_view(sat)]
    } else {
        seq![]
    }
}

/// What the response to a request must hold, given the parse outcome of
/// the static tier and the dynamic tier's outcome: the findings and
/// results of the tiers that ran, validity exactly when nothing was found
/// and the contracts (if any) are satisfiable, and the full score except
/// that an unsatisfiable contract set halves it.
pub open spec fn response_matches(
    r: VerifyResponse,
    req: VerifyRequest,
    parsed: Option<ParseOutcome>,
    execv: Option<Result<Seq<char>, SandboxFailureV>>,
) -> bool {
    let ivs = spec_issue_views(req, parsed, execv);
    let sat = spec_satisfiable(contract_expressions(req.contracts@));
    let has = req.contracts@.len() > 0;
    &&& issue_views(r.issues@) == ivs
    &&& result_views(r.results@) == spec_result_views(execv, has, sat)
    &&& r.valid == (ivs.len() == 0 && (has ==> sat))
    &&& r.score == if has && !sat {
        SCORE_FULL / 2
    } else {
        SCORE_FULL
    }
}

/// The parse outcome the static tier works on: parsing happens exactly
/// when the language matches the primary supported language.
pub open spec fn spec_parse_of(req: VerifyRequest) -> Option<ParseOutcome> {
    if lang_matches(req.language@) {
        Some(python_parse(req.code@))
    } else {
        None
    }
}

/// The verification orchestrator; it keeps no state across requests.
#[derive(Debug, Default)]
pub struct MyVerifier {}

impl MyVerifier {
    /// Handles one request with the built-in sandbox: the dynamic tier runs
    /// exactly when `execution` was requested, and the simulated unit then
    /// reports its fixed success signature.
    pub fn verify(&self, req: VerifyRequest) -> (r: VerifyResponse)
        ensures
            seq_has_string(req.checks@, "execution"@) ==> response_matches(
                r,
                req,
                spec_parse_of(req),
                Some(Ok("Execution successful (Simulated WASM Sandbox)"@)),
            ),
            !seq_has_string(req.checks@, "execution"@) ==> response_matches(
                r,
                req,
                spec_parse_of(req),
                None::<Result<Seq<char>, SandboxFailureV>>,
            ),
    {
        let want_exec = vec_has_string(&req.checks, "execution");
        let exec_outcome: Option<Result<ExecutionResult, SandboxFailure>> = if want_exec {
            match WasmSandbox::new() {
                Ok(sandbox) => Some(sandbox.execute(req.code.as_str().as_bytes(), DEFAULT_TIMEOUT_MS)),
                Err(f) => Some(Err(f)),
            }
        } else {
            None
        };
        self.verify_with_execution(&req, exec_outcome)
    }

    /// Handles one request, the dynamic tier's outcome supplied by the
    /// caller (absent when the `execution` check is not wanted). This is
    /// the entry point for running the code in an external interpreter:
    /// the caller performs the run and hands in what it observed.
    pub fn verify_with_execution(
        &self,
        req: &VerifyRequest,
        exec: Option<Result<ExecutionResult, SandboxFailure>>,
    ) -> (r: VerifyResponse)
        ensures
            response_matches(r, *req, spec_parse_of(*req), exec_outcome_views(exec)),
    {
        let ghost execv = exec_outcome_views(exec);
        let lang_ok = is_supported_language(&req.language);
        let want_docs = vec_has_string(&req.checks, "docstrings");

        // Static tier.
        let mut issues: Vec<Issue> = if lang_ok {
            let po = parse_python(&req.code);
            analyze(&po, want_docs)
        } else {
            Vec::new()
        };
        let ghost static_views = issue_views(issues@);
        proof {
            assert(static_views == match spec_parse_of(*req) {
                Some(po) => static_issue_views(po, seq_has_string(req.checks@, "docstrings"@)),
                None => seq![],
            });
        }

        // Dynamic tier.
        let mut results: Vec<VerificationResult> = Vec::new();
        match &exec {
            Some(outcome) => {
                match outcome {
                    Ok(res) => {
                        results.push(
                            VerificationResult {
                                check_name: "execution".to_owned(),
                                status: CheckStatus::Passed,
                                message: res.output.clone(),
                                score: SCORE_FULL,
                                tier: 2,
                            },
                        );
                    },
                    Err(f) => {
                        let ghost prev_issues = issues@;
                        let issue = execution_issue(f);
                        let ghost iv = issue@;
                        issues.push(issue);
                        proof {
                            assert(issue_views(prev_issues.push(issue)) =~= issue_views(
                                prev_issues,
                            ).push(iv));
                        }
                        results.push(
                            VerificationResult {
                                check_name: "execution".to_owned(),
                                status: CheckStatus::Failed,
                                message: "execution failed".to_owned(),
                                score: 0,
                                tier: 2,
                            },
                        );
                    },
                }
            },
            None => {},
        }
        proof {
            assert(issue_views(issues@) =~= static_views + exec_issue_views(execv));
        }
        let ghost results_after_exec = result_views(results@);
        proof {
            assert(results_after_exec =~= match execv {
                Some(outcome) => seq![exec_result_view(outcome)],
                None => seq![],
            });
        }

        // Formal tier.
        let has_contracts = req.contracts.len() > 0;
        let mut sat = true;
        if has_contracts {
            let mut exprs: Vec<String> = Vec::new();
            let mut i: usize = 0;
            while i < req.contracts.len()
                invariant
                    i <= req.contracts@.len(),
                    string_views(exprs@) == contract_expressions(req.contracts@).take(i as int),
                decreases req.contracts@.len() - i,
            {
                let e = req.contracts[i].expression.clone();
                let ghost ev = e@;
                let ghost prev = exprs@;
                exprs.push(e);
                proof {
                    assert(string_views(prev.push(e)) =~= string_views(prev).push(ev));
                    assert(string_views(exprs@) =~= contract_expressions(req.contracts@).take(
                        i + 1,
                    ));
                }
                i = i + 1;
            }
            proof {
                assert(contract_expressions(req.contracts@).take(req.contracts@.len() as int)
                    =~= contract_expressions(req.contracts@));
            }
            let solver = SmtVerifier::new();
            sat = solver.verify_constraints(exprs);
            let ghost prev_results = results@;
            let fres = if sat {
                VerificationResult {
                    check_name: "constraint_solver".to_owned(),
                    status: CheckStatus::Passed,
                    message: "constraints satisfiable".to_owned(),
                    score: SCORE_FULL,
                    tier: 3,
                }
            } else {
                VerificationResult {
                    check_name: "constraint_solver".to_owned(),
                    status: CheckStatus::Failed,
                    message: "constraints unsatisfiable".to_owned(),
                    score: 0,
                    tier: 3,
                }
            };
            let ghost fv = fres@;
            results.push(fres);
            proof {
                assert(result_views(prev_results.push(fres)) =~= result_views(prev_results).push(
                    fv,
                ));
                assert(fv == formal_result_view(sat));
            }
        }
        proof {
            assert(result_views(results@) =~= spec_result_views(
                execv,
                req.contracts@.len() > 0,
                spec_satisfiable(contract_expressions(req.contracts@)),
            ));
        }

        // Finalize.
        let valid = issues.len() == 0 && (!has_contracts || sat);
        let score: u32 = if has_contracts && !sat {
            SCORE_FULL / 2
        } else {
            SCORE_FULL
        };
        proof {
            assert(issues@.len() == issue_views(issues@).len());
        }
        VerifyResponse { valid, score, issues, results }
    }
}

/// Any finding at all invalidates the request; in particular every finding
/// of severity error does.
pub proof fn lemma_findings_invalidate(
    r: VerifyResponse,
    req: VerifyRequest,
    parsed: Option<ParseOutcome>,
    execv: Option<Result<Seq<char>, SandboxFailureV>>,
)
    requires
        response_matches(r, req, parsed, execv),
    ensures
        r.issues@.len() > 0 ==> !r.valid,
{
    assert(r.issues@.len() == issue_views(r.issues@).len());
}

/// The aggregate score stays within its range: the full score, halved at
/// most once by an unsatisfiable contract set.
pub proof fn lemma_score_range(
    r: VerifyResponse,
    req: VerifyRequest,
    parsed: Option<ParseOutcome>,
    execv: Option<Result<Seq<char>, SandboxFailureV>>,
)
    requires
        response_matches(r, req, parsed, execv),
    ensures
        SCORE_FULL / 2 <= r.score <= SCORE_FULL,
{
}

/// A request with no recognized checks, no contracts and no parse failure
/// verifies vacuously: valid, with the full score.
pub proof fn lemma_vacuous_pass(
    r: VerifyResponse,
    req: VerifyRequest,
    parsed: Option<ParseOutcome>,
)
    requires
        response_matches(r, req, parsed, None::<Result<Seq<char>, SandboxFailureV>>),
        !seq_has_string(req.checks@, "docstrings"@),
        req.contracts@.len() == 0,
        parsed matches Some(po) ==> !(po is Failed),
    ensures
        r.valid,
        r.score == SCORE_FULL,
{
    match parsed {
        Some(po) => {
            assert(static_issue_views(po, false) =~= seq![]);
            assert(spec_issue_views(req, parsed, None::<Result<Seq<char>, SandboxFailureV>>)
                =~= seq![]);
        },
        None => {
            assert(spec_issue_views(req, parsed, None::<Result<Seq<char>, SandboxFailureV>>)
                =~= seq![]);
        },
    }
}

} // verus!
