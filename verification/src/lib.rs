//! A multi-tier code verification engine.
//!
//! Given a source snippet and a set of requested checks, the engine decides
//! whether the snippet is acceptable and produces a score plus a structured
//! list of findings. Three independent tiers exist: static analysis (syntax
//! validity and documentation coverage), dynamic analysis (sandboxed
//! execution under resource limits), and formal analysis (satisfiability
//! checking of behavioral contracts). An orchestrator sequences the tiers
//! and folds their outcomes into one verdict.

pub mod model;
pub mod text;
pub mod ast;
pub mod analysis;
pub mod parse;
pub mod sandbox;
pub mod formal;
pub mod orchestrator;
