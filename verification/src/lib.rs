//! The decision-making core of a stress tester for competitive-programming
//! solutions: checkers, verdicts, limits, build recipes and reports.
//!
//! Everything here computes on plain values. Running programs, reading files
//! and printing happen around this library, which is told what was observed
//! and answers what to do next.

pub mod build_laws;
pub mod builder;
pub mod checker;
pub mod checker_laws;
pub mod double;
pub mod duration;
pub mod figure_laws;
pub mod judge;
pub mod judge_laws;
pub mod lang;
pub mod number;
pub mod path;
pub mod path_laws;
pub mod report;
pub mod report_laws;
pub mod run_laws;
pub mod runner;
pub mod session;
pub mod session_laws;
pub mod text;
pub mod text_laws;
pub mod verdict_laws;
