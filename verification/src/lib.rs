//! A drift auditor for source repositories: rules that compare what a
//! repository declares with what it holds, each yielding findings.

pub mod audit;
pub mod git;
pub mod ignore;
pub mod issue;
pub mod markers;
pub mod plan;
pub mod report;
pub mod sequence;
pub mod stale;
pub mod text;
pub mod tree;
pub mod version;

pub use crate::audit::{run_audit, Snapshot};
pub use crate::issue::Issue;
