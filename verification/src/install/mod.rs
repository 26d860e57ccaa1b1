//! `grafy install --with-scip`: which SCIP indexers to install and how,
//! given the toolchains found on the host, and the summaries printed
//! afterwards. Installing is idempotent (tools already on PATH are left
//! alone) and never uses `sudo`.

pub mod installer;
pub mod prereqs;
pub mod report;
