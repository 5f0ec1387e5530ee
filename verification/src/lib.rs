//! Node-resident measurement aggregation for confidential-computing
//! attestation: per-scope integrity measurement registers (IMRs) derived from
//! an append-only measurement event log, with a container-isolation policy
//! that confines each workload to its own measurement scope.

pub mod agent;
pub mod cgroup;
pub mod container;
pub mod crypto;
pub mod encoding;
pub mod errors;
pub mod event;
pub mod measurement;
pub mod policy;
pub mod service;
pub mod text;
