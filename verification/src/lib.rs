//! Verified decision core of the Herdr harness coordinator.
use vstd::prelude::*;

pub mod activation;
pub mod activation_laws;
pub mod adapter;
pub mod attachment;
pub mod capability;
pub mod cli;
pub mod cli_laws;
pub mod contract;
pub mod digest;
pub mod error;
pub mod evidence_laws;
pub mod graph;
pub mod herdr;
pub mod host;
pub mod host_laws;
pub mod identity;
pub mod json;
pub mod ledger;
pub mod mcp;
pub mod mcp_tools;
pub mod names;
pub mod opening_laws;
pub mod paths;
pub mod process_adapter;
pub mod profile;
pub mod profile_laws;
pub mod provider_laws;
pub mod provider_session;
pub mod reader;
pub mod repository;
pub mod rows;
pub mod run_laws;
pub mod scopes;
pub mod select;
pub mod snapshots;
pub mod startup_laws;
pub mod status_laws;
pub mod supervisor_host;
pub mod supervisor_loop;
pub mod text;
pub mod text_laws;
pub mod views;
pub mod worker_loop;
pub mod worker_start;
pub mod workspace;
pub mod workspace_laws;
pub mod workspace_run;

verus! {

} // verus!
