//! Programs: what they deploy, what they run, and what that costs.
pub mod billing;
pub mod billing_laws;
pub mod catalog;
pub mod gateway;
pub mod deploy;
pub mod deploy_laws;
pub mod instances;
pub mod machines;
pub mod queries;
pub mod query_laws;
pub mod run_laws;
pub mod target;
