//! Logic of an Aseman node.
pub mod actions;
pub mod authority;
pub mod authority_laws;
pub mod clock;
pub mod creature;
pub mod decimal;
pub mod finance;
pub mod guest_data;
pub mod host;
pub mod host_laws;
pub mod json;
pub mod models;
pub mod node_laws;
pub mod order;
pub mod order_laws;
pub mod outside;
pub mod packets;
pub mod program;
pub mod startup;
pub mod storage_http;
pub mod store;
pub mod table;
pub mod telemetry;
pub mod text;
pub mod text_laws;
pub mod workload_laws;
pub mod workloads;
