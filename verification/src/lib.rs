//! Core logic of the Macro services: dependency slimming plans over a workspace
//! graph, CI workflow step building, document-storage request handling,
//! read-receipt tracking and Gmail subscription decisions.

pub mod auth_context;
pub mod call_rtc;
pub mod bool_count;
pub mod workspace_graph;
pub mod dependency_paths;
pub mod ranking;
pub mod slim_plan;
pub mod fluent;
pub mod workflow_steps;
pub mod ci_steps;
pub mod decimal;
pub mod document_api;
pub mod text;
pub mod tracking;
pub mod gmail_subscription;
