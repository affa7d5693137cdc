//! Verified edge-runtime policy library for a small, explicit reverse-proxy boundary.

pub mod delivery;
pub mod downstream_tls;
pub mod edge_contract;
pub mod edge_routing;
pub mod forwarding_policy;
pub mod http_intermediary_policy;
pub mod http_model;
pub mod gateway_proxy;
pub mod host_routing;
pub mod http_policy;
pub mod logging_policy;
pub mod migration_admin;
pub mod migration_delivery;
pub mod migration_plan;
pub mod migration_proxy;
pub mod net;
pub mod observability;
pub mod pingora_delivery;
pub mod process_health;
pub mod protocol_transition_policy;
pub mod runtime_configuration;
pub mod runtime_isolation;
pub mod runtime_policy;
pub mod startup;
pub mod telemetry;
pub mod text;
pub mod tls_delivery;
