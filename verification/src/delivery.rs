//! Delivery adapters: the decisions of the HTTP proxy, apart from its transport.

pub mod pingora_proxy;
