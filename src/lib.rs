//! A local-first chat gateway: capability grants, session routing, budget
//! metering, conversation memory, the tool-use loop, provider stream
//! normalization and the transport's decisions, each with its contract.
pub mod text;
pub mod types;
pub mod capabilities;
pub mod config;
pub mod router;
pub mod store;
pub mod metering;
pub mod memory;
pub mod agent;
pub mod providers;
pub mod sandbox;
pub mod gateway;
pub mod secrets;
pub mod webhook;
