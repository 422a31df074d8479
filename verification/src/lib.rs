//! Verified core of the ArbiShield security contracts: anomaly detection,
//! circuit breaking and the alert registry, as state machines over plain
//! values.
pub mod address;
pub mod word;
pub mod table;
pub mod rbac;
pub mod circuit_breaker;
pub mod circuit_breaker_laws;
pub mod alert_registry;
pub mod detection_engine;
pub mod abi;
pub mod detection_engine_laws;
pub mod error_laws;
pub mod alert_registry_laws;
pub mod shield;
