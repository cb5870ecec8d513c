//! Verified core of a consensus-to-EVM bridge.
pub mod benchmark;
pub mod client;
pub mod decimal;
pub mod engine;
pub mod external;
pub mod messages;
pub mod methods;
pub mod types;
pub mod units;
