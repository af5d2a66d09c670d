//! Telemetry derivation for Apple Silicon performance monitoring: counter
//! deltas become frequencies, utilisation and power; sensor readings become
//! temperatures; and the sensor controller protocol is decoded.
pub mod text;
pub mod metrics;
pub mod soc;
pub mod history;
pub mod config;
pub mod smc;
pub mod sampling;
