pub mod coordinator;
pub mod crypto_identifiers;
pub mod ebpf_monitor;
pub mod hashing;
pub mod memory_randomizer;
pub mod ml_detector;
pub mod native;
pub mod recovery_snapshot;
