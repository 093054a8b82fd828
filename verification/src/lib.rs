//! Decision logic of a differential fuzzer for a PBFT replica and a patched
//! copy of it: which protocol message a fuzz input selects, how its payload is
//! derived from the input bytes, how replica snapshots are compared, and how
//! the next pending patch is chosen.
pub mod payload;
pub mod comp;
pub mod randomness;
pub mod harness;
pub mod messages;
pub mod patch;
pub mod restarter;
