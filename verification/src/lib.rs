//! Verified core of a peer-to-peer key-value database for unreliable
//! networks: the storage model, the HTTP request handlers, the replication
//! decisions, the interactive prompt, the dashboard state and the
//! mesh/Bluetooth bookkeeping.

pub mod api;
pub mod bluetooth;
pub mod cli;
pub mod dashboard;
pub mod mesh;
pub mod storage;
pub mod sync;
pub mod text;
