//! Block synchronisation: the state a sync keeps and the checks it applies to what peers
//! send.
pub mod sync;
pub mod sync_manager;
pub mod block_checks;
pub mod peers;
