//! Core consensus, scripting and synchronisation rules of the Rusty Coin chain.
pub mod bytes;
pub mod text;
pub mod uint;
pub mod crypto;
pub mod types;
pub mod assoc;
pub mod encoding;
pub mod script;
pub mod consensus;
pub mod mempool;
pub mod governance;
pub mod network;
pub mod light_client;
