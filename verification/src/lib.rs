//! A one-time-pad style file cipher: key generation, the byte-wise XOR
//! transform, chunked file ingestion, the naming convention that pairs
//! a ciphertext with its key, and the decrypt-and-purge lifecycle.
//!
//! The engine turns operation requests into plans of storage actions;
//! executing them against real storage, and the command line around it,
//! live outside the library.

pub mod engine;
pub mod errors;
pub mod keygen;
pub mod naming;
pub mod reader;
pub mod store;
pub mod xor;
