//! Collects key fragments from co-signers, and once a quorum of them is held,
//! reconstructs the shared secret and derives a private key from it.

pub mod fragment;
pub mod hexcode;
pub mod network;
pub mod store;
pub mod assembler;
pub mod coordinator;
