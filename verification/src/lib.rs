//! Loading of usage entries recorded by coding agents.
//!
//! An agent keeps its sessions in files or in SQLite databases. This library
//! holds what is decided while such records are loaded: which entries of a
//! session survive, in which order they are handed on, when a database counts
//! as unreadable, and what a database's content fingerprint is. The files and
//! databases themselves are read by the caller, which hands over plain values.
pub mod adapter;
pub mod entry;
pub mod fingerprint;
pub mod load;
pub mod order;
pub mod session;
