//! A resource-bounded model of a filesystem subtree for file transfer.

pub mod config;
pub mod error;
pub mod file;
pub mod hash;
pub mod info;
pub mod limits;
pub mod meta;
pub mod path;
pub mod sniff;
pub mod tree;
pub mod walk;
